//! The audio service interface: processing options and readiness state for
//! the transcription pipeline that surrounds the engine.  The speech model
//! itself lives outside this crate; the service tracks only whether a
//! ready model has been attached.

use vstd::prelude::*;
use vstd::string::StringExecFns;

verus! {

/// Options for processing one audio recording.
#[derive(Debug, Clone)]
pub struct AudioProcessingOptions {
    pub language: Option<String>,
    pub enhance_quality: bool,
    pub noise_reduction: bool,
    pub medical_terminology_boost: bool,
}

/// The audio service.  `whisper_model` holds the readiness of the attached
/// speech model, or `None` while no model is attached.
pub struct AudioService {
    pub whisper_model: Option<bool>,
}

impl AudioService {
    /// A fresh service with no model attached.
    pub fn new() -> (r: AudioService)
        ensures
            r.whisper_model is None,
            !r.is_ready_spec(),
    {
        AudioService { whisper_model: None }
    }

    /// Whether the service is ready for processing.
    pub open spec fn is_ready_spec(&self) -> bool {
        self.whisper_model == Some(true)
    }

    /// Attach a model; only a ready model is accepted.
    pub fn initialize_with_model(&mut self, model_ready: bool) -> (r: Result<(), String>)
        ensures
            r is Ok <==> model_ready,
            model_ready ==> final(self).whisper_model == Some(true),
            !model_ready ==> *final(self) == *old(self),
            match r {
                Ok(()) => true,
                Err(e) => e@ == "Whisper model is not ready"@,
            },
    {
        if !model_ready {
            return Err(String::from_str("Whisper model is not ready"));
        }
        self.whisper_model = Some(model_ready);
        Ok(())
    }

    /// The recommended processing options for medical dictation: German,
    /// with every enhancement switched on.
    pub fn get_medical_processing_options() -> (r: AudioProcessingOptions)
        ensures
            match r.language {
                Some(l) => l@ == "de"@,
                None => false,
            },
            r.enhance_quality,
            r.noise_reduction,
            r.medical_terminology_boost,
    {
        AudioProcessingOptions {
            language: Some(String::from_str("de")),
            enhance_quality: true,
            noise_reduction: true,
            medical_terminology_boost: true,
        }
    }

    /// Whether a ready model is attached.
    pub fn is_ready(&self) -> (r: bool)
        ensures
            r == self.is_ready_spec(),
    {
        match self.whisper_model {
            Some(ready) => ready,
            None => false,
        }
    }

    /// The supported audio container formats.
    pub fn get_supported_formats() -> (r: Vec<String>)
        ensures
            r@.len() == 6,
            r@[0]@ == "wav"@,
            r@[1]@ == "mp3"@,
            r@[2]@ == "m4a"@,
            r@[3]@ == "flac"@,
            r@[4]@ == "ogg"@,
            r@[5]@ == "webm"@,
    {
        let mut v: Vec<String> = Vec::new();
        v.push(String::from_str("wav"));
        v.push(String::from_str("mp3"));
        v.push(String::from_str("m4a"));
        v.push(String::from_str("flac"));
        v.push(String::from_str("ogg"));
        v.push(String::from_str("webm"));
        v
    }
}

} // verus!
