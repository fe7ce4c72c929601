//! Interface records exchanged with the surrounding application: command
//! responses and status reports that carry the engine's results and the
//! wider pipelines' bookkeeping.

use vstd::prelude::*;

verus! {

/// Whether a user request is a formatting request, with the request text.
#[derive(Debug, Clone)]
pub struct DetectFormattingResponse {
    pub is_formatting_request: bool,
    pub request: String,
}

/// Description of one available model.
#[derive(Debug, Clone)]
pub struct ModelInfo {
    pub name: String,
    pub version: String,
    pub size_bytes: u64,
    pub status: String,
    pub loaded: bool,
    pub memory_usage: u64,
}

/// Status of the learned style profile.
#[derive(Debug, Clone)]
pub struct StyleProfileStatus {
    pub exists: bool,
    pub document_count: i32,
    pub section_count: i32,
    pub created_at: Option<String>,
    pub source_files: Vec<String>,
}

/// The outcome of a template extraction run.
#[derive(Debug, Clone)]
pub struct ExtractionResult {
    pub success: bool,
    pub message: String,
    pub template_spec_path: Option<String>,
    pub anchors_found: usize,
    pub documents_analyzed: usize,
}

/// The outcome of a document rendering run.
#[derive(Debug, Clone)]
pub struct RenderResult {
    pub success: bool,
    pub message: String,
    pub output_path: Option<String>,
    pub unclear_count: usize,
    pub missing_sections: Vec<String>,
}

/// A grammar correction request.
#[derive(Debug, Clone)]
pub struct GrammarCorrectionRequest {
    pub text: String,
    pub preserve_style: bool,
    pub language: String,
}

} // verus!
