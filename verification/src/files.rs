//! The file service interface: file metadata records, the MIME-type table
//! and the supported file types of the surrounding application.

use vstd::prelude::*;
use vstd::string::StringExecFns;
use crate::text::{str_to_chars, chars_eq};

verus! {

/// Metadata of one managed file.
#[derive(Debug, Clone)]
pub struct FileInfo {
    pub id: String,
    pub name: String,
    pub path: String,
    pub size: u64,
    pub created: String,
    pub modified: String,
    pub file_type: String,
    pub mime_type: String,
}

/// The outcome of one file operation.
#[derive(Debug, Clone)]
pub struct FileOperationResult {
    pub success: bool,
    pub message: String,
    pub file_info: Option<FileInfo>,
}

/// The file service, rooted at the application's data directory.
pub struct FileService {
    pub app_data_dir: String,
}

/// The MIME type assigned to a file extension.
pub open spec fn spec_mime_type(ext: Seq<char>) -> Seq<char> {
    if ext == "wav"@ {
        "audio/wav"@
    } else if ext == "mp3"@ {
        "audio/mpeg"@
    } else if ext == "m4a"@ {
        "audio/mp4"@
    } else if ext == "flac"@ {
        "audio/flac"@
    } else if ext == "ogg"@ {
        "audio/ogg"@
    } else if ext == "pdf"@ {
        "application/pdf"@
    } else if ext == "doc"@ {
        "application/msword"@
    } else if ext == "docx"@ {
        "application/vnd.openxmlformats-officedocument.wordprocessingml.document"@
    } else if ext == "txt"@ {
        "text/plain"@
    } else if ext == "rtf"@ {
        "application/rtf"@
    } else if ext == "png"@ {
        "image/png"@
    } else if ext == "jpg"@ || ext == "jpeg"@ {
        "image/jpeg"@
    } else if ext == "tiff"@ || ext == "tif"@ {
        "image/tiff"@
    } else if ext == "bmp"@ {
        "image/bmp"@
    } else {
        "application/octet-stream"@
    }
}

impl FileService {
    /// A service rooted at the given data directory.
    pub fn new(app_data_dir: String) -> (r: FileService)
        ensures
            r.app_data_dir@ == app_data_dir@,
    {
        FileService { app_data_dir }
    }

    /// The MIME type for a (lower-case) file extension.
    pub fn get_mime_type(&self, extension: &str) -> (r: String)
        ensures
            r@ == spec_mime_type(extension@),
    {
        let e = str_to_chars(extension);
        let lit: &'static str = if chars_eq(&e, &str_to_chars("wav")) {
            "audio/wav"
        } else if chars_eq(&e, &str_to_chars("mp3")) {
            "audio/mpeg"
        } else if chars_eq(&e, &str_to_chars("m4a")) {
            "audio/mp4"
        } else if chars_eq(&e, &str_to_chars("flac")) {
            "audio/flac"
        } else if chars_eq(&e, &str_to_chars("ogg")) {
            "audio/ogg"
        } else if chars_eq(&e, &str_to_chars("pdf")) {
            "application/pdf"
        } else if chars_eq(&e, &str_to_chars("doc")) {
            "application/msword"
        } else if chars_eq(&e, &str_to_chars("docx")) {
            "application/vnd.openxmlformats-officedocument.wordprocessingml.document"
        } else if chars_eq(&e, &str_to_chars("txt")) {
            "text/plain"
        } else if chars_eq(&e, &str_to_chars("rtf")) {
            "application/rtf"
        } else if chars_eq(&e, &str_to_chars("png")) {
            "image/png"
        } else if chars_eq(&e, &str_to_chars("jpg")) || chars_eq(&e, &str_to_chars("jpeg")) {
            "image/jpeg"
        } else if chars_eq(&e, &str_to_chars("tiff")) || chars_eq(&e, &str_to_chars("tif")) {
            "image/tiff"
        } else if chars_eq(&e, &str_to_chars("bmp")) {
            "image/bmp"
        } else {
            "application/octet-stream"
        };
        String::from_str(lit)
    }

    /// The supported file types, grouped by operation.
    pub fn get_supported_file_types() -> (r: Vec<(String, Vec<String>)>)
        ensures
            r@.len() == 3,
            r@[0].0@ == "Audio Processing"@,
            r@[0].1@.len() == 5,
            r@[1].0@ == "Document Processing"@,
            r@[1].1@.len() == 5,
            r@[2].0@ == "Image OCR"@,
            r@[2].1@.len() == 5,
            r@[1].1@[2]@ == "docx"@,
    {
        let mut audio: Vec<String> = Vec::new();
        audio.push(String::from_str("wav"));
        audio.push(String::from_str("mp3"));
        audio.push(String::from_str("m4a"));
        audio.push(String::from_str("flac"));
        audio.push(String::from_str("ogg"));
        let mut documents: Vec<String> = Vec::new();
        documents.push(String::from_str("pdf"));
        documents.push(String::from_str("doc"));
        documents.push(String::from_str("docx"));
        documents.push(String::from_str("txt"));
        documents.push(String::from_str("rtf"));
        let mut images: Vec<String> = Vec::new();
        images.push(String::from_str("png"));
        images.push(String::from_str("jpg"));
        images.push(String::from_str("jpeg"));
        images.push(String::from_str("tiff"));
        images.push(String::from_str("bmp"));
        let mut r: Vec<(String, Vec<String>)> = Vec::new();
        r.push((String::from_str("Audio Processing"), audio));
        r.push((String::from_str("Document Processing"), documents));
        r.push((String::from_str("Image OCR"), images));
        r
    }
}

} // verus!
