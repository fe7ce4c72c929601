use docstyle::audio::AudioService;
use docstyle::files::FileService;
use docstyle::system::{get_system_memory_info, MemoryManagerError};

#[test]
fn audio_service_readiness() {
    let mut service = AudioService::new();
    assert!(!service.is_ready());
    assert!(service.initialize_with_model(false).is_err());
    assert!(!service.is_ready());
    assert!(service.initialize_with_model(true).is_ok());
    assert!(service.is_ready());
}

#[test]
fn audio_processing_options() {
    let options = AudioService::get_medical_processing_options();
    assert_eq!(options.language.as_deref(), Some("de"));
    assert!(options.enhance_quality);
    assert!(options.noise_reduction);
    assert!(options.medical_terminology_boost);
}

#[test]
fn audio_supported_formats() {
    let formats = AudioService::get_supported_formats();
    assert_eq!(
        formats,
        vec!["wav", "mp3", "m4a", "flac", "ogg", "webm"]
    );
}

#[test]
fn mime_types() {
    let service = FileService::new("/tmp/appdata".to_string());
    assert_eq!(service.get_mime_type("wav"), "audio/wav");
    assert_eq!(service.get_mime_type("mp3"), "audio/mpeg");
    assert_eq!(
        service.get_mime_type("docx"),
        "application/vnd.openxmlformats-officedocument.wordprocessingml.document"
    );
    assert_eq!(service.get_mime_type("jpeg"), "image/jpeg");
    assert_eq!(service.get_mime_type("tif"), "image/tiff");
    assert_eq!(service.get_mime_type("xyz"), "application/octet-stream");
}

#[test]
fn supported_file_types() {
    let groups = FileService::get_supported_file_types();
    assert_eq!(groups.len(), 3);
    assert_eq!(groups[0].0, "Audio Processing");
    assert_eq!(groups[1].0, "Document Processing");
    assert_eq!(groups[2].0, "Image OCR");
    assert!(groups[1].1.iter().any(|t| t == "docx"));
    assert_eq!(groups[0].1.len(), 5);
}

#[test]
fn system_memory_defaults() {
    let (total, available) = get_system_memory_info();
    assert_eq!(total, 8 * 1024 * 1024 * 1024);
    assert_eq!(available, 6 * 1024 * 1024 * 1024);
}

#[test]
fn memory_error_messages() {
    let e = MemoryManagerError::InsufficientMemory {
        required: 1000,
        available: 42,
    };
    assert_eq!(
        e.message(),
        "Insufficient memory: need 1000 bytes, have 42 bytes"
    );
    let e2 = MemoryManagerError::ModelNotAllocated {
        name: "whisper".to_string(),
    };
    assert_eq!(e2.message(), "Model whisper is not allocated");
    let e3 = MemoryManagerError::AllocationFailed {
        message: "mapping failed".to_string(),
    };
    assert_eq!(e3.message(), "Memory allocation failed: mapping failed");
}
