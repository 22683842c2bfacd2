use rust_whisper_app::error::TranscriptionError;
use rust_whisper_app::transcriber::validate_audio_path;

#[test]
fn test_error_types() {
    // Test error creation and formatting
    let error = TranscriptionError::InvalidPath("test/path".to_string());
    assert_eq!(error.message(), "Invalid file path: test/path");

    let error = TranscriptionError::UnsupportedFormat("xyz".to_string());
    assert_eq!(error.message(), "Unsupported audio format: xyz");

    let error = TranscriptionError::ModelInitError("test error".to_string());
    assert_eq!(error.message(), "Model initialization failed: test error");
}

#[test]
fn remaining_error_kinds_have_messages() {
    let error = TranscriptionError::InvalidConfiguration("Invalid device: nowhere".to_string());
    assert_eq!(
        error.message(),
        "Invalid configuration: Invalid device: nowhere"
    );

    let error = TranscriptionError::TranscriptionFailed("engine fault".to_string());
    assert_eq!(error.message(), "Transcription failed: engine fault");
}

#[test]
fn missing_file_is_an_invalid_path() {
    let result = validate_audio_path("/nonexistent/file.wav", false);
    assert!(matches!(result, Err(TranscriptionError::InvalidPath(_))));
    assert_eq!(
        result.unwrap_err().message(),
        "Invalid file path: File does not exist: /nonexistent/file.wav"
    );
}

#[test]
fn every_recognized_format_passes() {
    for format in ["wav", "mp3", "flac", "m4a", "ogg", "mp4", "webm"] {
        let path = format!("test.{}", format);
        assert!(
            validate_audio_path(&path, true).is_ok(),
            "Format {} should be supported",
            format
        );
    }
}

#[test]
fn extensions_match_case_insensitively() {
    assert!(validate_audio_path("test.WAV", true).is_ok());
    assert!(validate_audio_path("test.Mp3", true).is_ok());
    assert!(validate_audio_path("clips/Take2.FLAC", true).is_ok());
}

#[test]
fn unrecognized_extension_is_unsupported_and_reported_lowercase() {
    let result = validate_audio_path("test.TXT", true);
    match result {
        Err(TranscriptionError::UnsupportedFormat(ext)) => assert_eq!(ext, "txt"),
        other => panic!("expected an unsupported-format error, got {:?}", other),
    }
}

#[test]
fn path_without_extension_is_unsupported() {
    let result = validate_audio_path("noextension", true);
    match result {
        Err(TranscriptionError::UnsupportedFormat(ext)) => assert_eq!(ext, "no extension"),
        other => panic!("expected an unsupported-format error, got {:?}", other),
    }
}

#[test]
fn leading_dot_name_carries_no_extension() {
    let result = validate_audio_path("clips/.wav", true);
    assert!(matches!(
        result,
        Err(TranscriptionError::UnsupportedFormat(_))
    ));
}

#[test]
fn dot_in_directory_is_not_an_extension() {
    let result = validate_audio_path("clips.d/take", true);
    match result {
        Err(TranscriptionError::UnsupportedFormat(ext)) => assert_eq!(ext, "no extension"),
        other => panic!("expected an unsupported-format error, got {:?}", other),
    }
    assert!(validate_audio_path("clips.d/take.ogg", true).is_ok());
}
