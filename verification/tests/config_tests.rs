use rust_whisper_app::benchmark::Benchmark;
use rust_whisper_app::TranscriptionError;
use rust_whisper_app::transcriber::FasterWhisperTranscriber;
use rust_whisper_app::types::ModelConfig;

#[test]
fn transcriber_test_model_config_validation() {
    let valid_config = ModelConfig::new("base", "auto", "float16");
    assert!(valid_config.validate().is_ok());

    let invalid_model = ModelConfig::new("invalid", "auto", "float16");
    assert!(invalid_model.validate().is_err());

    let invalid_device = ModelConfig::new("base", "invalid", "float16");
    assert!(invalid_device.validate().is_err());

    let invalid_compute = ModelConfig::new("base", "auto", "invalid");
    assert!(invalid_compute.validate().is_err());
}

#[test]
fn transcriber_test_transcriber_creation() {
    let config = ModelConfig::new("base", "cpu", "float32");
    let transcriber = FasterWhisperTranscriber::new(config);
    assert!(transcriber.is_ok());

    let invalid_config = ModelConfig::new("invalid", "auto", "float16");
    let invalid_transcriber = FasterWhisperTranscriber::new(invalid_config);
    assert!(invalid_transcriber.is_err());
}

#[test]
fn test_from_params() {
    let transcriber = FasterWhisperTranscriber::from_params("base", "cpu", "float32");
    assert!(transcriber.is_ok());

    let transcriber = transcriber.unwrap();
    let config = transcriber.config();
    assert_eq!(config.model_size, "base");
    assert_eq!(config.device, "cpu");
    assert_eq!(config.compute_type, "float32");
}

#[test]
fn integration_tests_test_model_config_validation() {
    // Test valid configurations
    let valid_configs = vec![
        ModelConfig::new("base", "cpu", "float32"),
        ModelConfig::new("tiny", "auto", "float16"),
        ModelConfig::new("small", "mps", "float16"),
    ];

    for config in valid_configs {
        assert!(
            config.validate().is_ok(),
            "Config should be valid: {:?}",
            config
        );
    }

    // Test invalid configurations
    let invalid_configs = vec![
        ModelConfig::new("invalid", "cpu", "float32"),
        ModelConfig::new("base", "invalid", "float32"),
        ModelConfig::new("base", "cpu", "invalid"),
    ];

    for config in invalid_configs {
        assert!(
            config.validate().is_err(),
            "Config should be invalid: {:?}",
            config
        );
    }
}

#[test]
fn integration_tests_test_transcriber_creation() {
    // Test successful creation with medium model (default)
    let config = ModelConfig::new("medium", "cpu", "float32");
    let result = FasterWhisperTranscriber::new(config);
    assert!(result.is_ok());

    // Test failed creation with invalid config
    let invalid_config = ModelConfig::new("invalid", "cpu", "float32");
    let result = FasterWhisperTranscriber::new(invalid_config);
    assert!(result.is_err());
}

#[test]
fn test_benchmark_configuration() {
    let mut benchmark = Benchmark::new();

    // Test CPU vs Metal comparison
    benchmark.add_cpu_vs_metal_comparison("base", "float16");
    // Should add 2 configs: CPU and Metal

    // Test model size comparison
    benchmark.add_model_size_comparison("cpu", "float32");
    // Should add 4 more configs: tiny, base, small, medium

    // Test compute type comparison
    benchmark.add_compute_type_comparison("base", "cpu");
    // Should add 2 more configs: float16, float32
}

#[test]
fn test_medium_model_creation() {
    // Test medium model creation with different configurations
    let configs = vec![
        ModelConfig::new("medium", "auto", "float16"),
        ModelConfig::new("medium", "cpu", "float32"),
    ];

    for config in configs {
        let result = FasterWhisperTranscriber::new(config.clone());
        assert!(
            result.is_ok(),
            "Failed to create transcriber with config: {:?}",
            config
        );
    }
}

#[test]
fn all_enumeration_members_validate() {
    for model in ["tiny", "base", "small", "medium", "large-v2", "large-v3"] {
        for device in ["auto", "cpu", "cuda", "mps"] {
            for compute in ["float16", "float32", "int8"] {
                let config = ModelConfig::new(model, device, compute);
                assert!(config.validate().is_ok());
            }
        }
    }
}

#[test]
fn validation_names_first_invalid_field_in_order() {
    let config = ModelConfig::new("bogus", "nowhere", "float99");
    assert_eq!(
        config.validate().unwrap_err(),
        "Invalid model size: bogus".to_string()
    );

    let config = ModelConfig::new("base", "nowhere", "float99");
    assert_eq!(
        config.validate().unwrap_err(),
        "Invalid device: nowhere".to_string()
    );

    let config = ModelConfig::new("base", "cpu", "float99");
    assert_eq!(
        config.validate().unwrap_err(),
        "Invalid compute type: float99".to_string()
    );
}

#[test]
fn default_configuration_is_medium_auto_half_precision() {
    let config = ModelConfig::default();
    assert_eq!(config.model_size, "medium");
    assert_eq!(config.device, "auto");
    assert_eq!(config.compute_type, "float16");
    assert!(config.validate().is_ok());
}

#[test]
fn invalid_configuration_error_carries_the_validation_message() {
    let invalid = ModelConfig::new("base", "nowhere", "float16");
    match FasterWhisperTranscriber::new(invalid) {
        Err(TranscriptionError::InvalidConfiguration(m)) => {
            assert_eq!(m, "Invalid device: nowhere");
        }
        other => panic!("expected an invalid-configuration error, got {:?}", other.is_ok()),
    }
}

#[test]
fn case_matters_for_enumerations() {
    let config = ModelConfig::new("Base", "cpu", "float32");
    assert!(!config.is_valid_model_size());
    assert!(config.is_valid_device());
    assert!(config.is_valid_compute_type());
    assert!(config.validate().is_err());
}
