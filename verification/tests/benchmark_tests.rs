use rust_whisper_app::benchmark::{
    cross_device_speedups, fastest_configuration_index, Benchmark, BenchmarkResult,
};
use rust_whisper_app::error::TranscriptionError;
use rust_whisper_app::types::{ModelConfig, TranscriptionResult, TranscriptionSegment};

fn outcome(duration_ms: u64, time_ms: u64, rtf_milli: u64) -> TranscriptionResult {
    TranscriptionResult {
        language: "en".to_string(),
        language_probability_milli: 990,
        duration_ms,
        segments: vec![],
        full_text: "Test".to_string(),
        transcription_time_ms: time_ms,
        real_time_factor_milli: rtf_milli,
    }
}

fn record(model_size: &str, device: &str, compute_type: &str, rtf_milli: u64) -> BenchmarkResult {
    BenchmarkResult {
        model_size: model_size.to_string(),
        device: device.to_string(),
        compute_type: compute_type.to_string(),
        audio_duration_ms: 30000,
        transcription_time_ms: 2000,
        real_time_factor_milli: rtf_milli,
        memory_usage_mb: None,
        accuracy_score_milli: None,
        segments_count: 0,
    }
}

#[test]
fn test_benchmark_creation() {
    let mut benchmark = Benchmark::new();
    assert_eq!(benchmark.configs().len(), 0);

    benchmark.add_config(ModelConfig::new("base", "cpu", "float32"));
    assert_eq!(benchmark.configs().len(), 1);
}

#[test]
fn test_cpu_vs_metal_comparison() {
    let mut benchmark = Benchmark::new();
    benchmark.add_cpu_vs_metal_comparison("base", "float16");

    assert_eq!(benchmark.configs().len(), 2);
    assert_eq!(benchmark.configs()[0].device, "cpu");
    assert_eq!(benchmark.configs()[1].device, "mps");
}

#[test]
fn test_model_size_comparison() {
    let mut benchmark = Benchmark::new();
    benchmark.add_model_size_comparison("auto", "float16");

    assert_eq!(benchmark.configs().len(), 4); // tiny, base, small, medium
}

#[test]
fn test_benchmark_result_creation() {
    let config = ModelConfig::new("base", "mps", "float16");
    let transcription_result = TranscriptionResult {
        language: "en".to_string(),
        language_probability_milli: 990,
        duration_ms: 30000,
        segments: vec![],
        full_text: "Test".to_string(),
        transcription_time_ms: 2000,
        real_time_factor_milli: 15000,
    };

    let benchmark_result = BenchmarkResult::from_transcription(&config, &transcription_result);

    assert_eq!(benchmark_result.model_size, "base");
    assert_eq!(benchmark_result.device, "mps");
    assert_eq!(benchmark_result.compute_type, "float16");
    assert_eq!(benchmark_result.real_time_factor_milli, 15000);
}

#[test]
fn device_comparison_appends_full_triples() {
    let mut benchmark = Benchmark::new();
    benchmark.add_cpu_vs_metal_comparison("base", "float16");
    let configs = benchmark.configs();
    assert_eq!(configs.len(), 2);
    assert_eq!(configs[0].model_size, "base");
    assert_eq!(configs[0].device, "cpu");
    assert_eq!(configs[0].compute_type, "float16");
    assert_eq!(configs[1].model_size, "base");
    assert_eq!(configs[1].device, "mps");
    assert_eq!(configs[1].compute_type, "float16");
}

#[test]
fn model_size_comparison_appends_fixed_progression() {
    let mut benchmark = Benchmark::new();
    benchmark.add_model_size_comparison("auto", "float16");
    let configs = benchmark.configs();
    let expected = ["tiny", "base", "small", "medium"];
    assert_eq!(configs.len(), 4);
    for (config, want) in configs.iter().zip(expected.iter()) {
        assert_eq!(config.model_size, *want);
        assert_eq!(config.device, "auto");
        assert_eq!(config.compute_type, "float16");
    }
}

#[test]
fn compute_type_comparison_appends_both_precisions() {
    let mut benchmark = Benchmark::new();
    benchmark.add_compute_type_comparison("medium", "auto");
    let configs = benchmark.configs();
    assert_eq!(configs.len(), 2);
    assert_eq!(configs[0].compute_type, "float16");
    assert_eq!(configs[1].compute_type, "float32");
}

#[test]
fn sweeps_compose_additively() {
    let mut benchmark = Benchmark::new();
    benchmark.add_cpu_vs_metal_comparison("base", "float16");
    benchmark.add_model_size_comparison("cpu", "float32");
    benchmark.add_compute_type_comparison("base", "cpu");
    assert_eq!(benchmark.configs().len(), 8);
}

#[test]
fn run_skips_invalid_configurations_and_keeps_order() {
    let mut benchmark = Benchmark::new();
    benchmark.add_config(ModelConfig::new("tiny", "cpu", "float32"));
    benchmark.add_config(ModelConfig::new("invalid", "cpu", "float32"));
    benchmark.add_config(ModelConfig::new("base", "cpu", "float32"));

    let attempts: Vec<Result<TranscriptionResult, TranscriptionError>> = vec![
        Ok(outcome(30000, 3000, 10000)),
        Err(TranscriptionError::ModelInitError("bad".to_string())),
        Ok(outcome(30000, 2000, 15000)),
    ];

    let results = benchmark.run(&attempts);
    assert_eq!(results.len(), 2);
    assert_eq!(results[0].model_size, "tiny");
    assert_eq!(results[1].model_size, "base");
    assert_eq!(results[0].real_time_factor_milli, 10000);
    assert_eq!(results[1].real_time_factor_milli, 15000);
    assert_eq!(results[0].memory_usage_mb, None);
    assert_eq!(results[0].accuracy_score_milli, None);
}

#[test]
fn run_with_all_invalid_configurations_is_empty_not_an_error() {
    let mut benchmark = Benchmark::new();
    benchmark.add_config(ModelConfig::new("invalid", "cpu", "float32"));
    benchmark.add_config(ModelConfig::new("base", "nowhere", "float32"));

    let attempts: Vec<Result<TranscriptionResult, TranscriptionError>> = vec![
        Err(TranscriptionError::ModelInitError("bad".to_string())),
        Err(TranscriptionError::ModelInitError("bad".to_string())),
    ];

    let results = benchmark.run(&attempts);
    assert_eq!(results.len(), 0);
}

#[test]
fn run_skips_failed_attempts_of_valid_configurations() {
    let mut benchmark = Benchmark::new();
    benchmark.add_config(ModelConfig::new("tiny", "cpu", "float32"));
    benchmark.add_config(ModelConfig::new("base", "cpu", "float32"));

    let attempts: Vec<Result<TranscriptionResult, TranscriptionError>> = vec![
        Err(TranscriptionError::TranscriptionFailed("engine fault".to_string())),
        Ok(outcome(10000, 1000, 10000)),
    ];

    let results = benchmark.run(&attempts);
    assert_eq!(results.len(), 1);
    assert_eq!(results[0].model_size, "base");
}

#[test]
fn fastest_selection_is_stable_on_ties() {
    let results = vec![
        record("tiny", "cpu", "float32", 5000),
        record("base", "cpu", "float32", 15000),
        record("small", "cpu", "float32", 15000),
    ];
    assert_eq!(fastest_configuration_index(&results), Some(1));
}

#[test]
fn fastest_selection_of_empty_is_none() {
    let results: Vec<BenchmarkResult> = vec![];
    assert_eq!(fastest_configuration_index(&results), None);
}

#[test]
fn matched_pair_speedup_is_exact() {
    let results = vec![
        record("base", "cpu", "float16", 5000),
        record("base", "mps", "float16", 15000),
    ];
    let rows = cross_device_speedups(&results);
    assert_eq!(rows.len(), 1);
    assert_eq!(rows[0].model_size, "base");
    assert_eq!(rows[0].compute_type, "float16");
    assert_eq!(rows[0].cpu_rtf_milli, 5000);
    assert_eq!(rows[0].accelerator_rtf_milli, 15000);
    assert_eq!(rows[0].speedup_milli, 3000); // 3.0x
}

#[test]
fn unmatched_accelerator_record_produces_no_row() {
    let results = vec![
        record("base", "cpu", "float32", 5000), // different precision
        record("base", "mps", "float16", 15000),
        record("small", "mps", "float16", 12000), // no cpu partner at all
    ];
    let rows = cross_device_speedups(&results);
    assert_eq!(rows.len(), 0);
}

#[test]
fn segment_counts_are_copied() {
    let config = ModelConfig::new("tiny", "cpu", "float32");
    let mut result = outcome(30000, 2000, 15000);
    result.segments = vec![
        TranscriptionSegment {
            start_ms: 0,
            end_ms: 1500,
            text: "Hello".to_string(),
            no_speech_prob_milli: 10,
        },
        TranscriptionSegment {
            start_ms: 1500,
            end_ms: 3000,
            text: "world".to_string(),
            no_speech_prob_milli: 20,
        },
    ];
    let rec = BenchmarkResult::from_transcription(&config, &result);
    assert_eq!(rec.segments_count, 2);
    assert_eq!(rec.audio_duration_ms, 30000);
    assert_eq!(rec.transcription_time_ms, 2000);
}
