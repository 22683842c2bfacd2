use rust_whisper_app::benchmark::BenchmarkResult;
use rust_whisper_app::json::{parse_results_json, results_json};
use rust_whisper_app::text::{chars_of_str, string_from_chars};
use rust_whisper_app::types::{
    concat_segment_texts, real_time_factor_milli, TranscriptionResult, TranscriptionSegment,
};

fn record(model_size: &str, rtf_milli: u64) -> BenchmarkResult {
    BenchmarkResult {
        model_size: model_size.to_string(),
        device: "cpu".to_string(),
        compute_type: "float16".to_string(),
        audio_duration_ms: 30000,
        transcription_time_ms: 2000,
        real_time_factor_milli: rtf_milli,
        memory_usage_mb: None,
        accuracy_score_milli: None,
        segments_count: 3,
    }
}

fn assert_records_equal(a: &BenchmarkResult, b: &BenchmarkResult) {
    assert_eq!(a.model_size, b.model_size);
    assert_eq!(a.device, b.device);
    assert_eq!(a.compute_type, b.compute_type);
    assert_eq!(a.audio_duration_ms, b.audio_duration_ms);
    assert_eq!(a.transcription_time_ms, b.transcription_time_ms);
    assert_eq!(a.real_time_factor_milli, b.real_time_factor_milli);
    assert_eq!(a.memory_usage_mb, b.memory_usage_mb);
    assert_eq!(a.accuracy_score_milli, b.accuracy_score_milli);
    assert_eq!(a.segments_count, b.segments_count);
}

#[test]
fn json_round_trip_preserves_all_fields() {
    let records = vec![record("base", 15000), record("medium", 5000)];
    let text = results_json(&records);
    let parsed = parse_results_json(&text).expect("serialized records must parse back");
    assert_eq!(parsed.len(), 2);
    assert_records_equal(&parsed[0], &records[0]);
    assert_records_equal(&parsed[1], &records[1]);
}

#[test]
fn json_round_trip_of_empty_sequence() {
    let records: Vec<BenchmarkResult> = vec![];
    let text = results_json(&records);
    assert_eq!(string_from_chars(&text), "[]");
    let parsed = parse_results_json(&text).expect("an empty array must parse back");
    assert_eq!(parsed.len(), 0);
}

#[test]
fn json_escapes_quotes_and_backslashes() {
    let mut odd = record("base", 1000);
    odd.model_size = "odd\"name\\here".to_string();
    let records = vec![odd];
    let text = results_json(&records);
    let parsed = parse_results_json(&text).expect("escaped text must parse back");
    assert_eq!(parsed[0].model_size, "odd\"name\\here");
}

#[test]
fn json_keeps_unset_placeholders_unset_and_set_ones_set() {
    let mut with_extras = record("tiny", 2500);
    with_extras.memory_usage_mb = Some(512);
    with_extras.accuracy_score_milli = Some(930);
    let records = vec![record("base", 15000), with_extras];
    let text = results_json(&records);
    let parsed = parse_results_json(&text).expect("records must parse back");
    assert_eq!(parsed[0].memory_usage_mb, None);
    assert_eq!(parsed[0].accuracy_score_milli, None);
    assert_eq!(parsed[1].memory_usage_mb, Some(512));
    assert_eq!(parsed[1].accuracy_score_milli, Some(930));
}

#[test]
fn json_text_is_the_documented_flat_object() {
    let records = vec![record("base", 15000)];
    let text = string_from_chars(&results_json(&records));
    assert_eq!(
        text,
        "[{\"model_size\":\"base\",\"device\":\"cpu\",\"compute_type\":\"float16\",\
         \"audio_duration_ms\":30000,\"transcription_time_ms\":2000,\
         \"real_time_factor_milli\":15000,\"memory_usage_mb\":null,\
         \"accuracy_score_milli\":null,\"segments_count\":3}]"
    );
}

#[test]
fn garbage_does_not_parse() {
    assert!(parse_results_json(&chars_of_str("")).is_none());
    assert!(parse_results_json(&chars_of_str("{}")).is_none());
    assert!(parse_results_json(&chars_of_str("[{}]")).is_none());
    assert!(parse_results_json(&chars_of_str("[] ")).is_none());
}

#[test]
fn real_time_factor_divides_duration_by_time() {
    // 30 seconds of audio transcribed in 2 seconds: 15.0x real time.
    assert_eq!(real_time_factor_milli(30000, 2000), 15000);
    // 10 seconds in 4 seconds: 2.5x.
    assert_eq!(real_time_factor_milli(10000, 4000), 2500);
}

#[test]
fn real_time_factor_is_zero_when_time_is_zero() {
    assert_eq!(real_time_factor_milli(30000, 0), 0);
    assert_eq!(real_time_factor_milli(0, 0), 0);
}

#[test]
fn calculate_real_time_factor_updates_only_timing() {
    let mut result = TranscriptionResult {
        language: "en".to_string(),
        language_probability_milli: 990,
        duration_ms: 30000,
        segments: vec![],
        full_text: "Test".to_string(),
        transcription_time_ms: 0,
        real_time_factor_milli: 0,
    };
    result.calculate_real_time_factor(2000);
    assert_eq!(result.transcription_time_ms, 2000);
    assert_eq!(result.real_time_factor_milli, 15000);
    assert_eq!(result.language, "en");
    assert_eq!(result.duration_ms, 30000);

    result.calculate_real_time_factor(0);
    assert_eq!(result.real_time_factor_milli, 0);
}

fn segment(text: &str) -> TranscriptionSegment {
    TranscriptionSegment {
        start_ms: 0,
        end_ms: 1000,
        text: text.to_string(),
        no_speech_prob_milli: 10,
    }
}

#[test]
fn segment_texts_join_with_single_spaces() {
    let segments = vec![segment("Hello"), segment("world")];
    assert_eq!(concat_segment_texts(&segments), "Hello world");
}

#[test]
fn empty_segment_text_adds_no_separator() {
    let segments = vec![segment(""), segment("only")];
    assert_eq!(concat_segment_texts(&segments), "only");
    let none: Vec<TranscriptionSegment> = vec![];
    assert_eq!(concat_segment_texts(&none), "");
}
