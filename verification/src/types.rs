//! Core data model: the configuration triple with its validation predicate,
//! and the transcription outcome produced by the external speech-to-text
//! collaborator. Durations are whole milliseconds; probabilities and
//! real-time factors are thousandths.
use vstd::prelude::*;
use vstd::string::StringExecFns;
use crate::text::str_eq;

verus! {

/// One timed span of recognized speech, as reported by the collaborator.
#[derive(Debug, Clone)]
pub struct TranscriptionSegment {
    /// Start of the span, in milliseconds from the start of the audio.
    pub start_ms: u64,
    /// End of the span, in milliseconds from the start of the audio.
    pub end_ms: u64,
    /// Recognized text of the span.
    pub text: String,
    /// Probability that the span holds no speech, in thousandths.
    pub no_speech_prob_milli: u64,
}

/// Mathematical image of a `TranscriptionSegment`.
pub struct TranscriptionSegmentView {
    pub start_ms: u64,
    pub end_ms: u64,
    pub text: Seq<char>,
    pub no_speech_prob_milli: u64,
}

impl View for TranscriptionSegment {
    type V = TranscriptionSegmentView;

    open spec fn view(&self) -> TranscriptionSegmentView {
        TranscriptionSegmentView {
            start_ms: self.start_ms,
            end_ms: self.end_ms,
            text: self.text@,
            no_speech_prob_milli: self.no_speech_prob_milli,
        }
    }
}

impl DeepView for TranscriptionSegment {
    type V = TranscriptionSegmentView;

    open spec fn deep_view(&self) -> TranscriptionSegmentView {
        self.view()
    }
}

/// Everything one transcription run reports: detected language and its
/// confidence, the audio duration, the recognized segments and their
/// concatenated text, the measured wall-clock time, and the derived
/// real-time factor.
#[derive(Debug, Clone)]
pub struct TranscriptionResult {
    /// Detected language code.
    pub language: String,
    /// Confidence of the language detection, in thousandths (0..=1000).
    pub language_probability_milli: u64,
    /// Audio duration, in milliseconds.
    pub duration_ms: u64,
    /// Recognized spans, in time order as reported by the collaborator.
    pub segments: Vec<TranscriptionSegment>,
    /// Concatenation of the segment texts.
    pub full_text: String,
    /// Measured wall-clock transcription time, in milliseconds.
    pub transcription_time_ms: u64,
    /// Audio duration over transcription time, in thousandths.
    pub real_time_factor_milli: u64,
}

/// Mathematical image of a `TranscriptionResult`.
pub struct TranscriptionResultView {
    pub language: Seq<char>,
    pub language_probability_milli: u64,
    pub duration_ms: u64,
    pub segments: Seq<TranscriptionSegmentView>,
    pub full_text: Seq<char>,
    pub transcription_time_ms: u64,
    pub real_time_factor_milli: u64,
}

impl View for TranscriptionResult {
    type V = TranscriptionResultView;

    open spec fn view(&self) -> TranscriptionResultView {
        TranscriptionResultView {
            language: self.language@,
            language_probability_milli: self.language_probability_milli,
            duration_ms: self.duration_ms,
            segments: self.segments.deep_view(),
            full_text: self.full_text@,
            transcription_time_ms: self.transcription_time_ms,
            real_time_factor_milli: self.real_time_factor_milli,
        }
    }
}

impl DeepView for TranscriptionResult {
    type V = TranscriptionResultView;

    open spec fn deep_view(&self) -> TranscriptionResultView {
        self.view()
    }
}

/// Real-time factor in thousandths: `duration_ms * 1000 / time_ms` when the
/// transcription time is positive (saturating at `u64::MAX`), and 0 when the
/// time is zero, so the ratio is never a division by zero.
pub open spec fn rtf_milli(duration_ms: u64, time_ms: u64) -> u64 {
    ratio_milli(duration_ms, time_ms)
}

/// `num * 1000 / den` in thousandths, saturating at `u64::MAX`; 0 when the
/// denominator is zero.
pub open spec fn ratio_milli(num: u64, den: u64) -> u64 {
    if den > 0 {
        let q = (num as int) * 1000 / (den as int);
        if q > u64::MAX {
            u64::MAX
        } else {
            q as u64
        }
    } else {
        0
    }
}

/// Computes `num * 1000 / den` in thousandths, saturating at `u64::MAX`;
/// 0 when the denominator is zero.
pub fn compute_ratio_milli(num: u64, den: u64) -> (r: u64)
    ensures
        r == ratio_milli(num, den),
{
    if den == 0 {
        0
    } else {
        let wide: u128 = (num as u128) * 1000 / (den as u128);
        if wide > u64::MAX as u128 {
            u64::MAX
        } else {
            wide as u64
        }
    }
}

/// Computes the real-time factor of an audio duration against a wall-clock
/// transcription time, both in milliseconds; the result is in thousandths.
pub fn real_time_factor_milli(duration_ms: u64, time_ms: u64) -> (r: u64)
    ensures
        r == rtf_milli(duration_ms, time_ms),
{
    compute_ratio_milli(duration_ms, time_ms)
}

impl TranscriptionResult {
    /// Records the measured wall-clock time and derives the real-time factor
    /// from it; every other field is left as it was.
    pub fn calculate_real_time_factor(&mut self, transcription_time_ms: u64)
        ensures
            final(self).transcription_time_ms == transcription_time_ms,
            final(self).real_time_factor_milli == rtf_milli(
                old(self).duration_ms,
                transcription_time_ms,
            ),
            final(self).language == old(self).language,
            final(self).language_probability_milli == old(self).language_probability_milli,
            final(self).duration_ms == old(self).duration_ms,
            final(self).segments == old(self).segments,
            final(self).full_text == old(self).full_text,
    {
        self.transcription_time_ms = transcription_time_ms;
        self.real_time_factor_milli = real_time_factor_milli(
            self.duration_ms,
            transcription_time_ms,
        );
    }
}

/// One step of joining segment texts: a single space separates the next text
/// from what was collected so far, but only when something non-empty was.
pub open spec fn join_step(acc: Seq<char>, t: Seq<char>) -> Seq<char> {
    if acc.len() > 0 {
        acc + " "@ + t
    } else {
        t
    }
}

/// The join of the first `i` segment texts.
pub open spec fn joined_texts_upto(segments: Seq<TranscriptionSegmentView>, i: int) -> Seq<char>
    decreases i,
{
    if i <= 0 {
        Seq::empty()
    } else {
        join_step(joined_texts_upto(segments, i - 1), segments[i - 1].text)
    }
}

/// The concatenated full text of a transcription: the segment texts in
/// order, separated by single spaces, with empty texts adding no separator.
pub open spec fn joined_texts(segments: Seq<TranscriptionSegmentView>) -> Seq<char> {
    joined_texts_upto(segments, segments.len() as int)
}

/// Concatenates the segment texts, in order, a single space between them;
/// an empty text contributes no separator.
pub fn concat_segment_texts(segments: &Vec<TranscriptionSegment>) -> (r: String)
    ensures
        r@ == joined_texts(segments.deep_view()),
{
    let ghost sv = segments.deep_view();
    let mut s = String::new();
    let mut i: usize = 0;
    while i < segments.len()
        invariant
            i <= segments@.len(),
            sv == segments.deep_view(),
            sv.len() == segments@.len(),
            s@ == joined_texts_upto(sv, i as int),
        decreases segments@.len() - i,
    {
        if !s.as_str().is_empty() {
            s.append(" ");
        }
        s.append(segments[i].text.as_str());
        i = i + 1;
    }
    s
}

/// The model/device/precision triple that one benchmark run is bound to.
/// Construction performs no validation; `validate` is the explicit check,
/// so an invalid triple can exist transiently while a sweep is being built.
#[derive(Debug, Clone)]
pub struct ModelConfig {
    /// Model size name; valid values: tiny, base, small, medium, large-v2,
    /// large-v3.
    pub model_size: String,
    /// Device name; valid values: auto, cpu, cuda, mps.
    pub device: String,
    /// Numeric precision name; valid values: float16, float32, int8.
    pub compute_type: String,
}

/// Mathematical image of a `ModelConfig`.
pub struct ModelConfigView {
    pub model_size: Seq<char>,
    pub device: Seq<char>,
    pub compute_type: Seq<char>,
}

impl View for ModelConfig {
    type V = ModelConfigView;

    open spec fn view(&self) -> ModelConfigView {
        ModelConfigView {
            model_size: self.model_size@,
            device: self.device@,
            compute_type: self.compute_type@,
        }
    }
}

impl DeepView for ModelConfig {
    type V = ModelConfigView;

    open spec fn deep_view(&self) -> ModelConfigView {
        self.view()
    }
}

/// Shorthand for the view of a configuration built from the three names.
pub open spec fn config_view(
    model_size: Seq<char>,
    device: Seq<char>,
    compute_type: Seq<char>,
) -> ModelConfigView {
    ModelConfigView { model_size: model_size, device: device, compute_type: compute_type }
}

/// The fixed enumeration of model sizes.
pub open spec fn valid_model_size(s: Seq<char>) -> bool {
    ||| s == "tiny"@
    ||| s == "base"@
    ||| s == "small"@
    ||| s == "medium"@
    ||| s == "large-v2"@
    ||| s == "large-v3"@
}

/// The fixed enumeration of devices.
pub open spec fn valid_device(s: Seq<char>) -> bool {
    ||| s == "auto"@
    ||| s == "cpu"@
    ||| s == "cuda"@
    ||| s == "mps"@
}

/// The fixed enumeration of numeric precisions.
pub open spec fn valid_compute_type(s: Seq<char>) -> bool {
    ||| s == "float16"@
    ||| s == "float32"@
    ||| s == "int8"@
}

/// A configuration is valid when all three fields are drawn from their
/// fixed enumerations.
pub open spec fn valid_config(c: ModelConfigView) -> bool {
    &&& valid_model_size(c.model_size)
    &&& valid_device(c.device)
    &&& valid_compute_type(c.compute_type)
}

/// The description `validate` fails with: it names the first invalid field,
/// in field order (model size, then device, then compute precision).
pub open spec fn config_error_message(c: ModelConfigView) -> Seq<char> {
    if !valid_model_size(c.model_size) {
        "Invalid model size: "@ + c.model_size
    } else if !valid_device(c.device) {
        "Invalid device: "@ + c.device
    } else {
        "Invalid compute type: "@ + c.compute_type
    }
}

impl ModelConfig {
    /// Builds the triple from the three names, without validating them.
    pub fn new(model_size: &str, device: &str, compute_type: &str) -> (c: ModelConfig)
        ensures
            c@ == config_view(model_size@, device@, compute_type@),
    {
        ModelConfig {
            model_size: String::from_str(model_size),
            device: String::from_str(device),
            compute_type: String::from_str(compute_type),
        }
    }

    /// Whether the model size is one of the fixed enumeration.
    pub fn is_valid_model_size(&self) -> (r: bool)
        ensures
            r == valid_model_size(self.model_size@),
    {
        str_eq(self.model_size.as_str(), "tiny")
            || str_eq(self.model_size.as_str(), "base")
            || str_eq(self.model_size.as_str(), "small")
            || str_eq(self.model_size.as_str(), "medium")
            || str_eq(self.model_size.as_str(), "large-v2")
            || str_eq(self.model_size.as_str(), "large-v3")
    }

    /// Whether the device is one of the fixed enumeration.
    pub fn is_valid_device(&self) -> (r: bool)
        ensures
            r == valid_device(self.device@),
    {
        str_eq(self.device.as_str(), "auto")
            || str_eq(self.device.as_str(), "cpu")
            || str_eq(self.device.as_str(), "cuda")
            || str_eq(self.device.as_str(), "mps")
    }

    /// Whether the compute precision is one of the fixed enumeration.
    pub fn is_valid_compute_type(&self) -> (r: bool)
        ensures
            r == valid_compute_type(self.compute_type@),
    {
        str_eq(self.compute_type.as_str(), "float16")
            || str_eq(self.compute_type.as_str(), "float32")
            || str_eq(self.compute_type.as_str(), "int8")
    }

    /// Succeeds exactly when all three fields are drawn from their fixed
    /// enumerations; fails with a description naming the first invalid field
    /// found, in field order.
    pub fn validate(&self) -> (r: Result<(), String>)
        ensures
            r is Ok <==> valid_config(self@),
            r is Err ==> r->Err_0@ == config_error_message(self@),
    {
        if !self.is_valid_model_size() {
            let mut m = String::from_str("Invalid model size: ");
            m.append(self.model_size.as_str());
            return Err(m);
        }
        if !self.is_valid_device() {
            let mut m = String::from_str("Invalid device: ");
            m.append(self.device.as_str());
            return Err(m);
        }
        if !self.is_valid_compute_type() {
            let mut m = String::from_str("Invalid compute type: ");
            m.append(self.compute_type.as_str());
            return Err(m);
        }
        Ok(())
    }
}

impl Default for ModelConfig {
    /// The default triple: the medium model, automatic device selection,
    /// half precision.
    fn default() -> (c: ModelConfig)
        ensures
            c@ == config_view("medium"@, "auto"@, "float16"@),
    {
        ModelConfig::new("medium", "auto", "float16")
    }
}

} // verus!
