//! The transcription collaborator's interface layer: a transcriber is bound
//! to one validated configuration, and an audio path is checked — existence
//! (reported by the caller, which owns the file system) and a recognized
//! extension — before the external engine is ever invoked, so that bad input
//! fails fast and is distinguished from a model failure.
use vstd::prelude::*;
use vstd::string::StringExecFns;
use crate::error::{TranscriptionError, TranscriptionErrorView};
use crate::text::{chars_eq_str, chars_of_str, lower_chars, spec_lower_seq, string_from_chars};
use crate::types::{config_error_message, config_view, valid_config, ModelConfig};

verus! {

/// A transcriber bound to one configuration. Construction validates the
/// configuration; the external engine itself is run by the caller, which
/// reads this binding's configuration through `config`.
pub struct FasterWhisperTranscriber {
    config: ModelConfig,
}

impl FasterWhisperTranscriber {
    /// Binds a transcriber to the configuration; fails exactly when the
    /// configuration is invalid, naming its first invalid field.
    pub fn new(config: ModelConfig) -> (r: Result<FasterWhisperTranscriber, TranscriptionError>)
        ensures
            r is Ok <==> valid_config(config@),
            r is Ok ==> r->Ok_0.config_spec() == config@,
            r is Err ==> r->Err_0@ == TranscriptionErrorView::InvalidConfiguration(
                config_error_message(config@),
            ),
    {
        match config.validate() {
            Ok(()) => Ok(FasterWhisperTranscriber { config }),
            Err(m) => Err(TranscriptionError::InvalidConfiguration(m)),
        }
    }

    /// Binds a transcriber to the configuration built from the three names.
    pub fn from_params(model_size: &str, device: &str, compute_type: &str) -> (r: Result<
        FasterWhisperTranscriber,
        TranscriptionError,
    >)
        ensures
            r is Ok <==> valid_config(config_view(model_size@, device@, compute_type@)),
            r is Ok ==> r->Ok_0.config_spec() == config_view(model_size@, device@, compute_type@),
            r is Err ==> r->Err_0@ == TranscriptionErrorView::InvalidConfiguration(
                config_error_message(config_view(model_size@, device@, compute_type@)),
            ),
    {
        let config = ModelConfig::new(model_size, device, compute_type);
        FasterWhisperTranscriber::new(config)
    }

    /// The configuration this transcriber is bound to.
    pub fn config(&self) -> (r: &ModelConfig)
        ensures
            r@ == self.config_spec(),
    {
        &self.config
    }

    /// The view of the bound configuration.
    pub closed spec fn config_spec(&self) -> crate::types::ModelConfigView {
        self.config@
    }
}

/// The position of the last occurrence of `c` in `s` at or below position
/// `i`, or -1 when there is none.
pub open spec fn find_last(s: Seq<char>, c: char, i: int) -> int
    decreases i + 1,
{
    if i < 0 || i >= s.len() {
        -1
    } else if s[i] == c {
        i
    } else {
        find_last(s, c, i - 1)
    }
}

/// The file name of a path: everything after the last `/`, or the whole
/// path when it has none.
pub open spec fn file_name_of(p: Seq<char>) -> Seq<char> {
    p.subrange(find_last(p, '/', p.len() - 1) + 1, p.len() as int)
}

/// The extension of a path: what follows the last `.` of its file name,
/// provided that dot is preceded by at least one character (so a leading-dot
/// name carries no extension). A file name without a dot has no extension.
pub open spec fn extension_of(p: Seq<char>) -> Option<Seq<char>> {
    let name = file_name_of(p);
    let dot = find_last(name, '.', name.len() - 1);
    if dot <= 0 {
        None
    } else {
        Some(name.subrange(dot + 1, name.len() as int))
    }
}

/// Whether an extension, compared ASCII-case-insensitively, is one of the
/// recognized audio or container formats.
pub open spec fn supported_extension(e: Seq<char>) -> bool {
    let l = spec_lower_seq(e);
    ||| l == "wav"@
    ||| l == "mp3"@
    ||| l == "flac"@
    ||| l == "m4a"@
    ||| l == "ogg"@
    ||| l == "mp4"@
    ||| l == "webm"@
}

/// Finds the position of the last occurrence of a character in a vector.
fn find_last_index(v: &Vec<char>, c: char) -> (r: Option<usize>)
    ensures
        match r {
            Some(k) => (k as int) < v@.len() && find_last(v@, c, v@.len() - 1) == k as int,
            None => find_last(v@, c, v@.len() - 1) == -1,
        },
{
    let mut j: usize = v.len();
    while j > 0
        invariant
            j <= v@.len(),
            find_last(v@, c, v@.len() - 1) == find_last(v@, c, j as int - 1),
        decreases j,
    {
        if v[j - 1] == c {
            return Some(j - 1);
        }
        j = j - 1;
    }
    None
}

/// Checks an audio path before the external engine is invoked: the caller
/// reports whether the file exists, and the path must carry one of the
/// recognized extensions, matched ASCII-case-insensitively. A missing file
/// is an invalid path; a missing or unrecognized extension is an unsupported
/// format, reported in lowercase.
pub fn validate_audio_path(path: &str, path_exists: bool) -> (r: Result<(), TranscriptionError>)
    ensures
        r is Ok <==> (path_exists && extension_of(path@) is Some && supported_extension(
            extension_of(path@)->Some_0,
        )),
        !path_exists ==> r is Err && r->Err_0@ == TranscriptionErrorView::InvalidPath(
            "File does not exist: "@ + path@,
        ),
        path_exists && extension_of(path@) is None ==> r is Err && r->Err_0@
            == TranscriptionErrorView::UnsupportedFormat("no extension"@),
        path_exists && extension_of(path@) is Some && !supported_extension(
            extension_of(path@)->Some_0,
        ) ==> r is Err && r->Err_0@ == TranscriptionErrorView::UnsupportedFormat(
            spec_lower_seq(extension_of(path@)->Some_0),
        ),
{
    if !path_exists {
        let mut m = String::from_str("File does not exist: ");
        m.append(path);
        return Err(TranscriptionError::InvalidPath(m));
    }
    let cs = chars_of_str(path);
    let total = cs.len();
    let name_start: usize = match find_last_index(&cs, '/') {
        Some(k) => k + 1,
        None => 0,
    };
    let mut name: Vec<char> = Vec::new();
    let mut i: usize = name_start;
    while i < total
        invariant
            name_start <= i <= cs@.len(),
            total == cs@.len(),
            name@ == cs@.subrange(name_start as int, i as int),
        decreases cs@.len() - i,
    {
        name.push(cs[i]);
        assert(cs@.subrange(name_start as int, i as int).push(cs@[i as int]) =~= cs@.subrange(
            name_start as int,
            i + 1 as int,
        ));
        i = i + 1;
    }
    proof {
        assert(name@ =~= file_name_of(path@));
    }
    let dot: usize = match find_last_index(&name, '.') {
        Some(k) => k,
        None => {
            return Err(TranscriptionError::UnsupportedFormat(String::from_str("no extension")));
        },
    };
    if dot == 0 {
        return Err(TranscriptionError::UnsupportedFormat(String::from_str("no extension")));
    }
    let mut ext: Vec<char> = Vec::new();
    let mut k: usize = dot + 1;
    while k < name.len()
        invariant
            dot + 1 <= k <= name@.len(),
            ext@ == name@.subrange(dot + 1 as int, k as int),
        decreases name@.len() - k,
    {
        ext.push(name[k]);
        assert(name@.subrange(dot + 1 as int, k as int).push(name@[k as int]) =~= name@.subrange(
            dot + 1 as int,
            k + 1 as int,
        ));
        k = k + 1;
    }
    proof {
        assert(ext@ =~= extension_of(path@)->Some_0);
    }
    let lowered = lower_chars(&ext);
    let ok = chars_eq_str(&lowered, "wav") || chars_eq_str(&lowered, "mp3") || chars_eq_str(
        &lowered,
        "flac",
    ) || chars_eq_str(&lowered, "m4a") || chars_eq_str(&lowered, "ogg") || chars_eq_str(
        &lowered,
        "mp4",
    ) || chars_eq_str(&lowered, "webm");
    if ok {
        Ok(())
    } else {
        Err(TranscriptionError::UnsupportedFormat(string_from_chars(&lowered)))
    }
}

} // verus!
