//! Speech in and out: the speech-to-text backends, reading what a
//! recognizer command printed, the local fallback recognizer's
//! configuration, and how spoken answers are routed.
use vstd::prelude::*;
use vstd::string::*;

use crate::session::split_on;
use crate::text::{append_str, chars_of, lemma_trimmed_bounds, string_from_range, trim, trim_range};

verus! {

/// A recognized utterance.
#[derive(Debug, Clone)]
pub struct Transcript {
    pub text: String,
    /// Confidence in thousandths (900 stands for 0.9).
    pub confidence_permille: u32,
    pub backend: String,
}

pub ghost struct TranscriptView {
    pub text: Seq<char>,
    pub confidence_permille: u32,
    pub backend: Seq<char>,
}

impl View for Transcript {
    type V = TranscriptView;

    open spec fn view(&self) -> TranscriptView {
        TranscriptView {
            text: self.text@,
            confidence_permille: self.confidence_permille,
            backend: self.backend@,
        }
    }
}

/// A recognizer: push-to-talk transcription, failing with a message.
pub trait SpeechBackend {
    fn transcribe_push_to_talk(&self, audio_hint: Option<&str>) -> Result<Transcript, String>;
}

/// A recognizer that always hears the same words.
pub struct MockAppleSpeech;

impl SpeechBackend for MockAppleSpeech {
    fn transcribe_push_to_talk(&self, audio_hint: Option<&str>) -> (r: Result<Transcript, String>)
        ensures
            r matches Ok(t) && t@ == (TranscriptView {
                text: "mock transcript"@,
                confidence_permille: 900,
                backend: "apple_speech_mock"@,
            }),
    {
        Ok(
            Transcript {
                text: String::from_str("mock transcript"),
                confidence_permille: 900,
                backend: String::from_str("apple_speech_mock"),
            },
        )
    }
}

/// The recognizer used when no speech sidecar is attached: it always fails.
pub struct AppleSpeechUnavailable;

pub open spec fn sidecar_missing_text() -> Seq<char> {
    "speech sidecar is not attached; use mock or integrate SpeechDetector/SpeechAnalyzer/SpeechTranscriber"@
}

impl SpeechBackend for AppleSpeechUnavailable {
    fn transcribe_push_to_talk(&self, audio_hint: Option<&str>) -> (r: Result<Transcript, String>)
        ensures
            r matches Err(m) && m@ == sidecar_missing_text(),
    {
        Err(
            String::from_str(
                "speech sidecar is not attached; use mock or integrate SpeechDetector/SpeechAnalyzer/SpeechTranscriber",
            ),
        )
    }
}

/// The text of `s` without leading and trailing white space.
pub fn trim_string(s: &str) -> (r: String)
    ensures
        r@ == trim(s@),
{
    let v = chars_of(s);
    let (a, b) = trim_range(&v, 0, v.len());
    proof {
        lemma_trimmed_bounds(v@, 0, v@.len() as int, a as int, b as int);
        assert(v@.subrange(0, v@.len() as int) =~= v@);
    }
    string_from_range(&v, a, b)
}

/// A recognizer that runs a shell command and reads what it prints.
#[derive(Debug, Clone)]
pub struct CommandAppleSpeech {
    command: String,
}

/// Why no command recognizer is configured.
#[derive(Debug, Clone, Copy, PartialEq, Eq, Structural)]
pub enum CommandConfigError {
    NotSet,
    Empty,
}

impl CommandConfigError {
    pub fn code(&self) -> (m: &'static str)
        ensures
            m@ == (match self {
                CommandConfigError::NotSet => "MIXCT_APPLE_STT_CMD_not_set"@,
                CommandConfigError::Empty => "MIXCT_APPLE_STT_CMD_empty"@,
            }),
    {
        match self {
            CommandConfigError::NotSet => "MIXCT_APPLE_STT_CMD_not_set",
            CommandConfigError::Empty => "MIXCT_APPLE_STT_CMD_empty",
        }
    }
}

impl CommandAppleSpeech {
    pub closed spec fn command_view(&self) -> Seq<char> {
        self.command@
    }

    /// The recognizer configured by the value of its environment variable:
    /// the value trimmed, which must not be empty.
    pub fn from_env_value(value: Option<&str>) -> (r: Result<CommandAppleSpeech, CommandConfigError>)
        ensures
            (match value {
                None => r == Err::<CommandAppleSpeech, CommandConfigError>(CommandConfigError::NotSet),
                Some(v) => if trim(v@).len() == 0 {
                    r == Err::<CommandAppleSpeech, CommandConfigError>(CommandConfigError::Empty)
                } else {
                    r matches Ok(c) && c.command_view() == trim(v@)
                },
            }),
    {
        match value {
            None => Err(CommandConfigError::NotSet),
            Some(v) => {
                let command = trim_string(v);
                if command.unicode_len() == 0 {
                    Err(CommandConfigError::Empty)
                } else {
                    Ok(CommandAppleSpeech { command })
                }
            },
        }
    }

    /// The shell command that is run.
    pub fn command(&self) -> (s: &str)
        ensures
            s@ == self.command_view(),
    {
        self.command.as_str()
    }
}

// ---------------------------------------------------------------------------
// What a recognizer command printed.
/// The fields of a JSON object a recognizer printed (the confidence already
/// clamped to 0..1 and given in thousandths).
#[derive(Debug, Clone)]
pub struct JsonTranscript {
    pub text: String,
    pub confidence_permille: Option<u32>,
    pub backend: Option<String>,
}

/// Why a recognizer's output holds no transcript.
#[derive(Debug, Clone, Copy, PartialEq, Eq, Structural)]
pub enum OutputIssue {
    /// It printed a JSON object whose text is blank.
    JsonTextEmpty,
    /// It printed only blank lines.
    PlaintextEmpty,
}

/// The first line of `pieces` that is not blank, trimmed.
pub open spec fn first_nonblank(pieces: Seq<Seq<char>>) -> Option<Seq<char>>
    decreases pieces.len(),
{
    if pieces.len() == 0 {
        None
    } else if trim(pieces[0]).len() > 0 {
        Some(trim(pieces[0]))
    } else {
        first_nonblank(pieces.drop_first())
    }
}

/// The transcript a recognizer's output gives: a JSON object (when the
/// output starts with `{` and parsed as one) gives its trimmed text, its
/// confidence or `json_default` and its backend or `backend`; otherwise the
/// first non-blank line, trimmed, with confidence `plain`.
pub open spec fn spec_transcript(
    raw: Seq<char>,
    json: Option<(Seq<char>, Option<u32>, Option<Seq<char>>)>,
    backend: Seq<char>,
    json_default: u32,
    plain: u32,
) -> Result<TranscriptView, OutputIssue> {
    if raw.len() > 0 && raw[0] == '{' && json is Some {
        let (text, conf, b) = json->Some_0;
        if trim(text).len() == 0 {
            Err(OutputIssue::JsonTextEmpty)
        } else {
            Ok(
                TranscriptView {
                    text: trim(text),
                    confidence_permille: match conf {
                        Some(c) => c,
                        None => json_default,
                    },
                    backend: match b {
                        Some(x) => x,
                        None => backend,
                    },
                },
            )
        }
    } else {
        match first_nonblank(split_on(raw, '\n')) {
            Some(t) => Ok(TranscriptView { text: t, confidence_permille: plain, backend }),
            None => Err(OutputIssue::PlaintextEmpty),
        }
    }
}

pub open spec fn json_view(j: Option<JsonTranscript>) -> Option<(Seq<char>, Option<u32>, Option<Seq<char>>)> {
    match j {
        Some(x) => Some(
            (
                x.text@,
                x.confidence_permille,
                match x.backend {
                    Some(b) => Some(b@),
                    None => None,
                },
            ),
        ),
        None => None,
    }
}

pub open spec fn transcript_result_view(r: Result<Transcript, OutputIssue>) -> Result<
    TranscriptView,
    OutputIssue,
> {
    match r {
        Ok(t) => Ok(t@),
        Err(e) => Err(e),
    }
}

fn first_nonblank_line(raw: &str) -> (r: Option<String>)
    ensures
        (match r {
            Some(t) => first_nonblank(split_on(raw@, '\n')) == Some(t@),
            None => first_nonblank(split_on(raw@, '\n')) is None,
        }),
{
    let v = chars_of(raw);
    let bounds = crate::session::split_bounds(&v, '\n');
    let ghost pieces = split_on(v@, '\n');
    let mut k: usize = 0;
    assert(pieces.subrange(0, pieces.len() as int) =~= pieces);
    while k < bounds.len()
        invariant
            k <= bounds.len(),
            v@ == raw@,
            pieces == split_on(v@, '\n'),
            crate::session::pieces_of(v@, bounds@) == pieces,
            forall|j: int|
                #![trigger bounds@[j]]
                0 <= j < bounds@.len() ==> bounds@[j].0 <= bounds@[j].1 && bounds@[j].1
                    <= v@.len(),
            first_nonblank(pieces) == first_nonblank(
                pieces.subrange(k as int, pieces.len() as int),
            ),
        decreases bounds.len() - k,
    {
        let (s, e) = bounds[k];
        assert(bounds@[k as int].0 <= bounds@[k as int].1 <= v@.len());
        let (a, b) = trim_range(&v, s, e);
        proof {
            lemma_trimmed_bounds(v@, s as int, e as int, a as int, b as int);
            let rest = pieces.subrange(k as int, pieces.len() as int);
            assert(rest[0] == pieces[k as int]);
            assert(pieces[k as int] == v@.subrange(s as int, e as int));
            assert(rest.drop_first() =~= pieces.subrange(k + 1, pieces.len() as int));
        }
        if a < b {
            return Some(string_from_range(&v, a, b));
        }
        k += 1;
    }
    None
}

/// Reads a transcript from what a recognizer printed.
pub fn transcript_from_output(
    raw: &str,
    json: &Option<JsonTranscript>,
    backend: &str,
    json_default_permille: u32,
    plain_permille: u32,
) -> (r: Result<Transcript, OutputIssue>)
    ensures
        transcript_result_view(r) == spec_transcript(
            raw@,
            json_view(*json),
            backend@,
            json_default_permille,
            plain_permille,
        ),
{
    let starts_brace = raw.unicode_len() > 0 && raw.get_char(0) == '{';
    if starts_brace {
        match json {
            Some(j) => {
                let text = trim_string(j.text.as_str());
                if text.unicode_len() == 0 {
                    return Err(OutputIssue::JsonTextEmpty);
                }
                let confidence_permille = match j.confidence_permille {
                    Some(c) => c,
                    None => json_default_permille,
                };
                let b = match &j.backend {
                    Some(x) => x.clone(),
                    None => String::from_str(backend),
                };
                return Ok(Transcript { text, confidence_permille, backend: b });
            },
            None => {},
        }
    }
    match first_nonblank_line(raw) {
        Some(t) => Ok(
            Transcript {
                text: t,
                confidence_permille: plain_permille,
                backend: String::from_str(backend),
            },
        ),
        None => Err(OutputIssue::PlaintextEmpty),
    }
}

/// What a finished recognizer command yields: the trimmed standard output,
/// or why there is none. `prefix` names the command's environment variable.
pub open spec fn spec_command_output(
    prefix: Seq<char>,
    status_ok: bool,
    status_text: Seq<char>,
    stdout: Seq<char>,
    stderr: Seq<char>,
) -> Result<Seq<char>, Seq<char>> {
    if !status_ok {
        Err(prefix + "_failed status="@ + status_text + " stderr="@ + trim(stderr))
    } else if trim(stdout).len() == 0 {
        Err(prefix + "_empty_output"@)
    } else {
        Ok(trim(stdout))
    }
}

pub open spec fn string_result_view(r: Result<String, String>) -> Result<Seq<char>, Seq<char>> {
    match r {
        Ok(s) => Ok(s@),
        Err(e) => Err(e@),
    }
}

/// Checks how a recognizer command finished and keeps its trimmed output.
pub fn command_output_text(
    prefix: &str,
    status_ok: bool,
    status_text: &str,
    stdout: &str,
    stderr: &str,
) -> (r: Result<String, String>)
    ensures
        string_result_view(r) == spec_command_output(
            prefix@,
            status_ok,
            status_text@,
            stdout@,
            stderr@,
        ),
{
    if !status_ok {
        let mut m = String::from_str(prefix);
        append_str(&mut m, "_failed status=");
        append_str(&mut m, status_text);
        append_str(&mut m, " stderr=");
        let e = trim_string(stderr);
        append_str(&mut m, e.as_str());
        return Err(m);
    }
    let out = trim_string(stdout);
    if out.unicode_len() == 0 {
        let mut m = String::from_str(prefix);
        append_str(&mut m, "_empty_output");
        return Err(m);
    }
    Ok(out)
}

impl CommandAppleSpeech {
    /// The transcript from the command's trimmed output: 0.80 confidence for
    /// JSON without one, 0.78 for plain text, backend `apple_speech_cmd`.
    pub fn transcript_from(&self, text: &str, json: &Option<JsonTranscript>) -> (r: Result<
        Transcript,
        String,
    >)
        ensures
            (match spec_transcript(text@, json_view(*json), "apple_speech_cmd"@, 800, 780) {
                Ok(t) => r matches Ok(x) && x@ == t,
                Err(OutputIssue::JsonTextEmpty) => r matches Err(m) && m@
                    == "speech_output_text_empty"@,
                Err(OutputIssue::PlaintextEmpty) => r matches Err(m) && m@
                    == "speech_plaintext_output_empty"@,
            }),
    {
        match transcript_from_output(text, json, "apple_speech_cmd", 800, 780) {
            Ok(t) => Ok(t),
            Err(OutputIssue::JsonTextEmpty) => Err(String::from_str("speech_output_text_empty")),
            Err(OutputIssue::PlaintextEmpty) => Err(
                String::from_str("speech_plaintext_output_empty"),
            ),
        }
    }
}

// ---------------------------------------------------------------------------
// The local fallback recognizer.
/// How the local fallback recognizer is set up.
#[derive(Debug, Clone)]
pub struct FallbackConfig {
    pub enabled: bool,
    pub feature_flag: String,
    pub engine: String,
    pub command: Option<String>,
}

/// Why the fallback recognizer cannot run.
#[derive(Debug, Clone, Copy, PartialEq, Eq, Structural)]
pub enum FallbackError {
    Disabled,
    UnsupportedEngine,
    CommandNotConfigured,
}

impl FallbackError {
    pub fn code(&self) -> (m: &'static str)
        ensures
            m@ == (match self {
                FallbackError::Disabled => "fallback_disabled"@,
                FallbackError::UnsupportedEngine => "unsupported_fallback_engine"@,
                FallbackError::CommandNotConfigured => "local_fallback_command_not_configured"@,
            }),
    {
        match self {
            FallbackError::Disabled => "fallback_disabled",
            FallbackError::UnsupportedEngine => "unsupported_fallback_engine",
            FallbackError::CommandNotConfigured => "local_fallback_command_not_configured",
        }
    }
}

/// The command the fallback recognizer runs: it must be enabled and use the
/// local engine; the configured command (trimmed, if not blank) wins over the
/// environment's.
pub open spec fn spec_fallback_command(
    enabled: bool,
    engine: Seq<char>,
    command: Option<Seq<char>>,
    env_command: Option<Seq<char>>,
) -> Result<Seq<char>, FallbackError> {
    if !enabled {
        Err(FallbackError::Disabled)
    } else if engine != "mlx_whisper_local_only"@ {
        Err(FallbackError::UnsupportedEngine)
    } else if command is Some && trim(command->Some_0).len() > 0 {
        Ok(trim(command->Some_0))
    } else {
        match env_command {
            Some(c) => Ok(c),
            None => Err(FallbackError::CommandNotConfigured),
        }
    }
}

pub fn fallback_command(config: &FallbackConfig, env_command: Option<&str>) -> (r: Result<
    String,
    FallbackError,
>)
    ensures
        (match spec_fallback_command(
            config.enabled,
            config.engine@,
            match config.command {
                Some(c) => Some(c@),
                None => None,
            },
            match env_command {
                Some(c) => Some(c@),
                None => None,
            },
        ) {
            Ok(c) => r matches Ok(x) && x@ == c,
            Err(e) => r == Err::<String, FallbackError>(e),
        }),
{
    if !config.enabled {
        return Err(FallbackError::Disabled);
    }
    if config.engine != String::from_str("mlx_whisper_local_only") {
        return Err(FallbackError::UnsupportedEngine);
    }
    match &config.command {
        Some(c) => {
            let t = trim_string(c.as_str());
            if t.unicode_len() > 0 {
                return Ok(t);
            }
        },
        None => {},
    }
    match env_command {
        Some(c) => Ok(String::from_str(c)),
        None => Err(FallbackError::CommandNotConfigured),
    }
}

/// The transcript from the fallback command's trimmed output: 0.75
/// confidence for JSON without one, 0.72 for plain text, backend
/// `mlx_whisper_local_only`.
pub fn fallback_transcript_from(text: &str, json: &Option<JsonTranscript>) -> (r: Result<
    Transcript,
    String,
>)
    ensures
        (match spec_transcript(text@, json_view(*json), "mlx_whisper_local_only"@, 750, 720) {
            Ok(t) => r matches Ok(x) && x@ == t,
            Err(OutputIssue::JsonTextEmpty) => r matches Err(m) && m@
                == "fallback_output_text_empty"@,
            Err(OutputIssue::PlaintextEmpty) => r matches Err(m) && m@
                == "fallback_plaintext_output_empty"@,
        }),
{
    match transcript_from_output(text, json, "mlx_whisper_local_only", 750, 720) {
        Ok(t) => Ok(t),
        Err(OutputIssue::JsonTextEmpty) => Err(String::from_str("fallback_output_text_empty")),
        Err(OutputIssue::PlaintextEmpty) => Err(String::from_str("fallback_plaintext_output_empty")),
    }
}

// ---------------------------------------------------------------------------
// Spoken answers.
/// Something that can speak a sentence, failing with a message.
pub trait TtsSpeaker {
    fn speak(&self, text: &str) -> Result<(), String>;
}

/// How the console speaker says a sentence.
#[derive(Debug, Clone, Copy, PartialEq, Eq, Structural)]
pub enum TtsRoute {
    /// Try the system voice, and print the sentence if it fails.
    SystemVoiceThenPrint,
    /// Only print the sentence.
    PrintOnly,
}

/// The speaker that uses the system voice where allowed and prints
/// otherwise.
pub struct ConsoleTts;

impl ConsoleTts {
    /// The route, given the value of the console-only switch: `1` keeps the
    /// speaker silent and printing.
    pub fn route(&self, console_only: Option<&str>) -> (r: TtsRoute)
        ensures
            r == (if console_only matches Some(v) && v@ == "1"@ {
                TtsRoute::PrintOnly
            } else {
                TtsRoute::SystemVoiceThenPrint
            }),
    {
        match console_only {
            Some(v) => if String::from_str(v) == String::from_str("1") {
                TtsRoute::PrintOnly
            } else {
                TtsRoute::SystemVoiceThenPrint
            },
            None => TtsRoute::SystemVoiceThenPrint,
        }
    }
}

} // verus!
