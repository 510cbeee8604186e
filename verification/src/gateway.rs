//! Transcription gateway: credential resolution, request building and
//! response classification around the external speech-to-text call.
//!
//! The network send itself is I/O and lives in the unverified shell; it
//! hands back either an HTTP status with the response body, or a
//! transport failure message, and the functions here say exactly what
//! becomes of every such outcome.

use vstd::prelude::*;
use vstd::string::StringExecFns;

use crate::text::{decimal_digits, u64_to_string};

verus! {

/// Why a transcription attempt failed.  Single attempt, no retries: the
/// job is discarded after the error is reported.
#[derive(Debug)]
pub enum GatewayError {
    /// No credential in the environment override nor in the persisted
    /// configuration; raised before any network call.
    MissingCredential,
    /// The service answered with a non-success status.
    Http { status: u16, message: String },
    /// The request never produced an HTTP response.
    Transport { message: String },
}

/// The message a gateway error carries into records and UI events.
pub open spec fn describe_spec(e: GatewayError) -> Seq<char> {
    match e {
        GatewayError::MissingCredential => "Groq API key not configured"@,
        GatewayError::Http { status, message } => "HTTP error "@ + decimal_digits(status as int)
            + ": "@ + message@,
        GatewayError::Transport { message } => "Network error: "@ + message@,
    }
}

impl GatewayError {
    /// Render the error for records and UI events.
    pub fn describe(&self) -> (r: String)
        ensures
            r@ == describe_spec(*self),
    {
        match self {
            GatewayError::MissingCredential => String::from_str("Groq API key not configured"),
            GatewayError::Http { status, message } => {
                let mut s = String::from_str("HTTP error ");
                let digits = u64_to_string(*status as u64);
                s.append(digits.as_str());
                s.append(": ");
                s.append(message.as_str());
                s
            }
            GatewayError::Transport { message } => {
                let mut s = String::from_str("Network error: ");
                s.append(message.as_str());
                s
            }
        }
    }
}

/// One transcription request: the encoded container plus the fixed
/// parameters of the multipart form the shell posts to the service.
pub struct TranscriptionRequest {
    /// The encoded audio container.
    pub payload: Vec<u8>,
    /// File name field of the audio part.
    pub file_name: String,
    /// Model identifier.
    pub model: String,
    /// Response format: plain text.
    pub response_format: String,
    /// Pinned target language.
    pub language: String,
    /// Deterministic decoding preference.
    pub temperature: String,
    /// Style guidance for punctuation and filler-word handling; a quality
    /// knob, not a correctness requirement.
    pub prompt: String,
    /// Bearer credential.
    pub bearer: String,
}

/// The style-guidance prompt sent with every request.
pub open spec fn style_prompt() -> Seq<char> {
    "Transcribe this speech with correct spelling, grammar, punctuation, and capitalization. Smooth out speech flow by removing filler words (e.g., 'um', 'uh', 'like'), applying natural corrections (e.g., 'wait, I meant'), and fixing verbal errors. Capitalize proper nouns and sentence beginnings. Write numbers and dates in standard written form when appropriate."@
}

/// Resolve the API credential: the environment override wins, then the
/// persisted configuration; with neither, the distinct missing-credential
/// error is raised before any network call could happen.
pub fn resolve_credential(env_key: Option<String>, config_key: Option<String>) -> (r: Result<
    String,
    GatewayError,
>)
    ensures
        env_key is Some ==> r == Ok::<String, GatewayError>(env_key->0),
        (env_key is None && config_key is Some) ==> r == Ok::<String, GatewayError>(
            config_key->0,
        ),
        (env_key is None && config_key is None) ==> (r matches Err(
            GatewayError::MissingCredential,
        )),
        (r is Ok) <==> (env_key is Some || config_key is Some),
{
    match env_key {
        Some(k) => Ok(k),
        None => match config_key {
            Some(k) => Ok(k),
            None => Err(GatewayError::MissingCredential),
        },
    }
}

/// Build the single-shot request: the payload under the fixed form
/// fields, language pinned, plain-text response, deterministic decoding,
/// and the style prompt.
pub fn build_request(payload: Vec<u8>, bearer: String) -> (r: TranscriptionRequest)
    ensures
        r.payload == payload,
        r.bearer == bearer,
        r.file_name@ == "audio.wav"@,
        r.model@ == "distil-whisper-large-v3-en"@,
        r.response_format@ == "text"@,
        r.language@ == "en"@,
        r.temperature@ == "0.0"@,
        r.prompt@ == style_prompt(),
{
    TranscriptionRequest {
        payload,
        file_name: String::from_str("audio.wav"),
        model: String::from_str("distil-whisper-large-v3-en"),
        response_format: String::from_str("text"),
        language: String::from_str("en"),
        temperature: String::from_str("0.0"),
        prompt: String::from_str(
            "Transcribe this speech with correct spelling, grammar, punctuation, and capitalization. Smooth out speech flow by removing filler words (e.g., 'um', 'uh', 'like'), applying natural corrections (e.g., 'wait, I meant'), and fixing verbal errors. Capitalize proper nouns and sentence beginnings. Write numbers and dates in standard written form when appropriate.",
        ),
        bearer,
    }
}

/// Resolve the credential and build the request in one step: the
/// verified half of the transcription call.  Fails if and only if no
/// credential is configured, and then before any audio leaves the
/// machine.
pub fn prepare_transcription(payload: Vec<u8>, env_key: Option<String>, config_key: Option<
    String,
>) -> (r: Result<TranscriptionRequest, GatewayError>)
    ensures
        (r is Ok) <==> (env_key is Some || config_key is Some),
        (r is Err) ==> (r matches Err(GatewayError::MissingCredential)),
        r is Ok ==> ({
            let req = r->Ok_0;
            &&& req.payload == payload
            &&& (env_key is Some ==> req.bearer == env_key->0)
            &&& (env_key is None ==> req.bearer == config_key->0)
            &&& req.model@ == "distil-whisper-large-v3-en"@
            &&& req.response_format@ == "text"@
            &&& req.language@ == "en"@
            &&& req.temperature@ == "0.0"@
            &&& req.file_name@ == "audio.wav"@
            &&& req.prompt@ == style_prompt()
        }),
{
    match resolve_credential(env_key, config_key) {
        Ok(key) => Ok(build_request(payload, key)),
        Err(e) => Err(e),
    }
}

/// Classify the HTTP outcome the shell hands back: a success status
/// returns the body as the transcript, any other status is the HTTP
/// error carrying that status and body.
pub fn classify_response(status: u16, body: String) -> (r: Result<String, GatewayError>)
    ensures
        (200 <= status < 300) ==> r == Ok::<String, GatewayError>(body),
        !(200 <= status < 300) ==> (r matches Err(GatewayError::Http { status: s, message: m })
            && s == status && m == body),
{
    if 200 <= status && status < 300 {
        Ok(body)
    } else {
        Err(GatewayError::Http { status, message: body })
    }
}

} // verus!
