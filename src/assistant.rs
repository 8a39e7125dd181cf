//! The request sent to the vision/chat service and the reading of its
//! reply: prompt wording, the inline screenshot, and the API key choice.

use crate::text::{is_blank, is_blank_seq};
use base64::Engine;
use vstd::prelude::*;

verus! {

/// The prompt when nothing was said.
pub const SILENT_PROMPT: &'static str = "You are Whispr, a helpful AI assistant. The user didn't say anything, but here's what they're looking at. Provide a brief, helpful comment or insight about what you see on their screen (1-2 sentences). Be natural and friendly, like a smart colleague glancing over.";

/// The prompt text before what was said.
pub const PROMPT_HEAD: &'static str = "You are Whispr, a helpful AI assistant. The user said: \"";

/// The prompt text after what was said.
pub const PROMPT_TAIL: &'static str = "\"\n\nYou can see what's on their screen in the image. Respond naturally and briefly (1-2 sentences) as if you're a smart friend. Provide helpful insight, advice, or a relevant comment based on what they said AND what you see on the screen. Don't just describe the screen - they can already see it. Be conversational and helpful.";

/// The reply used when the service answered with no text.
pub const NO_RESPONSE: &'static str = "No response from Gemini";

/// The media type of the inline screenshot.
pub const SCREENSHOT_MIME: &'static str = "image/png";

/// Padded standard base64 of a byte sequence.
pub uninterp spec fn base64_of(b: Seq<u8>) -> Seq<char>;

/// Length of the padded base64 text of `n` bytes.
pub open spec fn base64_len(n: nat) -> nat {
    ((n + 2) / 3) * 4
}

/// Relies on `base64::engine::general_purpose::STANDARD.encode`: padded
/// standard base64, four characters per started group of three bytes. It
/// panics only when that length overflows `usize`.
#[verifier::external_body]
fn encode_base64(b: &[u8]) -> (r: String)
    requires
        base64_len(b@.len()) <= usize::MAX,
    ensures
        r@ == base64_of(b@),
        r@.len() == base64_len(b@.len()),
{
    base64::engine::general_purpose::STANDARD.encode(b)
}

/// Why no API key could be had.
#[derive(Clone, Copy, Debug, PartialEq, Eq, Structural)]
pub enum ApiKeyError {
    /// Neither the command line nor the environment gave a key.
    Missing,
}

/// Inline binary data of a request.
pub struct InlineData {
    pub mime_type: String,
    pub data: String,
}

/// One part of a request message.
pub enum GeminiPart {
    Text { text: String },
    InlineData { inline_data: InlineData },
}

/// One message of a request.
pub struct GeminiContent {
    pub parts: Vec<GeminiPart>,
}

/// A content-generation request.
pub struct GeminiRequest {
    pub contents: Vec<GeminiContent>,
}

/// One part of a reply message.
pub struct GeminiPartResponse {
    pub text: String,
}

/// The message of one reply candidate.
pub struct GeminiContentResponse {
    pub parts: Vec<GeminiPartResponse>,
}

/// One reply candidate.
pub struct GeminiCandidate {
    pub content: GeminiContentResponse,
}

/// A content-generation reply.
pub struct GeminiResponse {
    pub candidates: Vec<GeminiCandidate>,
}

/// The prompt for what the user said.
pub open spec fn prompt_for(asr: Seq<char>) -> Seq<char> {
    if is_blank_seq(asr) {
        SILENT_PROMPT@
    } else {
        PROMPT_HEAD@ + asr + PROMPT_TAIL@
    }
}

/// The reply text: the first part of the first candidate, if there is one.
pub open spec fn reply_of(resp: &GeminiResponse) -> Seq<char> {
    if resp.candidates@.len() > 0 && resp.candidates@[0].content.parts@.len() > 0 {
        resp.candidates@[0].content.parts@[0].text@
    } else {
        NO_RESPONSE@
    }
}

/// Words the prompt: a fixed prompt when nothing was said, else one that
/// quotes what was said.
pub fn build_prompt(asr: &str) -> (r: String)
    ensures
        r@ == prompt_for(asr@),
{
    if is_blank(asr) {
        String::from_str(SILENT_PROMPT)
    } else {
        let mut p = String::from_str(PROMPT_HEAD);
        p.append(asr);
        p.append(PROMPT_TAIL);
        p
    }
}

/// The request for what was said and a PNG screenshot: one message with
/// the prompt first and the screenshot, base64-encoded, second.
pub fn build_request(asr: &str, screenshot_png: &[u8]) -> (r: GeminiRequest)
    requires
        base64_len(screenshot_png@.len()) <= usize::MAX,
    ensures
        r.contents@.len() == 1,
        r.contents@[0].parts@.len() == 2,
        (r.contents@[0].parts@[0] matches GeminiPart::Text { text } && text@ == prompt_for(asr@)),
        (r.contents@[0].parts@[1] matches GeminiPart::InlineData { inline_data }
            && inline_data.mime_type@ == SCREENSHOT_MIME@ && inline_data.data@ == base64_of(
            screenshot_png@,
        )),
{
    let prompt = build_prompt(asr);
    let data = encode_base64(screenshot_png);
    let inline_data = InlineData { mime_type: String::from_str(SCREENSHOT_MIME), data };
    let mut parts: Vec<GeminiPart> = Vec::new();
    parts.push(GeminiPart::Text { text: prompt });
    parts.push(GeminiPart::InlineData { inline_data });
    let mut contents: Vec<GeminiContent> = Vec::new();
    contents.push(GeminiContent { parts });
    GeminiRequest { contents }
}

/// The text of a reply: its first candidate's first part, or
/// `NO_RESPONSE` where it has none.
pub fn reply_text(resp: &GeminiResponse) -> (r: String)
    ensures
        r@ == reply_of(resp),
{
    if resp.candidates.len() > 0 && resp.candidates[0].content.parts.len() > 0 {
        resp.candidates[0].content.parts[0].text.clone()
    } else {
        String::from_str(NO_RESPONSE)
    }
}

/// The API key: the one given on the command line, else the one from the
/// environment.
pub fn pick_api_key(cli_key: Option<String>, env_key: Option<String>) -> (r: Result<
    String,
    ApiKeyError,
>)
    ensures
        cli_key is Some ==> r == Ok::<String, ApiKeyError>(cli_key->0),
        cli_key is None && env_key is Some ==> r == Ok::<String, ApiKeyError>(env_key->0),
        cli_key is None && env_key is None ==> r == Err::<String, ApiKeyError>(ApiKeyError::Missing),
{
    match cli_key {
        Some(k) => Ok(k),
        None => match env_key {
            Some(k) => Ok(k),
            None => Err(ApiKeyError::Missing),
        },
    }
}

} // verus!
