use whispr::assistant::{
    build_prompt, build_request, pick_api_key, reply_text, ApiKeyError, GeminiCandidate,
    GeminiContentResponse, GeminiPart, GeminiPartResponse, GeminiResponse, NO_RESPONSE,
    PROMPT_HEAD, PROMPT_TAIL, SILENT_PROMPT,
};
use whispr::ledger::{accept_log_result, LedgerError, SolanaLogResult};
use whispr::overlay::{said_markup, NOTHING_SAID};
use whispr::text::{
    append_segment, collapse_whitespace, html_escape, is_blank, is_whitespace_char, join_segments,
    trim_whitespace, truncate,
};

fn log_result(success: bool) -> SolanaLogResult {
    SolanaLogResult {
        success,
        signature: "sig".to_string(),
        explorer_url: "https://explorer.example/tx/sig".to_string(),
        memo: "memo".to_string(),
        hash: "h".to_string(),
        pubkey: "pk".to_string(),
    }
}

#[test]
fn html_escape_replaces_markup() {
    assert_eq!(html_escape("a<b>&\"c\"\nd"), "a&lt;b&gt;&amp;&quot;c&quot;<br>d");
    assert_eq!(html_escape("plain é"), "plain é");
    assert_eq!(html_escape(""), "");
}

#[test]
fn blank_means_whitespace_only() {
    assert!(is_blank(""));
    assert!(is_blank(" \t\n\u{3000}"));
    assert!(!is_blank("  x "));
    assert!(is_whitespace_char('\u{85}'));
    assert!(!is_whitespace_char('\u{200b}'));
}

#[test]
fn collapse_joins_words_with_single_spaces() {
    assert_eq!(collapse_whitespace("  hello \n\t world  "), "hello world");
    assert_eq!(collapse_whitespace("a"), "a");
    assert_eq!(collapse_whitespace(" \n "), "");
    assert_eq!(collapse_whitespace("x\u{a0}y  z"), "x y z");
}

#[test]
fn said_markup_escapes_or_notes_silence() {
    assert_eq!(said_markup("  \n"), NOTHING_SAID);
    assert_eq!(said_markup("1 < 2"), "1 &lt; 2");
}

#[test]
fn prompt_quotes_what_was_said() {
    assert_eq!(build_prompt(" "), SILENT_PROMPT);
    assert_eq!(build_prompt("what is this"), format!("{}what is this{}", PROMPT_HEAD, PROMPT_TAIL));
}

#[test]
fn request_holds_prompt_and_base64_screenshot() {
    let req = build_request("hi", b"hello");
    assert_eq!(req.contents.len(), 1);
    let parts = &req.contents[0].parts;
    assert_eq!(parts.len(), 2);
    match &parts[0] {
        GeminiPart::Text { text } => assert_eq!(text, &format!("{}hi{}", PROMPT_HEAD, PROMPT_TAIL)),
        _ => panic!("first part should be text"),
    }
    match &parts[1] {
        GeminiPart::InlineData { inline_data } => {
            assert_eq!(inline_data.mime_type, "image/png");
            assert_eq!(inline_data.data, "aGVsbG8=");
        }
        _ => panic!("second part should be inline data"),
    }
}

#[test]
fn reply_text_takes_first_part_or_default() {
    let empty = GeminiResponse { candidates: vec![] };
    assert_eq!(reply_text(&empty), NO_RESPONSE);
    let no_parts = GeminiResponse {
        candidates: vec![GeminiCandidate { content: GeminiContentResponse { parts: vec![] } }],
    };
    assert_eq!(reply_text(&no_parts), NO_RESPONSE);
    let full = GeminiResponse {
        candidates: vec![GeminiCandidate {
            content: GeminiContentResponse {
                parts: vec![
                    GeminiPartResponse { text: "first".to_string() },
                    GeminiPartResponse { text: "second".to_string() },
                ],
            },
        }],
    };
    assert_eq!(reply_text(&full), "first");
}

#[test]
fn api_key_prefers_command_line() {
    assert_eq!(pick_api_key(Some("a".to_string()), Some("b".to_string())), Ok("a".to_string()));
    assert_eq!(pick_api_key(None, Some("b".to_string())), Ok("b".to_string()));
    assert_eq!(pick_api_key(None, None), Err(ApiKeyError::Missing));
}

#[test]
fn ledger_accepts_only_success() {
    let ok = accept_log_result(log_result(true)).unwrap();
    assert_eq!(ok.signature, "sig");
    assert!(matches!(accept_log_result(log_result(false)), Err(LedgerError::TransactionFailed)));
}

#[test]
fn trim_strips_both_ends() {
    assert_eq!(trim_whitespace("  a b \n"), "a b");
    assert_eq!(trim_whitespace("\t\t"), "");
    assert_eq!(trim_whitespace("x"), "x");
    assert_eq!(trim_whitespace(""), "");
}

#[test]
fn transcript_joins_trimmed_segments() {
    let segs = vec![" Hello".to_string(), "   ".to_string(), "world. ".to_string()];
    assert_eq!(join_segments(&segs), "Hello world. ");
    assert_eq!(join_segments(&vec![]), "");
    let mut t = "a ".to_string();
    append_segment(&mut t, "\n");
    assert_eq!(t, "a ");
    append_segment(&mut t, " b ");
    assert_eq!(t, "a b ");
}

#[test]
fn truncate_marks_a_cut() {
    assert_eq!(truncate("short", 80), "short");
    assert_eq!(truncate("abcdef", 3), "abc...");
    assert_eq!(truncate("héllo", 2), "hé...");
}
