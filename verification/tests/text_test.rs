use vibagent::json::{Json, JsonNumber};
use vibagent::retry::{RetryDecision, RetryPolicy};
use vibagent::stream::chunk_payloads;
use vibagent::text::{lines_of, push_decimal};
use vibagent::tools::search::WebSearchTool;
use vibagent::tools::command::RunCommand;

#[test]
fn lines_follow_str_lines() {
    assert_eq!(lines_of("a\r\nb\n\nc"), vec!["a", "b", "", "c"]);
    assert_eq!(lines_of("x\n"), vec!["x"]);
    assert_eq!(lines_of("x\r"), vec!["x\r"]);
    assert!(lines_of("").is_empty());
}

#[test]
fn decimal_numerals() {
    let mut s = String::from("n=");
    push_decimal(&mut s, 0);
    push_decimal(&mut s, 1907);
    assert_eq!(s, "n=01907");
}

#[test]
fn url_encoding_keeps_unreserved() {
    let base = "https://api.search.brave.com/res/v1/web/search?q=";
    assert_eq!(WebSearchTool.url("AZaz09-._~"), format!("{}AZaz09-._~", base));
    assert_eq!(WebSearchTool.url("a b"), format!("{}a%20b", base));
}

#[test]
fn lossy_decoding() {
    assert_eq!(RunCommand.report(true, "héllo".as_bytes(), b""), "Output:\nhéllo");
    assert_eq!(RunCommand.report(true, &[0xff], b""), "Output:\n\u{FFFD}");
    assert_eq!(vibagent::stream::chunk_payloads(&[b'd', b'a', b't', b'a', b':', b' ', 0xff]), vec!["\u{FFFD}".to_string()]);
}

#[test]
fn chunk_payloads_stop_at_done() {
    let chunk = b"data: {\"a\":1}\n\n: keepalive\ndata: [DONE]\ndata: later\n";
    assert_eq!(chunk_payloads(chunk), vec!["{\"a\":1}".to_string()]);
    assert_eq!(chunk_payloads(b"data: x\r\ndata:y\n"), vec!["x".to_string()]);
}

#[test]
fn retry_waits_one_two_four_then_gives_up() {
    let mut p = RetryPolicy::new();
    let mut waits = Vec::new();
    loop {
        match p.after_failure() {
            RetryDecision::Wait(s) => waits.push(s),
            RetryDecision::GiveUp => break,
        }
    }
    assert_eq!(waits, vec![1, 2, 4]);
}

#[test]
fn json_lookup_takes_last_entry() {
    let j = Json::Object(vec![
        ("k".to_string(), Json::Str("first".to_string())),
        ("k".to_string(), Json::Str("second".to_string())),
        ("n".to_string(), Json::Number(JsonNumber { text: "7".to_string(), as_u64: Some(7) })),
    ]);
    assert_eq!(j.get("k").and_then(|v| v.as_str()), Some("second"));
    assert_eq!(j.get("n").and_then(|v| v.as_u64()), Some(7));
    assert!(j.get("missing").is_none());
    assert_eq!(j.duplicate(), j);
}
