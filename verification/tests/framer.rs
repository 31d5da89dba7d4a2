use atcmd::framer::{AtErr, LineParser};

#[test]
fn no_terminator_keeps_bytes_pending() {
    let mut p = LineParser::new();
    assert!(p.put_bytes(b"AT+CSQ").is_ok());
    assert_eq!(p.lines.len(), 0);
    assert!(!p.has_ok());
    assert!(!p.has_error());
    let lines = p.final_lines().unwrap();
    assert_eq!(lines, vec!["AT+CSQ".to_string()]);
}

#[test]
fn line_feed_completes_one_line_across_calls() {
    let mut p = LineParser::new();
    assert!(p.put_bytes(b"hel").is_ok());
    assert!(p.put_bytes(b"lo").is_ok());
    assert_eq!(p.lines.len(), 0);
    assert!(p.put_bytes(b"\n").is_ok());
    assert_eq!(p.lines, vec!["hello".to_string()]);
    assert_eq!(p.line_acc.len(), 0);
    let lines = p.final_lines().unwrap();
    assert_eq!(lines, vec!["hello".to_string()]);
}

#[test]
fn carriage_returns_never_appear() {
    let mut p = LineParser::new();
    assert!(p.put_bytes(b"\ra\rb\r\nc\rd\r\n").is_ok());
    let lines = p.final_lines().unwrap();
    assert_eq!(lines, vec!["ab".to_string(), "cd".to_string()]);
}

#[test]
fn flags_stay_set_after_later_lines() {
    let mut p = LineParser::new();
    assert!(p.put_bytes(b"OK\r\n").is_ok());
    assert!(p.has_ok());
    assert!(p.put_bytes(b"neither keyword\r\nmore noise\r\n").is_ok());
    assert!(p.has_ok());
    assert!(!p.has_error());
}

#[test]
fn keyword_must_fill_the_whole_line() {
    let mut p = LineParser::new();
    assert!(p.put_bytes(b"OK, thanks\r\n").is_ok());
    assert!(!p.has_ok());
    assert!(p.put_bytes(b"ERRORS\r\n").is_ok());
    assert!(!p.has_error());
}

#[test]
fn keyword_any_case_with_surrounding_whitespace() {
    let mut p = LineParser::new();
    assert!(p.put_bytes(b"  ok  \r\n").is_ok());
    assert!(p.has_ok());

    let mut q = LineParser::new();
    assert!(q.put_bytes(b"Ok\r\n").is_ok());
    assert!(q.has_ok());

    let mut r = LineParser::new();
    assert!(r.put_bytes(b"\terror\t\r\n").is_ok());
    assert!(r.has_error());

    let mut s = LineParser::new();
    assert!(s.put_bytes(b"ERROR\r\n").is_ok());
    assert!(s.has_error());
    assert!(!s.has_ok());
}

#[test]
fn finalize_flushes_nonempty_pending_only() {
    let mut p = LineParser::new();
    assert!(p.put_bytes(b"a\r\ntail").is_ok());
    let lines = p.final_lines().unwrap();
    assert_eq!(lines, vec!["a".to_string(), "tail".to_string()]);

    let mut q = LineParser::new();
    assert!(q.put_bytes(b"a\r\n").is_ok());
    let lines = q.final_lines().unwrap();
    assert_eq!(lines, vec!["a".to_string()]);
}

#[test]
fn empty_lines_are_kept() {
    let mut p = LineParser::new();
    assert!(p.put_bytes(b"\n\r\n").is_ok());
    let lines = p.final_lines().unwrap();
    assert_eq!(lines, vec![String::new(), String::new()]);
}

#[test]
fn invalid_text_at_line_feed_is_a_decode_fault() {
    let mut p = LineParser::new();
    assert!(p.put_bytes(b"fine line\r\n").is_ok());
    let r = p.put_bytes(&[0xff, 0xfe, b'\n']);
    assert_eq!(r, Err(AtErr::Decode));
    assert_eq!(p.lines, vec!["fine line".to_string()]);
    assert!(!p.has_ok());
    assert!(!p.has_error());
}

#[test]
fn invalid_trailing_bytes_fail_finalization() {
    let mut p = LineParser::new();
    assert!(p.put_bytes(&[b'a', 0xc3]).is_ok());
    assert_eq!(p.final_lines(), Err(AtErr::Decode));
}

#[test]
fn multibyte_text_survives_chunk_splits() {
    let mut p = LineParser::new();
    let bytes = "sign\u{e9}".as_bytes();
    assert!(p.put_bytes(&bytes[..5]).is_ok());
    assert!(p.put_bytes(&bytes[5..]).is_ok());
    assert!(p.put_bytes(b"\r\n").is_ok());
    let lines = p.final_lines().unwrap();
    assert_eq!(lines, vec!["sign\u{e9}".to_string()]);
}

#[test]
fn fault_messages() {
    assert_eq!(AtErr::Transport.message(), "transport fault");
    assert_eq!(AtErr::Decode.message(), "response is not valid text");
}
