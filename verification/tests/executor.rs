use atcmd::executor::{command_frame, poll_step, ChannelEvent, PollDecision};
use atcmd::framer::{AtErr, LineParser};

#[test]
fn command_frame_appends_cr_lf() {
    assert_eq!(command_frame("ATI"), b"ATI\r\n".to_vec());
    assert_eq!(command_frame(""), b"\r\n".to_vec());
}

#[test]
fn scenario_ati_ok_within_timeout() {
    let mut p = LineParser::new();
    let d = poll_step(&mut p, ChannelEvent::Received(b"Manufacturer: X\r\nOK\r\n".to_vec()));
    assert_eq!(d, PollDecision::CompleteNow);
    assert!(p.has_ok());
    assert!(!p.has_error());
    let lines = p.final_lines().unwrap();
    assert_eq!(lines, vec!["Manufacturer: X".to_string(), "OK".to_string()]);
}

#[test]
fn scenario_immediate_error_stops_polling() {
    let mut p = LineParser::new();
    let d = poll_step(&mut p, ChannelEvent::Received(b"ERROR\r\n".to_vec()));
    assert_eq!(d, PollDecision::CompleteNow);
    assert!(p.has_error());
    let lines = p.final_lines().unwrap();
    assert_eq!(lines, vec!["ERROR".to_string()]);
}

#[test]
fn scenario_timeout_returns_partial_line() {
    let mut p = LineParser::new();
    assert_eq!(poll_step(&mut p, ChannelEvent::NoData), PollDecision::KeepPolling);
    assert_eq!(
        poll_step(&mut p, ChannelEvent::Received(b"partial".to_vec())),
        PollDecision::KeepPolling
    );
    assert_eq!(poll_step(&mut p, ChannelEvent::NoData), PollDecision::KeepPolling);
    assert_eq!(poll_step(&mut p, ChannelEvent::DeadlineReached), PollDecision::CompleteNow);
    assert!(!p.has_ok());
    assert!(!p.has_error());
    let lines = p.final_lines().unwrap();
    assert_eq!(lines, vec!["partial".to_string()]);
}

#[test]
fn completion_flag_ends_polling_even_with_more_events() {
    let mut p = LineParser::new();
    assert_eq!(
        poll_step(&mut p, ChannelEvent::Received(b"OK\r\n".to_vec())),
        PollDecision::CompleteNow
    );
    assert_eq!(
        poll_step(&mut p, ChannelEvent::Received(b"late\r\n".to_vec())),
        PollDecision::CompleteNow
    );
    assert_eq!(poll_step(&mut p, ChannelEvent::NoData), PollDecision::CompleteNow);
}

#[test]
fn empty_read_keeps_polling() {
    let mut p = LineParser::new();
    assert_eq!(
        poll_step(&mut p, ChannelEvent::Received(Vec::new())),
        PollDecision::KeepPolling
    );
}

#[test]
fn hard_fault_aborts_with_transport_error() {
    let mut p = LineParser::new();
    assert!(p.put_bytes(b"half a response").is_ok());
    assert_eq!(poll_step(&mut p, ChannelEvent::Fault), PollDecision::AbortTransport);
}

#[test]
fn undecodable_read_aborts_with_decode_error() {
    let mut p = LineParser::new();
    let d = poll_step(&mut p, ChannelEvent::Received(vec![b'x', 0x80, b'\n']));
    assert_eq!(d, PollDecision::AbortDecode);
    assert_eq!(p.final_lines(), Err(AtErr::Decode));
}
