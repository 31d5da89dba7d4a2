//! Decisions of a single command's request/response cycle.
//!
//! The transport itself (a serial device, its clock and its read timeout)
//! belongs to the caller. The caller frames the command with
//! [`command_frame`], writes it, and then polls: each loop turn it forms one
//! [`ChannelEvent`] from what the channel did and hands it to [`poll_step`],
//! which feeds the framer and decides whether to keep polling, to finalize,
//! or to abort with which fault.

use crate::framer::{AtErr, LineParser};
use crate::model::feed_spec;
use vstd::prelude::*;
use vstd::slice::slice_to_vec;
use vstd::utf8::encode_utf8;

verus! {

/// One outcome of a poll-loop turn, formed by the caller.
pub enum ChannelEvent {
    /// The command's time budget is spent.
    DeadlineReached,
    /// A read yielded these bytes (possibly none).
    Received(Vec<u8>),
    /// A timeout-class read: no data available right now.
    NoData,
    /// A hard transport fault from the read.
    Fault,
}

/// What the caller must do next.
#[derive(Clone, Copy, Debug, PartialEq, Eq, Structural)]
pub enum PollDecision {
    /// Poll the channel again.
    KeepPolling,
    /// Stop and finalize the framer; its lines are the command's result.
    CompleteNow,
    /// Abort the command with a transport fault.
    AbortTransport,
    /// Abort the command with a decode fault.
    AbortDecode,
}

/// The bytes that carry a command over the channel: the command's text
/// followed by the two-byte line terminator CR LF.
pub fn command_frame(cmd: &str) -> (r: Vec<u8>)
    ensures
        r@ == encode_utf8(cmd@) + seq![13u8, 10u8],
{
    let mut out: Vec<u8> = slice_to_vec(cmd.as_bytes());
    out.push(13);
    out.push(10);
    proof {
        assert(out@ =~= encode_utf8(cmd@) + seq![13u8, 10u8]);
    }
    out
}

/// One turn of the poll loop. A spent deadline or a hard fault leaves the
/// framer untouched and ends the loop; received bytes are fed to the framer;
/// a timeout-class read feeds nothing. Polling goes on only while no
/// completion flag is set and no fault occurred: the loop never waits out a
/// budget whose response is already complete.
pub fn poll_step(parser: &mut LineParser, event: ChannelEvent) -> (d: PollDecision)
    ensures
        old(parser)@.is_complete() ==> d != PollDecision::KeepPolling,
        match event {
            ChannelEvent::DeadlineReached => final(parser)@ == old(parser)@ && d
                == PollDecision::CompleteNow,
            ChannelEvent::Fault => final(parser)@ == old(parser)@ && d
                == PollDecision::AbortTransport,
            ChannelEvent::NoData => final(parser)@ == old(parser)@ && d == (
            if old(parser)@.is_complete() {
                PollDecision::CompleteNow
            } else {
                PollDecision::KeepPolling
            }),
            ChannelEvent::Received(bytes) => {
                let step = feed_spec(old(parser)@, bytes@);
                &&& final(parser)@ == step.0
                &&& d == (if !step.1 {
                    PollDecision::AbortDecode
                } else if step.0.is_complete() {
                    PollDecision::CompleteNow
                } else {
                    PollDecision::KeepPolling
                })
            },
        },
{
    match event {
        ChannelEvent::DeadlineReached => PollDecision::CompleteNow,
        ChannelEvent::Fault => PollDecision::AbortTransport,
        ChannelEvent::NoData => {
            if parser.has_error() || parser.has_ok() {
                PollDecision::CompleteNow
            } else {
                PollDecision::KeepPolling
            }
        },
        ChannelEvent::Received(bytes) => {
            match parser.put_bytes(bytes.as_slice()) {
                Err(_) => PollDecision::AbortDecode,
                Ok(()) => {
                    if parser.has_error() || parser.has_ok() {
                        PollDecision::CompleteNow
                    } else {
                        PollDecision::KeepPolling
                    }
                },
            }
        },
    }
}

} // verus!
