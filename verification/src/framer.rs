//! The line framer: turns a raw byte stream into decoded text lines while
//! tracking the two sticky completion flags.

use crate::keywords::{line_sets_error, line_sets_ok};
use crate::model::{
    feed_spec, finalize_spec, lemma_feed_concat, lemma_flags_monotonic, ParserView,
};
use vstd::prelude::*;
use vstd::utf8::{decode_utf8, valid_utf8};

verus! {

/// A fault that aborts the current command.
#[derive(Clone, Copy, Debug, PartialEq, Eq, Structural)]
pub enum AtErr {
    /// A hard failure of the transport: a failed write, or a read that was
    /// neither data nor a timeout-class condition.
    Transport,
    /// Completed line bytes that are not valid text.
    Decode,
}

impl AtErr {
    /// A short description of the fault.
    pub open spec fn message_spec(self) -> Seq<char> {
        match self {
            AtErr::Transport => "transport fault"@,
            AtErr::Decode => "response is not valid text"@,
        }
    }

    /// A short description of the fault.
    pub fn message(&self) -> (r: &'static str)
        ensures
            r@ == self.message_spec(),
    {
        match self {
            AtErr::Transport => "transport fault",
            AtErr::Decode => "response is not valid text",
        }
    }
}

/// Incremental decoder of a byte stream into newline-delimited text lines.
///
/// Carriage returns are dropped, a line feed completes the pending line, and
/// each completed line is checked against the two completion keywords. The
/// abstract state is a [`ParserView`].
pub struct LineParser {
    /// Whether some completed line matched `ERROR`.
    pub has_error: bool,
    /// Whether some completed line matched `OK`.
    pub has_ok: bool,
    /// Completed lines, in order of completion.
    pub lines: Vec<String>,
    /// Bytes of the line currently being assembled.
    pub line_acc: Vec<u8>,
}

impl View for LineParser {
    type V = ParserView;

    open spec fn view(&self) -> ParserView {
        ParserView {
            lines: self.lines.deep_view(),
            pending: self.line_acc@,
            has_ok: self.has_ok,
            has_error: self.has_error,
        }
    }
}

/// Relies on str::from_utf8: strict UTF-8 decoding, which succeeds exactly on
/// valid UTF-8 and yields the bytes' decoding.
#[verifier::external_body]
fn utf8_to_str(bytes: &[u8]) -> (r: Option<&str>)
    ensures
        r is Some <==> valid_utf8(bytes@),
        r is Some ==> r.unwrap()@ == decode_utf8(bytes@),
{
    match core::str::from_utf8(bytes) {
        Ok(s) => Some(s),
        Err(_) => None,
    }
}

impl LineParser {
    /// An empty framer: no lines, no pending bytes, both flags clear.
    pub fn new() -> (r: LineParser)
        ensures
            r@ == ParserView::init(),
    {
        let r = LineParser { has_error: false, has_ok: false, lines: Vec::new(), line_acc: Vec::new() };
        proof {
            assert(r@ =~= ParserView::init());
        }
        r
    }

    /// Whether some completed line matched `ERROR`.
    pub fn has_error(&self) -> (r: bool)
        ensures
            r == self@.has_error,
    {
        self.has_error
    }

    /// Whether some completed line matched `OK`.
    pub fn has_ok(&self) -> (r: bool)
        ensures
            r == self@.has_ok,
    {
        self.has_ok
    }

    /// Completes the pending line: decodes its bytes strictly, re-evaluates
    /// the completion flags, appends the decoded line and clears the buffer.
    /// On a decode fault nothing changes and the fault is returned.
    fn process_line(&mut self) -> (r: Result<(), AtErr>)
        ensures
            r is Ok <==> valid_utf8(old(self)@.pending),
            r is Ok ==> final(self)@ == old(self)@.complete_line(),
            r is Err ==> final(self)@ == old(self)@ && r == Err::<(), AtErr>(AtErr::Decode),
    {
        match utf8_to_str(self.line_acc.as_slice()) {
            None => Err(AtErr::Decode),
            Some(s) => {
                let matched_ok = line_sets_ok(s);
                let matched_error = line_sets_error(s);
                let line: String = s.to_owned();
                self.line_acc.clear();
                self.has_ok = self.has_ok || matched_ok;
                self.has_error = self.has_error || matched_error;
                self.lines.push(line);
                proof {
                    assert(self.lines.deep_view() =~= old(self).lines.deep_view().push(
                        decode_utf8(old(self)@.pending),
                    ));
                    assert(self@ =~= old(self)@.complete_line());
                }
                Ok(())
            },
        }
    }

    /// Feeds a chunk of raw bytes, of any size and split at any boundary.
    /// The state afterwards, and whether a decode fault cut the chunk short,
    /// are exactly those of [`feed_spec`]; the completion flags only ever go
    /// from clear to set.
    pub fn put_bytes(&mut self, bytes: &[u8]) -> (r: Result<(), AtErr>)
        ensures
            final(self)@ == feed_spec(old(self)@, bytes@).0,
            r is Ok <==> feed_spec(old(self)@, bytes@).1,
            r is Err ==> r == Err::<(), AtErr>(AtErr::Decode),
            old(self)@.has_ok ==> final(self)@.has_ok,
            old(self)@.has_error ==> final(self)@.has_error,
    {
        let n: usize = bytes.len();
        let mut i: usize = 0;
        while i < n
            invariant
                0 <= i <= n,
                n == bytes@.len(),
                feed_spec(old(self)@, bytes@.take(i as int)) == (self@, true),
            decreases n - i,
        {
            let ghost prev = self@;
            let b = bytes[i];
            if b == 13 {
            } else if b == 10 {
                match self.process_line() {
                    Ok(()) => {},
                    Err(e) => {
                        proof {
                            assert(bytes@.take(i + 1).drop_last() =~= bytes@.take(i as int));
                            assert(bytes@.take(i + 1).last() == b);
                            assert(feed_spec(old(self)@, bytes@.take(i + 1)) == (self@, false));
                            lemma_feed_concat(old(self)@, bytes@.take(i + 1), bytes@.skip(i + 1));
                            assert(bytes@.take(i + 1) + bytes@.skip(i + 1) =~= bytes@);
                            lemma_flags_monotonic(old(self)@, bytes@);
                        }
                        return Err(e);
                    },
                }
            } else {
                self.line_acc.push(b);
            }
            proof {
                assert(bytes@.take(i + 1).drop_last() =~= bytes@.take(i as int));
                assert(bytes@.take(i + 1).last() == b);
                if b != 13 && b != 10 {
                    assert(self@ =~= (ParserView { pending: prev.pending.push(b), ..prev }));
                }
                assert(feed_spec(old(self)@, bytes@.take(i + 1)) == (self@, true));
            }
            i = i + 1;
        }
        proof {
            assert(bytes@.take(n as int) =~= bytes@);
            lemma_flags_monotonic(old(self)@, bytes@);
        }
        Ok(())
    }

    /// Finalizes the framer, consuming it: a non-empty pending buffer is
    /// flushed as one last line under the same decode-and-flag logic, and the
    /// full ordered line sequence is returned. After this the framer is gone
    /// and can take no further bytes.
    pub fn final_lines(self) -> (r: Result<Vec<String>, AtErr>)
        ensures
            r is Ok <==> finalize_spec(self@).1,
            r is Ok ==> r.unwrap().deep_view() == finalize_spec(self@).0,
            r is Err ==> r == Err::<Vec<String>, AtErr>(AtErr::Decode),
    {
        let mut this = self;
        if this.line_acc.len() > 0 {
            match this.process_line() {
                Ok(()) => {},
                Err(e) => {
                    return Err(e);
                },
            }
        }
        Ok(this.lines)
    }
}

} // verus!
