//! The mathematical model of the line framer: its abstract state, the effect
//! of a byte stream on it, and the laws that state follows.

use crate::keywords::{is_error_marker, is_ok_marker};
use vstd::prelude::*;
use vstd::utf8::{decode_utf8, decode_utf8_encode_utf8, encode_scalar, encode_utf8, valid_utf8};

verus! {

/// Abstract state of a line framer.
#[verifier::ext_equal]
pub struct ParserView {
    /// Completed lines, in order of completion.
    pub lines: Seq<Seq<char>>,
    /// Bytes of the line currently being assembled.
    pub pending: Seq<u8>,
    /// Whether some completed line matched `OK`.
    pub has_ok: bool,
    /// Whether some completed line matched `ERROR`.
    pub has_error: bool,
}

impl ParserView {
    /// The state of a freshly created framer.
    pub open spec fn init() -> ParserView {
        ParserView {
            lines: Seq::empty(),
            pending: Seq::empty(),
            has_ok: false,
            has_error: false,
        }
    }

    /// A completion flag is set.
    pub open spec fn is_complete(self) -> bool {
        self.has_ok || self.has_error
    }

    /// Effect of completing the pending line: its bytes are decoded, the
    /// flags are re-evaluated against the decoded line, the line is appended
    /// and the buffer cleared.
    pub open spec fn complete_line(self) -> ParserView
        recommends
            valid_utf8(self.pending),
    {
        let line = decode_utf8(self.pending);
        ParserView {
            lines: self.lines.push(line),
            pending: Seq::empty(),
            has_ok: self.has_ok || is_ok_marker(line),
            has_error: self.has_error || is_error_marker(line),
        }
    }

    /// Effect of one byte: carriage returns are dropped, a line feed
    /// completes the pending line (a fault if its bytes are not valid UTF-8,
    /// and then nothing changes), any other byte is buffered. The second
    /// component is false exactly on a decode fault.
    pub open spec fn step_byte(self, b: u8) -> (ParserView, bool) {
        if b == 13 {
            (self, true)
        } else if b == 10 {
            if valid_utf8(self.pending) {
                (self.complete_line(), true)
            } else {
                (self, false)
            }
        } else {
            (ParserView { pending: self.pending.push(b), ..self }, true)
        }
    }

    /// Well-formedness: the pending buffer holds no terminator byte, and no
    /// completed line contains a carriage return.
    pub open spec fn wf(self) -> bool {
        &&& forall|j: int|
            0 <= j < self.pending.len() ==> #[trigger] self.pending[j] != 13 && self.pending[j]
                != 10
        &&& forall|i: int| 0 <= i < self.lines.len() ==> !(#[trigger] self.lines[i]).contains('\r')
    }
}

/// The state after feeding `bytes`, and whether every completed line decoded.
/// On a decode fault the state reached at the fault is kept: the faulting
/// line feed and all later bytes have no effect.
pub open spec fn feed_spec(v: ParserView, bytes: Seq<u8>) -> (ParserView, bool)
    decreases bytes.len(),
{
    if bytes.len() == 0 {
        (v, true)
    } else {
        let prefix = feed_spec(v, bytes.drop_last());
        if !prefix.1 {
            prefix
        } else {
            prefix.0.step_byte(bytes.last())
        }
    }
}

/// The lines a framer yields on finalization, and whether the flush of a
/// non-empty pending buffer decoded.
pub open spec fn finalize_spec(v: ParserView) -> (Seq<Seq<char>>, bool) {
    if v.pending.len() == 0 {
        (v.lines, true)
    } else if valid_utf8(v.pending) {
        (v.lines.push(decode_utf8(v.pending)), true)
    } else {
        (v.lines, false)
    }
}

/// Feeding a concatenation is feeding the parts in turn, however the stream
/// was chunked; a fault in the first part cuts the second part off.
pub proof fn lemma_feed_concat(v: ParserView, a: Seq<u8>, b: Seq<u8>)
    ensures
        feed_spec(v, a).1 ==> feed_spec(v, a + b) == feed_spec(feed_spec(v, a).0, b),
        !feed_spec(v, a).1 ==> feed_spec(v, a + b) == feed_spec(v, a),
    decreases b.len(),
{
    if b.len() == 0 {
        assert(a + b =~= a);
    } else {
        lemma_feed_concat(v, a, b.drop_last());
        assert((a + b).drop_last() =~= a + b.drop_last());
        assert((a + b).last() == b.last());
    }
}

/// Bytes with no terminator are buffered verbatim: no line completes, the
/// flags do not change, and no fault occurs.
pub proof fn lemma_feed_no_terminator(v: ParserView, bytes: Seq<u8>)
    requires
        forall|i: int| 0 <= i < bytes.len() ==> #[trigger] bytes[i] != 13 && bytes[i] != 10,
    ensures
        feed_spec(v, bytes).1,
        feed_spec(v, bytes).0 == (ParserView { pending: v.pending + bytes, ..v }),
    decreases bytes.len(),
{
    if bytes.len() == 0 {
        assert(v.pending + bytes =~= v.pending);
        assert(feed_spec(v, bytes).0 =~= (ParserView { pending: v.pending + bytes, ..v }));
    } else {
        lemma_feed_no_terminator(v, bytes.drop_last());
        assert((v.pending + bytes.drop_last()).push(bytes.last()) =~= v.pending + bytes);
        assert(feed_spec(v, bytes).0 =~= (ParserView { pending: v.pending + bytes, ..v }));
    }
}

/// When the pending bytes decode, a line-feed byte completes exactly one
/// line and clears the pending buffer.
pub proof fn lemma_line_feed_completes(v: ParserView)
    requires
        valid_utf8(v.pending),
    ensures
        feed_spec(v, seq![10u8]).1,
        feed_spec(v, seq![10u8]).0 == v.complete_line(),
        feed_spec(v, seq![10u8]).0.lines == v.lines.push(decode_utf8(v.pending)),
        feed_spec(v, seq![10u8]).0.pending.len() == 0,
{
    assert(seq![10u8].drop_last() =~= Seq::<u8>::empty());
    assert(feed_spec(v, seq![10u8].drop_last()) == (v, true));
}

/// The completion flags are monotonic under feeding.
pub proof fn lemma_flags_monotonic(v: ParserView, bytes: Seq<u8>)
    ensures
        v.has_ok ==> feed_spec(v, bytes).0.has_ok,
        v.has_error ==> feed_spec(v, bytes).0.has_error,
    decreases bytes.len(),
{
    if bytes.len() > 0 {
        lemma_flags_monotonic(v, bytes.drop_last());
    }
}

/// A decode fault after a fault-free prefix is a fault of the whole stream,
/// however many valid lines the prefix completed.
pub proof fn lemma_fault_after_valid_prefix(v: ParserView, a: Seq<u8>, b: Seq<u8>)
    requires
        feed_spec(v, a).1,
        !feed_spec(feed_spec(v, a).0, b).1,
    ensures
        !feed_spec(v, a + b).1,
        feed_spec(v, a + b) == feed_spec(feed_spec(v, a).0, b),
{
    lemma_feed_concat(v, a, b);
}

/// Completed lines are never lost or reordered: feeding only ever appends
/// to them.
pub proof fn lemma_lines_append_only(v: ParserView, bytes: Seq<u8>)
    ensures
        v.lines.is_prefix_of(feed_spec(v, bytes).0.lines),
    decreases bytes.len(),
{
    if bytes.len() == 0 {
        assert(v.lines =~= feed_spec(v, bytes).0.lines.subrange(0, v.lines.len() as int));
    } else {
        lemma_lines_append_only(v, bytes.drop_last());
        let p = feed_spec(v, bytes.drop_last());
        let q = feed_spec(v, bytes);
        assert(v.lines =~= q.0.lines.subrange(0, v.lines.len() as int));
    }
}

/// The encoding of a character sequence that holds a carriage return holds
/// the carriage-return byte.
proof fn lemma_encode_of_cr(chars: Seq<char>, i: int)
    requires
        0 <= i < chars.len(),
        chars[i] == '\r',
    ensures
        encode_utf8(chars).contains(13u8),
    decreases i,
{
    if i == 0 {
        assert('\r' as u32 == 13);
        assert((13u32 & 0x7F) as u8 == 13u8) by (bit_vector);
        assert(encode_scalar(chars[0] as u32) =~= seq![13u8]);
        assert(encode_utf8(chars)[0] == 13u8);
    } else {
        lemma_encode_of_cr(chars.drop_first(), i - 1);
        let rest = encode_utf8(chars.drop_first());
        let j = choose|j: int| 0 <= j < rest.len() && rest[j] == 13u8;
        assert(encode_utf8(chars)[encode_scalar(chars[0] as u32).len() + j] == 13u8);
    }
}

/// A valid UTF-8 byte sequence without the carriage-return byte decodes to
/// characters without the carriage-return character.
pub proof fn lemma_decode_utf8_no_cr(bytes: Seq<u8>)
    requires
        valid_utf8(bytes),
        !bytes.contains(13u8),
    ensures
        !decode_utf8(bytes).contains('\r'),
{
    decode_utf8_encode_utf8(bytes);
    if decode_utf8(bytes).contains('\r') {
        let chars = decode_utf8(bytes);
        let i = choose|i: int| 0 <= i < chars.len() && chars[i] == '\r';
        lemma_encode_of_cr(chars, i);
    }
}

/// One byte's step preserves well-formedness.
proof fn lemma_step_byte_preserves_wf(v: ParserView, b: u8)
    requires
        v.wf(),
    ensures
        v.step_byte(b).0.wf(),
{
    if b == 10 && valid_utf8(v.pending) {
        assert(!v.pending.contains(13u8));
        lemma_decode_utf8_no_cr(v.pending);
        let w = v.complete_line();
        assert(forall|i: int| 0 <= i < w.lines.len() ==> !(#[trigger] w.lines[i]).contains('\r'));
    }
}

/// Feeding preserves well-formedness; in particular no completed line ever
/// contains a carriage return.
pub proof fn lemma_feed_preserves_wf(v: ParserView, bytes: Seq<u8>)
    requires
        v.wf(),
    ensures
        feed_spec(v, bytes).0.wf(),
    decreases bytes.len(),
{
    if bytes.len() > 0 {
        lemma_feed_preserves_wf(v, bytes.drop_last());
        let prefix = feed_spec(v, bytes.drop_last());
        if prefix.1 {
            lemma_step_byte_preserves_wf(prefix.0, bytes.last());
        }
    }
}

} // verus!
