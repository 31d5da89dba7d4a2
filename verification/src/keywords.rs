//! Recognition of the completion keywords `OK` and `ERROR`.
//!
//! A completed line is a completion marker when, after trimming the line's
//! surrounding whitespace, the whole remaining content equals the keyword,
//! case-insensitively. A keyword occurring as part of a longer token never
//! matches.

use vstd::prelude::*;
use vstd::string::*;

verus! {

/// Whitespace that may surround a completion keyword on its line.
pub open spec fn is_line_ws(c: char) -> bool {
    c == ' ' || c == '\t' || c == '\r' || c == '\n' || c == '\u{b}' || c == '\u{c}'
}

/// Every character of the sequence is line whitespace.
pub open spec fn all_line_ws(s: Seq<char>) -> bool {
    forall|i: int| 0 <= i < s.len() ==> is_line_ws(#[trigger] s[i])
}

/// The sequence with its leading whitespace removed.
pub open spec fn trim_start(s: Seq<char>) -> Seq<char>
    decreases s.len(),
{
    if s.len() > 0 && is_line_ws(s[0]) {
        trim_start(s.drop_first())
    } else {
        s
    }
}

/// The sequence with its trailing whitespace removed.
pub open spec fn trim_end(s: Seq<char>) -> Seq<char>
    decreases s.len(),
{
    if s.len() > 0 && is_line_ws(s.last()) {
        trim_end(s.drop_last())
    } else {
        s
    }
}

/// The sequence with its surrounding whitespace removed.
pub open spec fn trimmed(s: Seq<char>) -> Seq<char> {
    trim_end(trim_start(s))
}

/// Full-line, case-insensitive match of `OK` after trimming.
pub open spec fn is_ok_marker(line: Seq<char>) -> bool {
    let t = trimmed(line);
    &&& t.len() == 2
    &&& (t[0] == 'O' || t[0] == 'o')
    &&& (t[1] == 'K' || t[1] == 'k')
}

/// Full-line, case-insensitive match of `ERROR` after trimming.
pub open spec fn is_error_marker(line: Seq<char>) -> bool {
    let t = trimmed(line);
    &&& t.len() == 5
    &&& (t[0] == 'E' || t[0] == 'e')
    &&& (t[1] == 'R' || t[1] == 'r')
    &&& (t[2] == 'R' || t[2] == 'r')
    &&& (t[3] == 'O' || t[3] == 'o')
    &&& (t[4] == 'R' || t[4] == 'r')
}

/// When the first `k` characters are whitespace and the `k`-th is not (or the
/// sequence ends there), trimming from the start drops exactly those `k`.
proof fn lemma_trim_start_skip(s: Seq<char>, k: int)
    requires
        0 <= k <= s.len(),
        forall|j: int| 0 <= j < k ==> is_line_ws(#[trigger] s[j]),
        k == s.len() || !is_line_ws(s[k]),
    ensures
        trim_start(s) == s.skip(k),
    decreases k,
{
    if k == 0 {
        assert(s.skip(0) =~= s);
    } else {
        lemma_trim_start_skip(s.drop_first(), k - 1);
        assert(s.drop_first().skip(k - 1) =~= s.skip(k));
    }
}

/// When the characters from `k` on are whitespace and the one before `k` is
/// not (or `k` is zero), trimming from the end keeps exactly the first `k`.
proof fn lemma_trim_end_take(s: Seq<char>, k: int)
    requires
        0 <= k <= s.len(),
        forall|j: int| k <= j < s.len() ==> is_line_ws(#[trigger] s[j]),
        k == 0 || !is_line_ws(s[k - 1]),
    ensures
        trim_end(s) == s.take(k),
    decreases s.len(),
{
    if k == s.len() {
        assert(s.take(k) =~= s);
    } else {
        lemma_trim_end_take(s.drop_last(), k);
        assert(s.drop_last().take(k) =~= s.take(k));
    }
}

/// Surrounding a keyword, written with each letter in either case, by any
/// amount of whitespace still makes the line a completion marker: here for `OK`.
pub proof fn lemma_ok_marker_surrounded(pre: Seq<char>, core: Seq<char>, post: Seq<char>)
    requires
        all_line_ws(pre),
        all_line_ws(post),
        core.len() == 2,
        core[0] == 'O' || core[0] == 'o',
        core[1] == 'K' || core[1] == 'k',
    ensures
        is_ok_marker(pre + core + post),
{
    let s = pre + core + post;
    let lo = pre.len() as int;
    let hi = lo + core.len() as int;
    assert(s[lo] == core[0]);
    lemma_trim_start_skip(s, lo);
    let mid = s.skip(lo);
    assert(mid =~= core + post);
    assert(mid[core.len() as int - 1] == core[1]);
    lemma_trim_end_take(mid, core.len() as int);
    assert(mid.take(core.len() as int) =~= core);
}

/// The same, for `ERROR`.
pub proof fn lemma_error_marker_surrounded(pre: Seq<char>, core: Seq<char>, post: Seq<char>)
    requires
        all_line_ws(pre),
        all_line_ws(post),
        core.len() == 5,
        core[0] == 'E' || core[0] == 'e',
        core[1] == 'R' || core[1] == 'r',
        core[2] == 'R' || core[2] == 'r',
        core[3] == 'O' || core[3] == 'o',
        core[4] == 'R' || core[4] == 'r',
    ensures
        is_error_marker(pre + core + post),
{
    let s = pre + core + post;
    let lo = pre.len() as int;
    assert(s[lo] == core[0]);
    lemma_trim_start_skip(s, lo);
    let mid = s.skip(lo);
    assert(mid =~= core + post);
    assert(mid[core.len() as int - 1] == core[4]);
    lemma_trim_end_take(mid, core.len() as int);
    assert(mid.take(core.len() as int) =~= core);
}

/// Whether the character is line whitespace.
fn is_ws_char(c: char) -> (r: bool)
    ensures
        r == is_line_ws(c),
{
    c == ' ' || c == '\t' || c == '\r' || c == '\n' || c == '\u{b}' || c == '\u{c}'
}

/// The index range of the line's content once surrounding whitespace is trimmed.
fn trim_range(s: &str) -> (r: (usize, usize))
    ensures
        r.0 <= r.1 <= s@.len(),
        trimmed(s@) == s@.subrange(r.0 as int, r.1 as int),
{
    let n = s.unicode_len();
    let mut lo: usize = 0;
    while lo < n && is_ws_char(s.get_char(lo))
        invariant
            0 <= lo <= n,
            n == s@.len(),
            forall|j: int| 0 <= j < lo ==> is_line_ws(#[trigger] s@[j]),
        decreases n - lo,
    {
        lo = lo + 1;
    }
    let mut hi: usize = n;
    while hi > lo && is_ws_char(s.get_char(hi - 1))
        invariant
            lo <= hi <= n,
            n == s@.len(),
            forall|j: int| hi <= j < n ==> is_line_ws(#[trigger] s@[j]),
        decreases hi,
    {
        hi = hi - 1;
    }
    proof {
        lemma_trim_start_skip(s@, lo as int);
        let mid = s@.skip(lo as int);
        assert(forall|j: int|
            hi - lo <= j < mid.len() ==> is_line_ws(#[trigger] mid[j])) by {
            assert(forall|j: int|
                hi - lo <= j < mid.len() ==> mid[j] == s@[j + lo]);
        }
        lemma_trim_end_take(mid, hi as int - lo as int);
        assert(mid.take(hi as int - lo as int) =~= s@.subrange(lo as int, hi as int));
    }
    (lo, hi)
}

/// Whether the line, once trimmed, equals `OK` case-insensitively.
pub fn line_sets_ok(s: &str) -> (r: bool)
    ensures
        r == is_ok_marker(s@),
{
    let (lo, hi) = trim_range(s);
    if hi - lo != 2 {
        return false;
    }
    let c0 = s.get_char(lo);
    let c1 = s.get_char(lo + 1);
    (c0 == 'O' || c0 == 'o') && (c1 == 'K' || c1 == 'k')
}

/// Whether the line, once trimmed, equals `ERROR` case-insensitively.
pub fn line_sets_error(s: &str) -> (r: bool)
    ensures
        r == is_error_marker(s@),
{
    let (lo, hi) = trim_range(s);
    if hi - lo != 5 {
        return false;
    }
    let c0 = s.get_char(lo);
    let c1 = s.get_char(lo + 1);
    let c2 = s.get_char(lo + 2);
    let c3 = s.get_char(lo + 3);
    let c4 = s.get_char(lo + 4);
    (c0 == 'E' || c0 == 'e') && (c1 == 'R' || c1 == 'r') && (c2 == 'R' || c2 == 'r') && (c3 == 'O'
        || c3 == 'o') && (c4 == 'R' || c4 == 'r')
}

} // verus!
