//! Inspection of raw blob content: the binary heuristic, the split of text
//! into lines, and the line count.

use vstd::prelude::*;
use vstd::utf8::valid_utf8;

verus! {

/// How many leading bytes of a blob the binary heuristic looks at.
pub const BINARY_SCAN_LIMIT: usize = 8192;

/// The line feed byte, which ends a line.
pub const LINE_FEED: u8 = 0x0A;

/// The carriage return byte, dropped where it stands directly before a line feed.
pub const CARRIAGE_RETURN: u8 = 0x0D;

/// A blob counts as binary when a zero byte occurs among its first
/// `BINARY_SCAN_LIMIT` bytes.
pub open spec fn spec_is_binary(bytes: Seq<u8>) -> bool {
    exists|i: int| 0 <= i < bytes.len() && i < BINARY_SCAN_LIMIT && bytes[i] == 0
}

/// Position of the first line feed in `s`, or `s.len()` if there is none.
pub open spec fn first_line_feed(s: Seq<u8>) -> int
    decreases s.len(),
{
    if s.len() == 0 || s[0] == LINE_FEED {
        0
    } else {
        1 + first_line_feed(s.drop_first())
    }
}

/// `line` without one trailing carriage return, if it has one.
pub open spec fn strip_carriage_return(line: Seq<u8>) -> Seq<u8> {
    if line.len() > 0 && line.last() == CARRIAGE_RETURN {
        line.drop_last()
    } else {
        line
    }
}

/// The lines of `s`. Every line feed ends a line; the line feed itself and a
/// carriage return directly before it are not part of the line. What follows
/// the last line feed is a line of its own unless it is empty, and is kept
/// as it is.
pub open spec fn lines_of(s: Seq<u8>) -> Seq<Seq<u8>>
    decreases s.len(),
{
    if s.len() == 0 {
        Seq::empty()
    } else {
        let k = first_line_feed(s);
        if 0 <= k < s.len() {
            seq![strip_carriage_return(s.subrange(0, k))] + lines_of(s.subrange(k + 1, s.len() as int))
        } else {
            seq![s]
        }
    }
}

/// The lines of a blob read as text: those of `lines_of` where the bytes are
/// valid UTF-8, none otherwise.
pub open spec fn text_lines(bytes: Seq<u8>) -> Seq<Seq<u8>> {
    if valid_utf8(bytes) {
        lines_of(bytes)
    } else {
        Seq::empty()
    }
}

/// The byte sequences that a vector of lines stands for.
pub open spec fn lines_view(lines: Seq<Vec<u8>>) -> Seq<Seq<u8>> {
    Seq::new(lines.len(), |i: int| lines[i]@)
}

/// `first_line_feed` is the one position that holds a line feed with none before it.
pub proof fn lemma_first_line_feed(s: Seq<u8>, k: int)
    requires
        0 <= k <= s.len(),
        forall|j: int| 0 <= j < k ==> s[j] != LINE_FEED,
        k < s.len() ==> s[k] == LINE_FEED,
    ensures
        first_line_feed(s) == k,
    decreases k,
{
    if k > 0 {
        let t = s.drop_first();
        assert forall|j: int| 0 <= j < k - 1 implies t[j] != LINE_FEED by {
            assert(t[j] == s[j + 1]);
        }
        lemma_first_line_feed(t, k - 1);
    }
}

/// Where the first line feed of the rest of `s` after `start` stands at `i`,
/// the rest's lines are the line between them, then the lines after `i`.
proof fn lemma_lines_step(s: Seq<u8>, start: int, i: int)
    requires
        0 <= start <= i < s.len(),
        forall|j: int| start <= j < i ==> s[j] != LINE_FEED,
        s[i] == LINE_FEED,
    ensures
        lines_of(s.subrange(start, s.len() as int)) == seq![
            strip_carriage_return(s.subrange(start, i)),
        ] + lines_of(s.subrange(i + 1, s.len() as int)),
{
    let t = s.subrange(start, s.len() as int);
    lemma_first_line_feed(t, i - start);
    assert(t.subrange(0, i - start) =~= s.subrange(start, i));
    assert(t.subrange(i - start + 1, t.len() as int) =~= s.subrange(i + 1, s.len() as int));
}

/// A rest without a line feed is one line, or none if it is empty.
proof fn lemma_lines_tail(s: Seq<u8>, start: int)
    requires
        0 <= start <= s.len(),
        forall|j: int| start <= j < s.len() ==> s[j] != LINE_FEED,
    ensures
        lines_of(s.subrange(start, s.len() as int)) == if start < s.len() {
            seq![s.subrange(start, s.len() as int)]
        } else {
            Seq::<Seq<u8>>::empty()
        },
{
    let t = s.subrange(start, s.len() as int);
    lemma_first_line_feed(t, t.len() as int);
}

/// Whether a blob is binary: a zero byte among its first 8192 bytes.
pub fn is_binary(bytes: &[u8]) -> (b: bool)
    ensures
        b == spec_is_binary(bytes@),
{
    let n: usize = if bytes.len() < BINARY_SCAN_LIMIT {
        bytes.len()
    } else {
        BINARY_SCAN_LIMIT
    };
    let mut i: usize = 0;
    while i < n
        invariant
            i <= n,
            n <= bytes@.len(),
            n <= BINARY_SCAN_LIMIT,
            n == bytes@.len() || n == BINARY_SCAN_LIMIT,
            forall|j: int| 0 <= j < i ==> bytes@[j] != 0,
        decreases n - i,
    {
        if bytes[i] == 0 {
            return true;
        }
        i += 1;
    }
    false
}

/// Whether `bytes` is valid UTF-8, as `core::str::from_utf8` decides it: the
/// call succeeds exactly on the byte strings that are well-formed UTF-8.
#[verifier::external_body]
fn is_utf8(bytes: &[u8]) -> (b: bool)
    ensures
        b == valid_utf8(bytes@),
{
    core::str::from_utf8(bytes).is_ok()
}

/// A copy of `bytes[from..to]`.
fn copy_range(bytes: &[u8], from: usize, to: usize) -> (out: Vec<u8>)
    requires
        from <= to <= bytes@.len(),
    ensures
        out@ == bytes@.subrange(from as int, to as int),
{
    let mut out: Vec<u8> = Vec::new();
    let mut i: usize = from;
    while i < to
        invariant
            from <= i <= to,
            to <= bytes@.len(),
            out@ == bytes@.subrange(from as int, i as int),
        decreases to - i,
    {
        out.push(bytes[i]);
        assert(bytes@.subrange(from as int, i as int).push(bytes@[i as int])
            =~= bytes@.subrange(from as int, i + 1));
        i += 1;
    }
    out
}

/// Splits `bytes` into its lines.
pub fn split_lines(bytes: &[u8]) -> (lines: Vec<Vec<u8>>)
    ensures
        lines_view(lines@) == lines_of(bytes@),
{
    let len: usize = bytes.len();
    let mut lines: Vec<Vec<u8>> = Vec::new();
    let mut start: usize = 0;
    let mut i: usize = 0;
    assert(bytes@.subrange(0, len as int) =~= bytes@);
    assert(lines_view(lines@) =~= Seq::<Seq<u8>>::empty());
    while i < len
        invariant
            len == bytes@.len(),
            start <= i <= len,
            forall|j: int| start <= j < i ==> bytes@[j] != LINE_FEED,
            lines_view(lines@) + lines_of(bytes@.subrange(start as int, len as int)) == lines_of(
                bytes@,
            ),
        decreases len - i,
    {
        if bytes[i] == LINE_FEED {
            let end: usize = if i > start && bytes[i - 1] == CARRIAGE_RETURN {
                i - 1
            } else {
                i
            };
            let line = copy_range(bytes, start, end);
            proof {
                lemma_lines_step(bytes@, start as int, i as int);
                let raw = bytes@.subrange(start as int, i as int);
                assert(line@ =~= strip_carriage_return(raw));
                assert(lines_view(lines@.push(line)) =~= lines_view(lines@) + seq![line@]);
            }
            lines.push(line);
            start = i + 1;
        }
        i += 1;
    }
    if start < len {
        let line = copy_range(bytes, start, len);
        proof {
            lemma_lines_tail(bytes@, start as int);
            assert(lines_view(lines@.push(line)) =~= lines_view(lines@) + seq![line@]);
        }
        lines.push(line);
    } else {
        proof {
            lemma_lines_tail(bytes@, start as int);
        }
    }
    lines
}

/// The lines of a blob read as text; a blob that is not valid UTF-8 has none.
pub fn read_lines(bytes: &[u8]) -> (lines: Vec<Vec<u8>>)
    ensures
        lines_view(lines@) == text_lines(bytes@),
{
    if is_utf8(bytes) {
        split_lines(bytes)
    } else {
        let lines: Vec<Vec<u8>> = Vec::new();
        assert(lines_view(lines@) =~= Seq::<Seq<u8>>::empty());
        lines
    }
}

/// The number of lines of a blob read as text, cut to 32 bits; 0 for a blob
/// that is not valid UTF-8.
pub fn count_lines(bytes: &[u8]) -> (n: u32)
    ensures
        n == text_lines(bytes@).len() as u32,
{
    if !is_utf8(bytes) {
        return 0;
    }
    let len: usize = bytes.len();
    let mut count: usize = 0;
    let mut start: usize = 0;
    let mut i: usize = 0;
    assert(bytes@.subrange(0, len as int) =~= bytes@);
    while i < len
        invariant
            len == bytes@.len(),
            start <= i <= len,
            count <= start,
            forall|j: int| start <= j < i ==> bytes@[j] != LINE_FEED,
            count + lines_of(bytes@.subrange(start as int, len as int)).len() == lines_of(
                bytes@,
            ).len(),
        decreases len - i,
    {
        if bytes[i] == LINE_FEED {
            proof {
                lemma_lines_step(bytes@, start as int, i as int);
            }
            count += 1;
            start = i + 1;
        }
        i += 1;
    }
    proof {
        lemma_lines_tail(bytes@, start as int);
    }
    if start < len {
        count += 1;
    }
    #[verifier::truncate]
    (count as u32)
}

/// What the diff computer needs to know of one blob: whether it is binary,
/// and its line count, which is 0 for a binary blob.
pub fn inspect_blob(bytes: &[u8]) -> (r: (bool, u32))
    ensures
        r.0 == spec_is_binary(bytes@),
        r.1 == if spec_is_binary(bytes@) {
            0u32
        } else {
            text_lines(bytes@).len() as u32
        },
{
    let binary = is_binary(bytes);
    let lines: u32 = if binary {
        0
    } else {
        count_lines(bytes)
    };
    (binary, lines)
}

} // verus!
