//! The line diff: a single pass over two line sequences with a bounded
//! lookahead, counting the lines added and deleted.

use vstd::prelude::*;
use crate::blob::{lines_view, read_lines, text_lines};

verus! {

/// How far the diff looks ahead for a line that matches.
pub const LOOKAHEAD: usize = 3;

/// What the diff does at a pair of lines that differ.
pub enum DiffStep {
    /// Skip this many old lines: they were deleted.
    Delete(int),
    /// Skip this many new lines: they were added.
    Insert(int),
    /// Count one line on each side as changed.
    Substitute,
}

/// The old line `k` places ahead of `oi` equals the new line at `ni`.
pub open spec fn deletion_matches(
    old: Seq<Seq<u8>>,
    new: Seq<Seq<u8>>,
    oi: int,
    ni: int,
    k: int,
) -> bool {
    oi + k < old.len() && old[oi + k] == new[ni]
}

/// The new line `k` places ahead of `ni` equals the old line at `oi`.
pub open spec fn insertion_matches(
    old: Seq<Seq<u8>>,
    new: Seq<Seq<u8>>,
    oi: int,
    ni: int,
    k: int,
) -> bool {
    ni + k < new.len() && old[oi] == new[ni + k]
}

/// The step taken where `old[oi]` and `new[ni]` differ. A deletion is
/// looked for first, at the distances 1, 2, 3 in this order, and then an
/// insertion, at the same distances in the same order; the first match
/// decides. Without a match the lines count as substituted.
pub open spec fn lookahead(old: Seq<Seq<u8>>, new: Seq<Seq<u8>>, oi: int, ni: int) -> DiffStep {
    if deletion_matches(old, new, oi, ni, 1) {
        DiffStep::Delete(1)
    } else if deletion_matches(old, new, oi, ni, 2) {
        DiffStep::Delete(2)
    } else if deletion_matches(old, new, oi, ni, 3) {
        DiffStep::Delete(3)
    } else if insertion_matches(old, new, oi, ni, 1) {
        DiffStep::Insert(1)
    } else if insertion_matches(old, new, oi, ni, 2) {
        DiffStep::Insert(2)
    } else if insertion_matches(old, new, oi, ni, 3) {
        DiffStep::Insert(3)
    } else {
        DiffStep::Substitute
    }
}

/// Lines `(added, deleted)` that the diff counts from the cursors `oi` and
/// `ni` to the end of both sequences.
pub open spec fn diff_from(old: Seq<Seq<u8>>, new: Seq<Seq<u8>>, oi: int, ni: int) -> (int, int)
    decreases old.len() - oi + new.len() - ni,
{
    if oi < 0 || ni < 0 || oi > old.len() || ni > new.len() {
        (0, 0)
    } else if oi == old.len() {
        (new.len() - ni, 0)
    } else if ni == new.len() {
        (0, old.len() - oi)
    } else if old[oi] == new[ni] {
        diff_from(old, new, oi + 1, ni + 1)
    } else {
        match lookahead(old, new, oi, ni) {
            DiffStep::Delete(k) => {
                let rest = diff_from(old, new, oi + k, ni);
                (rest.0, rest.1 + k)
            },
            DiffStep::Insert(k) => {
                let rest = diff_from(old, new, oi, ni + k);
                (rest.0 + k, rest.1)
            },
            DiffStep::Substitute => {
                let rest = diff_from(old, new, oi + 1, ni + 1);
                (rest.0 + 1, rest.1 + 1)
            },
        }
    }
}

/// Lines `(added, deleted)` between two line sequences.
pub open spec fn spec_line_diff(old: Seq<Seq<u8>>, new: Seq<Seq<u8>>) -> (int, int) {
    diff_from(old, new, 0, 0)
}

/// Whether two lines hold the same bytes.
fn same_line(a: &Vec<u8>, b: &Vec<u8>) -> (eq: bool)
    ensures
        eq == (a@ == b@),
{
    if a.len() != b.len() {
        return false;
    }
    let mut i: usize = 0;
    while i < a.len()
        invariant
            i <= a@.len(),
            a@.len() == b@.len(),
            forall|j: int| 0 <= j < i ==> a@[j] == b@[j],
        decreases a@.len() - i,
    {
        if a[i] != b[i] {
            return false;
        }
        i += 1;
    }
    assert(a@ =~= b@);
    true
}

/// The step to take at the cursors `oi` and `ni`, whose lines differ.
fn find_step(old: &Vec<Vec<u8>>, new: &Vec<Vec<u8>>, oi: usize, ni: usize) -> (step: (
    bool,
    bool,
    usize,
))
    requires
        oi < old@.len(),
        ni < new@.len(),
    ensures
        match lookahead(lines_view(old@), lines_view(new@), oi as int, ni as int) {
            DiffStep::Delete(k) => step.0 && !step.1 && step.2 == k,
            DiffStep::Insert(k) => !step.0 && step.1 && step.2 == k,
            DiffStep::Substitute => !step.0 && !step.1,
        },
        step.0 ==> oi + step.2 < old@.len(),
        step.1 ==> ni + step.2 < new@.len(),
        step.0 || step.1 ==> 1 <= step.2 <= LOOKAHEAD,
{
    let ghost o = lines_view(old@);
    let ghost n = lines_view(new@);
    let mut k: usize = 1;
    while k <= LOOKAHEAD
        invariant
            1 <= k <= LOOKAHEAD + 1,
            oi < old@.len(),
            ni < new@.len(),
            o == lines_view(old@),
            n == lines_view(new@),
            forall|j: int| 1 <= j < k ==> !deletion_matches(o, n, oi as int, ni as int, j),
        decreases LOOKAHEAD + 1 - k,
    {
        if k < old.len() - oi && same_line(&old[oi + k], &new[ni]) {
            return (true, false, k);
        }
        k += 1;
    }
    let mut m: usize = 1;
    while m <= LOOKAHEAD
        invariant
            1 <= m <= LOOKAHEAD + 1,
            oi < old@.len(),
            ni < new@.len(),
            o == lines_view(old@),
            n == lines_view(new@),
            forall|j: int| 1 <= j <= LOOKAHEAD ==> !deletion_matches(o, n, oi as int, ni as int, j),
            forall|j: int| 1 <= j < m ==> !insertion_matches(o, n, oi as int, ni as int, j),
        decreases LOOKAHEAD + 1 - m,
    {
        if m < new.len() - ni && same_line(&old[oi], &new[ni + m]) {
            return (false, true, m);
        }
        m += 1;
    }
    (false, false, 0)
}

/// Counts the lines added and deleted between `old` and `new`.
///
/// Both cursors start at the first line. Equal lines advance both. Where the
/// lines differ, a match within the lookahead skips the lines before it on one
/// side and counts them; a deletion is looked for before an insertion, and
/// the nearest match of a kind is taken. Without a match one line is counted
/// on each side. Once one side is used up, what is left of the other is
/// counted whole. The counts are cut to 32 bits.
pub fn line_diff(old: &Vec<Vec<u8>>, new: &Vec<Vec<u8>>) -> (r: (u32, u32))
    ensures
        r.0 == spec_line_diff(lines_view(old@), lines_view(new@)).0 as u32,
        r.1 == spec_line_diff(lines_view(old@), lines_view(new@)).1 as u32,
{
    let ghost o = lines_view(old@);
    let ghost n = lines_view(new@);
    let mut added: usize = 0;
    let mut deleted: usize = 0;
    let mut oi: usize = 0;
    let mut ni: usize = 0;
    while oi < old.len() || ni < new.len()
        invariant
            o == lines_view(old@),
            n == lines_view(new@),
            oi <= old@.len(),
            ni <= new@.len(),
            added <= ni,
            deleted <= oi,
            added + diff_from(o, n, oi as int, ni as int).0 == diff_from(o, n, 0, 0).0,
            deleted + diff_from(o, n, oi as int, ni as int).1 == diff_from(o, n, 0, 0).1,
        decreases old@.len() - oi + new@.len() - ni,
    {
        if oi >= old.len() {
            added += new.len() - ni;
            ni = new.len();
        } else if ni >= new.len() {
            deleted += old.len() - oi;
            oi = old.len();
        } else if same_line(&old[oi], &new[ni]) {
            oi += 1;
            ni += 1;
        } else {
            let step = find_step(old, new, oi, ni);
            if step.0 {
                deleted += step.2;
                oi += step.2;
            } else if step.1 {
                added += step.2;
                ni += step.2;
            } else {
                deleted += 1;
                added += 1;
                oi += 1;
                ni += 1;
            }
        }
    }
    (#[verifier::truncate] (added as u32), #[verifier::truncate] (deleted as u32))
}

/// Counts the lines added and deleted between two blobs read as text. A blob
/// that is not valid UTF-8 is read as empty text.
pub fn compute_line_diff(old_bytes: &[u8], new_bytes: &[u8]) -> (r: (u32, u32))
    ensures
        r.0 == spec_line_diff(text_lines(old_bytes@), text_lines(new_bytes@)).0 as u32,
        r.1 == spec_line_diff(text_lines(old_bytes@), text_lines(new_bytes@)).1 as u32,
{
    let old_lines = read_lines(old_bytes);
    let new_lines = read_lines(new_bytes);
    line_diff(&old_lines, &new_lines)
}

} // verus!
