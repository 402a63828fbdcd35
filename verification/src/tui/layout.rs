//! The window of periods that fits the screen.

use vstd::prelude::*;
use vstd::string::{StringExecFns, StringSliceAdditionalSpecFns};
use vstd::utf8::{decode_utf8, encode_utf8_decode_utf8, is_char_boundary};
use crate::tui::input::all_indices;
use crate::tui::state::{TuiState, WeekStats};

verus! {

/// Lines of the screen that the list of periods cannot use.
pub const VERTICAL_PADDING: usize = 8;

/// The number of periods that fit a screen of `height` lines: at least one.
pub open spec fn view_height(height: usize) -> int {
    if height - VERTICAL_PADDING >= 1 {
        height - VERTICAL_PADDING
    } else {
        1
    }
}

/// The entries of `filtered` that are places of a list of `n` periods, in
/// their order.
pub open spec fn valid_indices(filtered: Seq<usize>, n: nat) -> Seq<usize>
    decreases filtered.len(),
{
    if filtered.len() == 0 {
        Seq::empty()
    } else if filtered.last() < n {
        valid_indices(filtered.drop_last(), n).push(filtered.last())
    } else {
        valid_indices(filtered.drop_last(), n)
    }
}

/// The places of the periods that can be shown: all places where nothing
/// is filtered, and otherwise the filtered places that exist.
pub open spec fn shown_indices(filtered: Seq<usize>, n: nat) -> Seq<usize> {
    if filtered.len() == 0 {
        all_indices(n)
    } else {
        valid_indices(filtered, n)
    }
}

/// The first position at which `item` stands in `items`, or 0 where it
/// stands nowhere.
pub open spec fn position_or_zero(items: Seq<usize>, item: usize) -> int
    decreases items.len(),
{
    if items.len() == 0 {
        0
    } else if items[0] == item {
        0
    } else if items.drop_first().contains(item) {
        1 + position_or_zero(items.drop_first(), item)
    } else {
        0
    }
}

/// Where the window starts among `count` shown periods when the selected
/// one stands at `selected_pos`: half a window before it, but no later than
/// a full window before the end, and not before the first.
pub open spec fn window_start(count: int, selected_pos: int, view_height: int) -> int {
    let centered = if selected_pos - view_height / 2 >= 0 {
        selected_pos - view_height / 2
    } else {
        0
    };
    if centered + view_height > count {
        if count - view_height >= 0 {
            count - view_height
        } else {
            0
        }
    } else {
        centered
    }
}

/// Where the window ends: a window after its start, or at the last period.
pub open spec fn window_end(count: int, start: int, view_height: int) -> int {
    if start + view_height <= count {
        start + view_height
    } else {
        count
    }
}

/// The window of periods for a screen of `height` lines: the places of the
/// periods shown, each with a mark on the selected one.
pub open spec fn visible_window(
    filtered: Seq<usize>,
    selected: usize,
    n: nat,
    height: usize,
) -> Seq<(usize, bool)> {
    let indices = shown_indices(filtered, n);
    if n == 0 || indices.len() == 0 {
        Seq::empty()
    } else {
        let start = window_start(
            indices.len() as int,
            position_or_zero(indices, selected),
            view_height(height),
        );
        let end = window_end(indices.len() as int, start, view_height(height));
        Seq::new((end - start) as nat, |k: int| (indices[start + k], indices[start + k] == selected))
    }
}

/// Every shown place is a place of the list.
pub proof fn lemma_shown_indices(filtered: Seq<usize>, n: nat)
    ensures
        forall|k: int|
            0 <= k < shown_indices(filtered, n).len() ==> (#[trigger] shown_indices(filtered, n)[k])
                < n,
        shown_indices(filtered, n).len() <= if filtered.len() == 0 {
            n
        } else {
            filtered.len()
        },
{
    lemma_valid_indices(filtered, n);
}

/// Every valid place is a place of the list.
proof fn lemma_valid_indices(filtered: Seq<usize>, n: nat)
    ensures
        forall|k: int|
            0 <= k < valid_indices(filtered, n).len() ==> (#[trigger] valid_indices(filtered, n)[k])
                < n,
        valid_indices(filtered, n).len() <= filtered.len(),
    decreases filtered.len(),
{
    if filtered.len() > 0 {
        lemma_valid_indices(filtered.drop_last(), n);
    }
}

/// The places of the periods that can be shown.
fn collect_shown(filtered: &Vec<usize>, n: usize) -> (indices: Vec<usize>)
    ensures
        indices@ == shown_indices(filtered@, n as nat),
{
    if filtered.len() == 0 {
        let mut all: Vec<usize> = Vec::new();
        let mut i: usize = 0;
        while i < n
            invariant
                i <= n,
                all@ == all_indices(i as nat),
            decreases n - i,
        {
            all.push(i);
            assert(all@ =~= all_indices((i + 1) as nat));
            i += 1;
        }
        all
    } else {
        let mut valid: Vec<usize> = Vec::new();
        let mut i: usize = 0;
        while i < filtered.len()
            invariant
                i <= filtered@.len(),
                valid@ == valid_indices(filtered@.subrange(0, i as int), n as nat),
            decreases filtered@.len() - i,
        {
            let ghost next = filtered@.subrange(0, i + 1);
            assert(next.drop_last() =~= filtered@.subrange(0, i as int));
            assert(next.last() == filtered@[i as int]);
            if filtered[i] < n {
                valid.push(filtered[i]);
            }
            i += 1;
        }
        assert(filtered@.subrange(0, i as int) =~= filtered@);
        valid
    }
}

/// The first position of `item` in `items`, or 0 where it stands nowhere.
fn find_position(items: &Vec<usize>, item: usize) -> (pos: usize)
    ensures
        pos == position_or_zero(items@, item),
        items@.len() > 0 ==> pos < items@.len(),
{
    let mut i: usize = 0;
    while i < items.len()
        invariant
            i <= items@.len(),
            forall|j: int| 0 <= j < i ==> items@[j] != item,
        decreases items@.len() - i,
    {
        if items[i] == item {
            proof {
                lemma_position_found(items@, item, i as int);
            }
            return i;
        }
        i += 1;
    }
    proof {
        lemma_position_absent(items@, item);
    }
    0
}

/// The position of an item is the first place at which it stands.
proof fn lemma_position_found(items: Seq<usize>, item: usize, i: int)
    requires
        0 <= i < items.len(),
        items[i] == item,
        forall|j: int| 0 <= j < i ==> items[j] != item,
    ensures
        position_or_zero(items, item) == i,
    decreases i,
{
    if i > 0 {
        let rest = items.drop_first();
        assert(rest[i - 1] == item);
        assert forall|j: int| 0 <= j < i - 1 implies rest[j] != item by {
            assert(rest[j] == items[j + 1]);
        }
        lemma_position_found(rest, item, i - 1);
    }
}

/// An item that stands nowhere has the position 0.
proof fn lemma_position_absent(items: Seq<usize>, item: usize)
    requires
        forall|j: int| 0 <= j < items.len() ==> items[j] != item,
    ensures
        position_or_zero(items, item) == 0,
{
    if items.len() > 0 {
        let rest = items.drop_first();
        if rest.contains(item) {
            let j = choose|j: int| 0 <= j < rest.len() && rest[j] == item;
            assert(items[j + 1] == item);
        }
    }
}

/// The places of the periods that a screen of `height` lines shows, each
/// with a mark on the selected one. The window is centred on the selected
/// period where that is possible.
pub fn visible_indices(count: usize, state: &TuiState, height: usize) -> (window: Vec<(usize, bool)>)
    ensures
        window@ == visible_window(state.filtered_indices@, state.selected, count as nat, height),
        forall|k: int| 0 <= k < window@.len() ==> (#[trigger] window@[k]).0 < count,
{
    if count == 0 {
        return Vec::new();
    }
    let view_height: usize = if height > VERTICAL_PADDING {
        height - VERTICAL_PADDING
    } else {
        1
    };
    let indices = collect_shown(&state.filtered_indices, count);
    proof {
        lemma_shown_indices(state.filtered_indices@, count as nat);
    }
    if indices.len() == 0 {
        return Vec::new();
    }
    let selected_pos = find_position(&indices, state.selected);
    let half = view_height / 2;
    let mut start: usize = if selected_pos >= half {
        selected_pos - half
    } else {
        0
    };
    if view_height > indices.len() - start {
        start = if indices.len() >= view_height {
            indices.len() - view_height
        } else {
            0
        };
    }
    let end: usize = if view_height <= indices.len() - start {
        start + view_height
    } else {
        indices.len()
    };
    let mut window: Vec<(usize, bool)> = Vec::new();
    let mut i: usize = start;
    while i < end
        invariant
            start <= i <= end,
            end <= indices@.len(),
            window@.len() == i - start,
            forall|k: int|
                0 <= k < window@.len() ==> (#[trigger] window@[k]) == (
                    indices@[start + k],
                    indices@[start + k] == state.selected,
                ),
        decreases end - i,
    {
        window.push((indices[i], indices[i] == state.selected));
        i += 1;
    }
    assert(window@ =~= visible_window(
        state.filtered_indices@,
        state.selected,
        count as nat,
        height,
    ));
    window
}

/// The periods that a screen of `height` lines shows, each with a mark on
/// the selected one.
pub fn get_visible_weeks<'a>(weeks: &'a [WeekStats], state: &TuiState, height: usize) -> (visible: Vec<
    (&'a WeekStats, bool),
>)
    ensures
        visible@.len() == visible_window(
            state.filtered_indices@,
            state.selected,
            weeks@.len(),
            height,
        ).len(),
        forall|k: int|
            0 <= k < visible@.len() ==> {
                let shown = visible_window(
                    state.filtered_indices@,
                    state.selected,
                    weeks@.len(),
                    height,
                )[k];
                shown.0 < weeks@.len() && *(#[trigger] visible@[k]).0 == weeks@[shown.0 as int]
                    && visible@[k].1 == shown.1
            },
{
    let window = visible_indices(weeks.len(), state, height);
    let mut visible: Vec<(&'a WeekStats, bool)> = Vec::new();
    let mut k: usize = 0;
    while k < window.len()
        invariant
            k <= window@.len(),
            visible@.len() == k,
            forall|j: int| 0 <= j < window@.len() ==> (#[trigger] window@[j]).0 < weeks@.len(),
            forall|j: int|
                0 <= j < k ==> *(#[trigger] visible@[j]).0 == weeks@[window@[j].0 as int]
                    && visible@[j].1 == window@[j].1,
        decreases window@.len() - k,
    {
        visible.push((&weeks[window[k].0], window[k].1));
        k += 1;
    }
    visible
}

/// What marks a text that was cut.
pub const ELLIPSIS: &'static str = "...";

/// Where a text of more than `max` bytes is cut: three bytes before `max`,
/// to leave room for the ellipsis.
pub open spec fn cut_point(max: usize) -> int {
    if max >= 3 {
        max - 3
    } else {
        0
    }
}

/// A text of `len` bytes cut to `max` bytes: the text itself where it is no
/// longer, and otherwise its bytes up to the cut point, followed by an ellipsis.
pub open spec fn truncated(text: Seq<char>, bytes: Seq<u8>, len: usize, max: usize) -> Seq<char> {
    if len > max {
        decode_utf8(bytes.subrange(0, cut_point(max))) + ELLIPSIS@
    } else {
        text
    }
}

/// Cuts `s` to `max` bytes, with an ellipsis where it was longer. The cut
/// must not fall inside a character.
pub fn truncate(s: &str, max: usize) -> (r: String)
    requires
        s.len() > max ==> is_char_boundary(s.spec_bytes(), cut_point(max)),
    ensures
        r@ == truncated(s@, s.spec_bytes(), s.len(), max),
{
    if s.len() > max {
        let cut: usize = if max >= 3 {
            max - 3
        } else {
            0
        };
        let (head, _) = s.split_at(cut);
        proof {
            encode_utf8_decode_utf8(head@);
            assert(head.spec_bytes() == s.spec_bytes().subrange(0, cut as int));
            assert(head@ == decode_utf8(s.spec_bytes().subrange(0, cut_point(max))));
        }
        let mut r = head.to_owned();
        r.append(ELLIPSIS);
        assert(r@ == head@ + ELLIPSIS@);
        r
    } else {
        s.to_owned()
    }
}

} // verus!
