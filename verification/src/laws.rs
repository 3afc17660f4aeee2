//! Properties that hold across the operations of the configuration.
use vstd::prelude::*;

use vstd::arithmetic::div_mod::{lemma_div_is_ordered, lemma_div_is_ordered_by_denominator};

use crate::app_group::{AppGroup, AppLibraryConfig};
use crate::launcher::{group_views, last_key_before, reordered, Launcher};
use crate::board::{arranged, columns, extra_rows, tile_pitch};
use crate::app_group::pages_after_drop;
use crate::ids::{has_id, lemma_retain_other, push_absent, retain_other};
use crate::app_group::FilterView;
use crate::launcher::filter_after_move;
use crate::board::{entry_matches, hits, AppEntryView, Board};
use crate::keys::{shortcut, types_text, KeyCommand, KeyPress};
use crate::text::{is_substring, lowercase};
use crate::layout::{
    lemma_position_from, position_of, dropped, first_gap, gap_from, holds, is_trimmed, lemma_gap_from, lemma_trim_trailing, padded, put,
    settled, slot_at, slots, trim_trailing, without, Slot,
};

verus! {

/// `i` is a slot of `l` held by an application other than `id`.
pub open spec fn other_tile(l: Seq<Slot>, id: Seq<char>, i: int) -> bool {
    0 <= i < l.len() && l[i] is Some && l[i] != Some(id)
}

/// Where a swap may send the displaced application: nowhere, or a slot that
/// `id` held.
pub open spec fn valid_swap_back(l: Seq<Slot>, id: Seq<char>, swap_back: Option<int>) -> bool {
    swap_back matches Some(o) ==> 0 <= o < l.len() && l[o] == Some(id)
}

proof fn lemma_settled(l: Seq<Slot>, slot: int, id: Seq<char>, swap_back: Option<int>)
    requires
        0 <= slot,
        valid_swap_back(l, id, swap_back),
    ensures
        ({
            let s = settled(l, slot, id, swap_back);
            &&& slot < s.len()
            &&& s[slot] == Some(id)
            &&& forall|i: int| 0 <= i < s.len() && i != slot ==> s[i] != Some(id)
            &&& forall|i: int| other_tile(l, id, i) && i != slot ==> i < s.len() && s[i] == l[i]
            &&& (slot_at(l, slot) is Some && slot_at(l, slot) != Some(id) ==> holds(s, slot_at(l, slot)->0))
            &&& (slot_at(l, slot) is Some && slot_at(l, slot) != Some(id) && swap_back is Some
                && swap_back->0 != slot ==> swap_back->0 < s.len() && s[swap_back->0] == slot_at(l, slot))
        }),
{
    let placed = put(without(l, id), slot, Some(id));
    let s = settled(l, slot, id, swap_back);
    assert(placed.len() >= l.len());
    assert(forall|i: int| 0 <= i < placed.len() && i != slot ==> placed[i] != Some(id));
    assert(forall|i: int| other_tile(l, id, i) && i != slot ==> placed[i] == l[i]);
    match slot_at(l, slot) {
        Some(d) => {
            if d != id {
                let gap_case = match swap_back {
                    Some(o) => o == slot,
                    None => true,
                };
                if gap_case {
                    lemma_gap_from(placed, 0);
                    match first_gap(placed) {
                        Some(e) => {
                            assert(s == placed.update(e, Some(d)));
                            assert(s[e] == Some(d));
                        },
                        None => {
                            assert(s == placed.push(Some(d)));
                            assert(s[placed.len() as int] == Some(d));
                        },
                    }
                } else {
                    let o = swap_back->0;
                    assert(s == put(placed, o, Some(d)));
                    assert(s[o] == Some(d));
                }
            }
        },
        None => {},
    }
}

proof fn lemma_trimmed_keeps_tiles(s: Seq<Slot>)
    ensures
        forall|i: int| 0 <= i < s.len() && s[i] is Some ==> i < trim_trailing(s).len() && trim_trailing(s)[i] == s[i],
        forall|i: int| 0 <= i < trim_trailing(s).len() ==> trim_trailing(s)[i] == s[i],
        is_trimmed(trim_trailing(s)),
        trim_trailing(s).len() <= s.len(),
{
    lemma_trim_trailing(s);
    let t = trim_trailing(s);
    assert forall|i: int| 0 <= i < t.len() implies t[i] == s[i] by {
        assert(t == s.take(t.len() as int));
    }
}

/// Dropping `id` onto `slot` puts it there and nowhere else, and leaves no
/// trailing gap.
pub proof fn law_drop_places_id_once(l: Seq<Slot>, slot: int, id: Seq<char>, swap_back: Option<int>)
    requires
        0 <= slot,
        valid_swap_back(l, id, swap_back),
    ensures
        slot < dropped(l, slot, id, swap_back).len(),
        dropped(l, slot, id, swap_back)[slot] == Some(id),
        forall|i: int| 0 <= i < dropped(l, slot, id, swap_back).len() && i != slot
            ==> dropped(l, slot, id, swap_back)[i] != Some(id),
        is_trimmed(dropped(l, slot, id, swap_back)),
{
    lemma_settled(l, slot, id, swap_back);
    let s = settled(l, slot, id, swap_back);
    lemma_trimmed_keeps_tiles(s);
    let t = dropped(l, slot, id, swap_back);
    assert forall|i: int| 0 <= i < t.len() && i != slot implies t[i] != Some(id) by {
        assert(t[i] == s[i]);
    }
}

/// Dropping a tile moves no other tile: every other application keeps its
/// slot.
pub proof fn law_drop_keeps_other_tiles(l: Seq<Slot>, slot: int, id: Seq<char>, swap_back: Option<int>, i: int)
    requires
        0 <= slot,
        valid_swap_back(l, id, swap_back),
        other_tile(l, id, i),
        i != slot,
    ensures
        i < dropped(l, slot, id, swap_back).len(),
        dropped(l, slot, id, swap_back)[i] == l[i],
{
    lemma_settled(l, slot, id, swap_back);
    lemma_trimmed_keeps_tiles(settled(l, slot, id, swap_back));
}

/// Dropping a tile onto an occupied slot keeps the displaced application on
/// the layout; when `id` came from another slot of the same layout, the two
/// tiles swap.
pub proof fn law_drop_swaps_displaced(l: Seq<Slot>, slot: int, id: Seq<char>, swap_back: Option<int>)
    requires
        0 <= slot,
        valid_swap_back(l, id, swap_back),
        slot_at(l, slot) is Some,
        slot_at(l, slot) != Some(id),
    ensures
        holds(dropped(l, slot, id, swap_back), slot_at(l, slot)->0),
        swap_back matches Some(o) ==> o < dropped(l, slot, id, swap_back).len()
            && dropped(l, slot, id, swap_back)[o] == slot_at(l, slot),
{
    lemma_settled(l, slot, id, swap_back);
    let s = settled(l, slot, id, swap_back);
    lemma_trimmed_keeps_tiles(s);
    let d = slot_at(l, slot)->0;
    let w = choose|i: int| 0 <= i < s.len() && s[i] == Some(d);
    assert(dropped(l, slot, id, swap_back)[w] == Some(d));
    if let Some(o) = swap_back {
        assert(o != slot);
    }
}

/// After `id` is dropped onto one layout of a list, and cleared from all the
/// others, it sits in exactly one slot of the whole list: `slot` of layout
/// `target`.
pub proof fn law_drop_unique_across_layouts(
    ls: Seq<Seq<Slot>>,
    target: int,
    slot: int,
    id: Seq<char>,
    swap_back: Option<int>,
)
    requires
        0 <= target < ls.len(),
        0 <= slot,
        valid_swap_back(ls[target], id, swap_back),
    ensures
        ({
            let after = Seq::new(ls.len(), |k: int| if k == target {
                dropped(ls[k], slot, id, swap_back)
            } else {
                without(ls[k], id)
            });
            &&& slot < after[target].len()
            &&& after[target][slot] == Some(id)
            &&& forall|k: int, i: int| 0 <= k < after.len() && 0 <= i < after[k].len()
                && #[trigger] after[k][i] == Some(id) ==> k == target && i == slot
        }),
{
    law_drop_places_id_once(ls[target], slot, id, swap_back);
}

/// Clearing `id` from a layout and trimming it leaves no trace of `id` and no
/// trailing gap.
pub proof fn law_clear_removes_id(l: Seq<Slot>, id: Seq<char>)
    ensures
        !holds(trim_trailing(without(l, id)), id),
        is_trimmed(trim_trailing(without(l, id))),
{
    let w = without(l, id);
    lemma_trimmed_keeps_tiles(w);
    let t = trim_trailing(w);
    if holds(t, id) {
        let i = choose|i: int| 0 <= i < t.len() && t[i] == Some(id);
        assert(t[i] == w[i]);
    }
}

/// Hiding an application makes it hidden; showing it again makes it not
/// hidden, whatever the list held before.
pub proof fn law_hidden_round_trip(hidden: Seq<Seq<char>>, id: Seq<char>)
    ensures
        has_id(retain_other(hidden, id).push(id), id),
        !has_id(retain_other(hidden, id), id),
{
    lemma_retain_other(hidden, id);
    let r = retain_other(hidden, id);
    assert(r.push(id)[r.len() as int] == id);
}


/// Two configurations that differ at most in the board size.
pub open spec fn same_tiles(a: AppLibraryConfig, b: AppLibraryConfig) -> bool {
    a.icon_size == b.icon_size && a.show_labels == b.show_labels && a.tile_gap == b.tile_gap
}

/// A wider board never has fewer tile columns.
pub proof fn law_wider_board_no_fewer_columns(a: AppLibraryConfig, b: AppLibraryConfig)
    requires
        same_tiles(a, b),
        a.board_width <= b.board_width,
    ensures
        columns(a) <= columns(b),
{
    let wa = if a.board_width < 320 { 320int } else { a.board_width as int };
    let wb = if b.board_width < 320 { 320int } else { b.board_width as int };
    lemma_div_is_ordered(wa - 96, wb - 96, tile_pitch(a));
}

/// Larger tiles never give more tile columns.
pub proof fn law_larger_tiles_no_more_columns(a: AppLibraryConfig, b: AppLibraryConfig)
    requires
        a.board_width == b.board_width,
        a.show_labels == b.show_labels,
        a.tile_gap == b.tile_gap,
        a.icon_size <= b.icon_size,
    ensures
        columns(b) <= columns(a),
{
    let w = if a.board_width < 320 { 320int } else { a.board_width as int };
    lemma_div_is_ordered_by_denominator(w - 96, tile_pitch(a), tile_pitch(b));
}

/// A taller board never offers fewer empty drop rows.
pub proof fn law_taller_board_no_fewer_drop_rows(a: AppLibraryConfig, b: AppLibraryConfig)
    requires
        same_tiles(a, b),
        a.board_height <= b.board_height,
    ensures
        extra_rows(a) <= extra_rows(b),
{
    let ea = if a.board_height > 600 { a.board_height - 600 } else { 0int };
    let eb = if b.board_height > 600 { b.board_height - 600 } else { 0int };
    lemma_div_is_ordered(ea, eb, tile_pitch(a));
}

/// While searching, the board shows exactly the matches, one after another,
/// with no empty cell.
pub proof fn law_search_results_are_compact(
    layout: Seq<Slot>,
    ids: Seq<Seq<char>>,
    indices: Seq<usize>,
    columns: int,
    extra: int,
)
    ensures
        arranged(layout, ids, indices, true, columns, extra).len() == indices.len(),
        forall|i: int| 0 <= i < indices.len()
            ==> #[trigger] arranged(layout, ids, indices, true, columns, extra)[i] == Some(indices[i]),
{
}

/// Dropping an application onto a Launchpad page leaves it in exactly one
/// place across all pages: the slot it was dropped on. Applications move
/// between pages without duplicates.
pub proof fn law_page_drop_unique(pages: Seq<Seq<Slot>>, page: int, slot: int, id: Seq<char>)
    requires
        0 <= page < pages.len(),
        0 <= slot,
    ensures
        ({
            let after = pages_after_drop(pages, page, slot, id);
            &&& slot < after[page].len()
            &&& after[page][slot] == Some(id)
            &&& forall|k: int, i: int| 0 <= k < after.len() && 0 <= i < after[k].len()
                && #[trigger] after[k][i] == Some(id) ==> k == page && i == slot
        }),
{
    lemma_position_from(pages[page], id, 0);
    law_drop_unique_across_layouts(pages, page, slot, id, position_of(pages[page], id));
    assert(pages_after_drop(pages, page, slot, id) =~= Seq::new(pages.len(), |k: int| if k == page {
        dropped(pages[k], slot, id, position_of(pages[page], id))
    } else {
        without(pages[k], id)
    }));
}

/// Dropping an application into a group (or the home layout) leaves it in
/// exactly one place across the home and group layouts: the slot it was
/// dropped on. Moving between groups clears the old slot.
pub proof fn law_group_drop_unique(config: AppLibraryConfig, group: Option<usize>, slot: int, id: Seq<char>)
    requires
        0 <= slot,
        config.groups@.len() <= usize::MAX,
    ensures
        ({
            let ls = config.group_slots();
            let t = config.layout_index(group);
            let after = Seq::new(ls.len(), |k: int| if k == t {
                dropped(ls[k], slot, id, config.swap_slot(group, id))
            } else {
                without(ls[k], id)
            });
            &&& slot < after[t].len()
            &&& after[t][slot] == Some(id)
            &&& forall|k: int, i: int| 0 <= k < after.len() && 0 <= i < after[k].len()
                && #[trigger] after[k][i] == Some(id) ==> k == t && i == slot
        }),
{
    let ls = config.group_slots();
    let t = config.layout_index(group);
    AppLibraryConfig::lemma_holder_from(ls, id, 0);
    if let Some(k) = AppLibraryConfig::first_holder(ls, id) {
        if AppLibraryConfig::group_key(k) == group {
            lemma_position_from(ls[k], id, 0);
            if k > 0 {
                assert(((k - 1) as usize) as int == k - 1);
            }
            assert(k == t);
        }
    }
    law_drop_unique_across_layouts(ls, t, slot, id, config.swap_slot(group, id));
}

/// A layout that is set is read back as it was set, minus its trailing gaps;
/// every other layout reads as before.
pub proof fn law_set_layout_read_back(
    a: AppLibraryConfig,
    b: AppLibraryConfig,
    group: Option<usize>,
    layout: Seq<Slot>,
)
    requires
        b.same_except_group_layouts(a),
        b.group_slots() == a.group_slots().update(a.layout_index(group), trim_trailing(layout)),
    ensures
        b.group_slots()[b.layout_index(group)] == trim_trailing(layout),
        forall|g: Option<usize>| b.layout_index(g) != b.layout_index(group)
            ==> #[trigger] b.group_slots()[b.layout_index(g)] == a.group_slots()[a.layout_index(g)],
{
    assert(a.layout_index(group) < a.group_slots().len());
    assert forall|g: Option<usize>| b.layout_index(g) != b.layout_index(group)
        implies #[trigger] b.group_slots()[b.layout_index(g)] == a.group_slots()[a.layout_index(g)] by {
        assert(a.layout_index(g) == b.layout_index(g));
        assert(0 <= a.layout_index(g) < a.group_slots().len());
    }
}

/// A page that was just added is empty and may be removed, and removing it
/// gives back the pages as they were before.
pub proof fn law_added_page_removable(a: AppLibraryConfig, b: AppLibraryConfig)
    requires
        b.launchpad_pages@.len() == a.launchpad_pages@.len() + 1,
        b.launchpad_pages@.drop_last() == a.launchpad_pages@,
        b.launchpad_pages@.last().layout@.len() == 0,
    ensures
        ({
            let page = a.launchpad_pages@.len() as int + 1;
            &&& 0 < page < b.spec_page_count()
            &&& b.page_slots()[page].len() == 0
            &&& b.launchpad_pages@.remove(page - 1) == a.launchpad_pages@
        }),
{
    let page = a.launchpad_pages@.len() as int + 1;
    assert(b.page_slots()[page] == slots(b.launchpad_pages@[page - 1].layout@));
    assert(b.launchpad_pages@.remove(page - 1) =~= b.launchpad_pages@.drop_last());
}


proof fn lemma_last_key_of_distinct(keys: Seq<u64>, j: int, end: int)
    requires
        keys.no_duplicates(),
        0 <= j < end <= keys.len(),
    ensures
        last_key_before(keys, keys[j], end) == Some(j),
    decreases end,
{
    if keys[end - 1] != keys[j] {
        lemma_last_key_of_distinct(keys, j, end - 1);
    }
}

proof fn lemma_reorder_prefix(groups: Seq<AppGroup>, keys: Seq<u64>, n: int)
    requires
        keys.len() == groups.len(),
        keys.no_duplicates(),
        0 <= n <= keys.len(),
    ensures
        reordered(groups, keys, keys.take(n)) == group_views(groups).take(n),
    decreases n,
{
    if n > 0 {
        lemma_reorder_prefix(groups, keys, n - 1);
        assert(keys.take(n).drop_last() =~= keys.take(n - 1));
        lemma_last_key_of_distinct(keys, n - 1, keys.len() as int);
        assert(group_views(groups).take(n) =~= group_views(groups).take(n - 1).push(groups[n - 1]@));
    }
}

/// Reordering the groups into the order they already have changes nothing:
/// when each group has its own key, the groups come back as they were.
pub proof fn law_reorder_in_place(groups: Seq<AppGroup>, keys: Seq<u64>)
    requires
        keys.len() == groups.len(),
        keys.no_duplicates(),
    ensures
        reordered(groups, keys, keys) == group_views(groups),
{
    lemma_reorder_prefix(groups, keys, keys.len() as int);
    assert(keys.take(keys.len() as int) =~= keys);
    assert(group_views(groups).take(keys.len() as int) =~= group_views(groups));
}


/// A new launcher gives each group its own key (see [`Launcher::new`]).
pub proof fn law_new_launcher_keys_distinct(l: Launcher, n: nat)
    requires
        l.group_keys@ == Seq::new(n, |k: int| k as u64),
        l.next_group_key == n,
    ensures
        l.keys_distinct(),
{
}

/// Creating a group keeps every key distinct (see
/// [`Launcher::submit_new_group`]).
pub proof fn law_created_group_keeps_keys_distinct(a: Launcher, b: Launcher)
    requires
        a.keys_distinct(),
        b.group_keys@ == a.group_keys@.push(a.next_group_key),
        b.next_group_key == a.next_group_key + 1,
    ensures
        b.keys_distinct(),
{
    assert forall|i: int, j: int| 0 <= i < j < b.group_keys@.len() implies b.group_keys@[i] != b.group_keys@[j] by {
        if j == a.group_keys@.len() {
            assert(a.group_keys@[i] < a.next_group_key);
        }
    }
}

/// Deleting a group keeps every key distinct (see
/// [`Launcher::confirm_delete`]).
pub proof fn law_deleted_group_keeps_keys_distinct(a: Launcher, b: Launcher, g: int)
    requires
        a.keys_distinct(),
        b.group_keys@ == if 0 <= g < a.group_keys@.len() { a.group_keys@.remove(g) } else { a.group_keys@ },
        b.next_group_key == a.next_group_key,
    ensures
        b.keys_distinct(),
{
    if 0 <= g < a.group_keys@.len() {
        assert forall|k: int| 0 <= k < b.group_keys@.len() implies #[trigger] b.group_keys@[k] < b.next_group_key by {
            if k < g {
                assert(b.group_keys@[k] == a.group_keys@[k]);
            } else {
                assert(b.group_keys@[k] == a.group_keys@[k + 1]);
            }
        }
        assert forall|i: int, j: int| 0 <= i < j < b.group_keys@.len() implies b.group_keys@[i] != b.group_keys@[j] by {
            let ai = if i < g { i } else { i + 1 };
            let aj = if j < g { j } else { j + 1 };
            assert(b.group_keys@[i] == a.group_keys@[ai]);
            assert(b.group_keys@[j] == a.group_keys@[aj]);
        }
    }
}


/// The number of slots of `l` that hold `x`.
pub open spec fn count_of(l: Seq<Slot>, x: Seq<char>) -> nat
    decreases l.len(),
{
    if l.len() == 0 {
        0
    } else {
        count_of(l.drop_last(), x) + if l.last() == Some(x) { 1nat } else { 0nat }
    }
}

/// The number of slots holding `x` over every layout of `ls`.
pub open spec fn total_count(ls: Seq<Seq<Slot>>, x: Seq<char>) -> nat
    decreases ls.len(),
{
    if ls.len() == 0 {
        0
    } else {
        total_count(ls.drop_last(), x) + count_of(ls.last(), x)
    }
}

/// 1 when the slot holds `x`, else 0.
pub open spec fn holds_one(v: Slot, x: Seq<char>) -> int {
    if v == Some(x) { 1 } else { 0 }
}

proof fn lemma_count_push(l: Seq<Slot>, v: Slot, x: Seq<char>)
    ensures
        count_of(l.push(v), x) == count_of(l, x) + holds_one(v, x),
{
    assert(l.push(v).drop_last() =~= l);
}

proof fn lemma_count_update(l: Seq<Slot>, i: int, v: Slot, x: Seq<char>)
    requires
        0 <= i < l.len(),
    ensures
        count_of(l.update(i, v), x) == count_of(l, x) - holds_one(l[i], x) + holds_one(v, x),
    decreases l.len(),
{
    let u = l.update(i, v);
    if i == l.len() - 1 {
        assert(u.drop_last() =~= l.drop_last());
    } else {
        lemma_count_update(l.drop_last(), i, v, x);
        assert(u.drop_last() =~= l.drop_last().update(i, v));
    }
}

proof fn lemma_count_padded(l: Seq<Slot>, n: int, x: Seq<char>)
    ensures
        count_of(padded(l, n), x) == count_of(l, x),
    decreases n - l.len(),
{
    if l.len() < n {
        lemma_count_padded(l, n - 1, x);
        assert(padded(l, n) =~= padded(l, n - 1).push(None));
        lemma_count_push(padded(l, n - 1), None, x);
    }
}

proof fn lemma_count_put(l: Seq<Slot>, slot: int, v: Slot, x: Seq<char>)
    requires
        0 <= slot,
    ensures
        count_of(put(l, slot, v), x) == count_of(l, x) - holds_one(slot_at(l, slot), x) + holds_one(v, x),
{
    lemma_count_padded(l, slot + 1, x);
    assert(padded(l, slot + 1)[slot] == slot_at(l, slot));
    lemma_count_update(padded(l, slot + 1), slot, v, x);
}

proof fn lemma_count_without(l: Seq<Slot>, id: Seq<char>, x: Seq<char>)
    requires
        x != id,
    ensures
        count_of(without(l, id), x) == count_of(l, x),
    decreases l.len(),
{
    if l.len() > 0 {
        lemma_count_without(l.drop_last(), id, x);
        assert(without(l, id).drop_last() =~= without(l.drop_last(), id));
    }
}

proof fn lemma_count_trim(l: Seq<Slot>, x: Seq<char>)
    ensures
        count_of(trim_trailing(l), x) == count_of(l, x),
    decreases l.len(),
{
    if l.len() > 0 && l.last() is None {
        lemma_count_trim(l.drop_last(), x);
    }
}

/// Dropping a tile loses and duplicates no other application: each one
/// occupies as many slots as before, the displaced one included.
pub proof fn law_drop_keeps_counts(l: Seq<Slot>, slot: int, id: Seq<char>, swap_back: Option<int>, x: Seq<char>)
    requires
        0 <= slot,
        valid_swap_back(l, id, swap_back),
        x != id,
    ensures
        count_of(dropped(l, slot, id, swap_back), x) == count_of(l, x),
{
    let w = without(l, id);
    let placed = put(w, slot, Some(id));
    lemma_count_without(l, id, x);
    lemma_count_put(w, slot, Some(id), x);
    assert(holds_one(slot_at(w, slot), x) == holds_one(slot_at(l, slot), x));
    let s = settled(l, slot, id, swap_back);
    match slot_at(l, slot) {
        Some(d) => {
            if d != id {
                let gap_case = match swap_back {
                    Some(o) => o == slot,
                    None => true,
                };
                if gap_case {
                    lemma_gap_from(placed, 0);
                    match first_gap(placed) {
                        Some(e) => {
                            assert(s == placed.update(e, Some(d)));
                            lemma_count_update(placed, e, Some(d), x);
                        },
                        None => {
                            assert(s == placed.push(Some(d)));
                            lemma_count_push(placed, Some(d), x);
                        },
                    }
                } else {
                    let o = swap_back->0;
                    assert(s == put(placed, o, Some(d)));
                    assert(w[o] == None::<Seq<char>>);
                    assert(slot_at(placed, o) == None::<Seq<char>>);
                    lemma_count_put(placed, o, Some(d), x);
                }
            }
        },
        None => {},
    }
    lemma_count_trim(s, x);
}

proof fn lemma_total_count_pointwise(a: Seq<Seq<Slot>>, b: Seq<Seq<Slot>>, x: Seq<char>)
    requires
        a.len() == b.len(),
        forall|k: int| 0 <= k < a.len() ==> count_of(#[trigger] a[k], x) == count_of(b[k], x),
    ensures
        total_count(a, x) == total_count(b, x),
    decreases a.len(),
{
    if a.len() > 0 {
        lemma_total_count_pointwise(a.drop_last(), b.drop_last(), x);
        assert(count_of(a[a.len() - 1], x) == count_of(b[b.len() - 1], x));
    }
}

/// After `id` is dropped onto one layout of a list and cleared from the
/// others, every other application occupies as many slots of the list as
/// before: the displaced one is moved, never lost or duplicated.
pub proof fn law_drop_keeps_counts_across_layouts(
    ls: Seq<Seq<Slot>>,
    target: int,
    slot: int,
    id: Seq<char>,
    swap_back: Option<int>,
    x: Seq<char>,
)
    requires
        0 <= target < ls.len(),
        0 <= slot,
        valid_swap_back(ls[target], id, swap_back),
        x != id,
    ensures
        total_count(Seq::new(ls.len(), |k: int| if k == target {
            dropped(ls[k], slot, id, swap_back)
        } else {
            without(ls[k], id)
        }), x) == total_count(ls, x),
{
    let after = Seq::new(ls.len(), |k: int| if k == target {
        dropped(ls[k], slot, id, swap_back)
    } else {
        without(ls[k], id)
    });
    assert forall|k: int| 0 <= k < after.len() implies count_of(#[trigger] after[k], x) == count_of(ls[k], x) by {
        if k == target {
            law_drop_keeps_counts(ls[k], slot, id, swap_back, x);
        } else {
            lemma_count_without(ls[k], id, x);
        }
    }
    lemma_total_count_pointwise(after, ls, x);
}

/// Dropping an application onto a Launchpad page loses and duplicates no
/// other application across the pages (see
/// [`AppLibraryConfig::place_entry_on_page`]).
pub proof fn law_page_drop_keeps_counts(pages: Seq<Seq<Slot>>, page: int, slot: int, id: Seq<char>, x: Seq<char>)
    requires
        0 <= slot,
        x != id,
    ensures
        total_count(pages_after_drop(pages, page, slot, id), x) == total_count(pages, x),
{
    let after = pages_after_drop(pages, page, slot, id);
    assert forall|k: int| 0 <= k < after.len() implies count_of(#[trigger] after[k], x) == count_of(pages[k], x) by {
        if k == page {
            lemma_position_from(pages[k], id, 0);
            law_drop_keeps_counts(pages[k], slot, id, position_of(pages[k], id), x);
        } else {
            lemma_count_without(pages[k], id, x);
        }
    }
    lemma_total_count_pointwise(after, pages, x);
}

/// Dropping an application onto a Launchpad page keeps every other tile of
/// every page in its slot, except the one displaced from the slot dropped on.
pub proof fn law_page_drop_keeps_other_tiles(
    pages: Seq<Seq<Slot>>,
    page: int,
    slot: int,
    id: Seq<char>,
    k: int,
    i: int,
)
    requires
        0 <= slot,
        0 <= k < pages.len(),
        other_tile(pages[k], id, i),
        !(k == page && i == slot),
    ensures
        i < pages_after_drop(pages, page, slot, id)[k].len(),
        pages_after_drop(pages, page, slot, id)[k][i] == pages[k][i],
{
    if k == page {
        lemma_position_from(pages[k], id, 0);
        law_drop_keeps_other_tiles(pages[k], slot, id, position_of(pages[k], id), i);
    }
}

/// Dropping an application into a group (or the home layout) loses and
/// duplicates no other application across the home and group layouts (see
/// [`AppLibraryConfig::place_entry`]).
pub proof fn law_group_drop_keeps_counts(config: AppLibraryConfig, group: Option<usize>, slot: int, id: Seq<char>, x: Seq<char>)
    requires
        0 <= slot,
        config.groups@.len() <= usize::MAX,
        x != id,
    ensures
        ({
            let ls = config.group_slots();
            let t = config.layout_index(group);
            total_count(Seq::new(ls.len(), |k: int| if k == t {
                dropped(ls[k], slot, id, config.swap_slot(group, id))
            } else {
                without(ls[k], id)
            }), x) == total_count(ls, x)
        }),
{
    let ls = config.group_slots();
    let t = config.layout_index(group);
    AppLibraryConfig::lemma_holder_from(ls, id, 0);
    if let Some(k) = AppLibraryConfig::first_holder(ls, id) {
        if AppLibraryConfig::group_key(k) == group {
            lemma_position_from(ls[k], id, 0);
            if k > 0 {
                assert(((k - 1) as usize) as int == k - 1);
            }
            assert(k == t);
        }
    }
    law_drop_keeps_counts_across_layouts(ls, t, slot, id, config.swap_slot(group, id), x);
}


proof fn lemma_has_pushed(s: Seq<Seq<char>>, id: Seq<char>)
    ensures
        has_id(s.push(id), id),
        has_id(push_absent(s, id), id),
{
    assert(s.push(id)[s.len() as int] == id);
}

/// An application dragged out of an existing group into a different group
/// leaves the filter of the group it came from: an ID list no longer holds
/// it, and a category filter no longer includes it anyway and excludes it
/// from its results (see [`Launcher::drop_on_group_slot`]).
pub proof fn law_move_leaves_source_group(c: AppLibraryConfig, k: int, from: Option<usize>, to: usize, id: Seq<char>)
    requires
        c.existing_group(from) == Some(k),
        from != Some(to),
    ensures
        match c.groups@[k].filter@ {
            FilterView::AppIds(_) => filter_after_move(c, k, from, to, id) matches FilterView::AppIds(ids)
                && !has_id(ids, id),
            FilterView::Categories { .. } => filter_after_move(c, k, from, to, id) matches FilterView::Categories {
                exclude,
                included,
                ..
            } && !has_id(exclude, id) && has_id(included, id),
            FilterView::NoFilter => filter_after_move(c, k, from, to, id) == FilterView::NoFilter,
        },
{
    match c.groups@[k].filter@ {
        FilterView::AppIds(ids) => {
            lemma_retain_other(ids, id);
            lemma_retain_other(retain_other(ids, id), id);
        },
        FilterView::Categories { categories, exclude, included } => {
            lemma_retain_other(exclude, id);
            lemma_retain_other(retain_other(exclude, id), id);
            lemma_has_pushed(retain_other(included, id), id);
            let inc = retain_other(included, id).push(id);
            assert(push_absent(inc, id) == inc);
        },
        FilterView::NoFilter => {},
    }
}

/// An application dragged into an existing group from a different group
/// joins the group's filter: an ID list holds it, and a category filter
/// includes it anyway and no longer excludes it from its results.
pub proof fn law_move_joins_target_group(c: AppLibraryConfig, j: int, from: Option<usize>, to: usize, id: Seq<char>)
    requires
        c.existing_group(Some(to)) == Some(j),
        from != Some(to),
    ensures
        match c.groups@[j].filter@ {
            FilterView::AppIds(_) => filter_after_move(c, j, from, to, id) matches FilterView::AppIds(ids)
                && has_id(ids, id),
            FilterView::Categories { .. } => filter_after_move(c, j, from, to, id) matches FilterView::Categories {
                exclude,
                included,
                ..
            } && has_id(exclude, id) && !has_id(included, id),
            FilterView::NoFilter => filter_after_move(c, j, from, to, id) == FilterView::NoFilter,
        },
{
    assert(c.existing_group(from) != Some(j));
    match c.groups@[j].filter@ {
        FilterView::AppIds(ids) => {
            lemma_has_pushed(ids, id);
        },
        FilterView::Categories { categories, exclude, included } => {
            lemma_retain_other(included, id);
            lemma_has_pushed(retain_other(exclude, id), id);
        },
        FilterView::NoFilter => {},
    }
}

proof fn lemma_holder_is(ls: Seq<Seq<Slot>>, id: Seq<char>, from: int, t: int)
    requires
        0 <= from <= t < ls.len(),
        holds(ls[t], id),
        forall|k: int| 0 <= k < t ==> !holds(#[trigger] ls[k], id),
    ensures
        AppLibraryConfig::holder_from(ls, id, from) == Some(t),
    decreases t - from,
{
    lemma_position_from(ls[from], id, 0);
    if from < t {
        lemma_holder_is(ls, id, from + 1, t);
    } else {
        let i = choose|i: int| 0 <= i < ls[t].len() && ls[t][i] == Some(id);
        assert(position_of(ls[t], id) is Some);
    }
}

/// Dropping an application onto another occupied slot of the layout it sits
/// in (and in no layout before it) swaps the two tiles: the displaced
/// application takes the slot the dropped one came from (see
/// [`AppLibraryConfig::place_entry`]).
pub proof fn law_group_drop_swaps_tiles(c: AppLibraryConfig, group: Option<usize>, o: int, slot: int, id: Seq<char>)
    requires
        group matches Some(g) ==> g < c.groups@.len(),
        c.groups@.len() < usize::MAX,
        0 <= o < c.group_slots()[c.layout_index(group)].len(),
        c.group_slots()[c.layout_index(group)][o] == Some(id),
        forall|j: int| 0 <= j < o ==> c.group_slots()[c.layout_index(group)][j] != Some(id),
        forall|k: int| 0 <= k < c.layout_index(group) ==> !holds(#[trigger] c.group_slots()[k], id),
        0 <= slot < c.group_slots()[c.layout_index(group)].len(),
        slot != o,
        c.group_slots()[c.layout_index(group)][slot] is Some,
        c.group_slots()[c.layout_index(group)][slot] != Some(id),
    ensures
        ({
            let l = c.group_slots()[c.layout_index(group)];
            let after = dropped(l, slot, id, c.swap_slot(group, id));
            &&& o < after.len()
            &&& after[o] == l[slot]
            &&& after[slot] == Some(id)
        }),
{
    let ls = c.group_slots();
    let t = c.layout_index(group);
    let l = ls[t];
    assert(holds(l, id));
    lemma_holder_is(ls, id, 0, t);
    if t > 0 {
        assert(((t - 1) as usize) as int == t - 1);
    }
    assert(AppLibraryConfig::group_key(t) == group);
    lemma_position_from(l, id, 0);
    assert(position_of(l, id) == Some(o));
    law_drop_swaps_displaced(l, slot, id, Some(o));
    law_drop_places_id_once(l, slot, id, Some(o));
}

proof fn lemma_hits_hold(entries: Seq<AppEntryView>, q: Seq<char>, i: int)
    requires
        0 <= i < entries.len(),
        entry_matches(entries[i], q),
    ensures
        hits(entries, q).contains(i as usize),
    decreases entries.len(),
{
    if i == entries.len() - 1 {
        let h = hits(entries, q);
        assert(h[h.len() - 1] == i as usize);
    } else {
        lemma_hits_hold(entries.drop_last(), q, i);
        let prev = hits(entries.drop_last(), q);
        let p = choose|p: int| 0 <= p < prev.len() && prev[p] == i as usize;
        assert(hits(entries, q)[p] == i as usize);
    }
}

/// The search finds an application by any of its categories: when the
/// lower-case query occurs in the lower-case form of one of its categories,
/// whatever that category's place in the list, the application is among
/// the hits (see [`Board::search_positions`]).
pub proof fn law_search_finds_any_category(all: Seq<AppEntryView>, query: Seq<char>, i: int, c: int)
    requires
        0 <= i < all.len(),
        0 <= c < all[i].categories.len(),
        is_substring(lowercase(query), lowercase(all[i].categories[c])),
    ensures
        hits(all, lowercase(query)).contains(i as usize),
{
    lemma_hits_hold(all, lowercase(query), i);
}

proof fn lemma_other_apps_upto(b: Board, n: int, i: int)
    requires
        b.other_apps_upto(n).contains(i as usize),
        0 <= i <= usize::MAX,
        n <= usize::MAX + 1,
    ensures
        b.in_other_apps(i),
        i < n,
    decreases n,
{
    if n > 0 {
        let prev = b.other_apps_upto(n - 1);
        if b.in_other_apps(n - 1) {
            let full = prev.push((n - 1) as usize);
            let p = choose|p: int| 0 <= p < full.len() && #[trigger] full[p] == i as usize;
            if p < prev.len() {
                assert(prev[p] == i as usize);
                lemma_other_apps_upto(b, n - 1, i);
            } else {
                assert(i as usize == (n - 1) as usize);
            }
        } else {
            lemma_other_apps_upto(b, n - 1, i);
        }
    }
}

/// While no search is active, an application held by any Launchpad page,
/// the first (home) page included, is not listed under Other Apps (see
/// [`Board::other_app_indices`]).
pub proof fn law_pinned_apps_not_in_other_apps(b: Board, i: int)
    requires
        0 <= i < b.entries@.len(),
        !b.search_active(),
        holds(slots(b.config.home_layout@), b.entries@[i].id@)
            || exists|p: int| 0 <= p < b.config.launchpad_pages@.len()
                && holds(slots(#[trigger] b.config.launchpad_pages@[p].layout@), b.entries@[i].id@),
    ensures
        !b.other_apps_upto(b.entries@.len() as int).contains(i as usize),
{
    let id = b.entries@[i].id@;
    let ls = b.config.page_slots();
    if holds(slots(b.config.home_layout@), id) {
        assert(holds(ls[0], id));
    } else {
        let p = choose|p: int| 0 <= p < b.config.launchpad_pages@.len()
            && holds(slots(b.config.launchpad_pages@[p].layout@), id);
        assert(ls[p + 1] == slots(b.config.launchpad_pages@[p].layout@));
        assert(holds(ls[p + 1], id));
    }
    assert(b.config.on_some_page(id));
    assert(b.entries@.len() == b.entries.len());
    if b.other_apps_upto(b.entries@.len() as int).contains(i as usize) {
        lemma_other_apps_upto(b, b.entries@.len() as int, i);
    }
}

/// With Control held, the character keys P and K move focus up a row, N and
/// J down a row, F and L to the next widget, B and H to the previous one;
/// such a press never types into the search (see [`key_command`]).
pub proof fn law_control_letters_move_focus(k: KeyPress, c: char)
    requires
        k.control,
        k.character is Some,
        k.character->0@ == seq![c],
    ensures
        !types_text(k),
        (c == 'p' || c == 'k') ==> shortcut(k) == KeyCommand::PrevRow,
        (c == 'n' || c == 'j') ==> shortcut(k) == KeyCommand::NextRow,
        (c == 'f' || c == 'l') ==> shortcut(k) == KeyCommand::FocusNext,
        (c == 'b' || c == 'h') ==> shortcut(k) == KeyCommand::FocusPrevious,
{
    assert(seq![c] =~= seq![c]);
    if c != 'p' && c != 'k' {
        assert(seq![c] != seq!['p']) by { assert(seq![c][0] != seq!['p'][0]); }
        assert(seq![c] != seq!['k']) by { assert(seq![c][0] != seq!['k'][0]); }
    }
    if c != 'n' && c != 'j' {
        assert(seq![c] != seq!['n']) by { assert(seq![c][0] != seq!['n'][0]); }
        assert(seq![c] != seq!['j']) by { assert(seq![c][0] != seq!['j'][0]); }
    }
    if c != 'f' && c != 'l' {
        assert(seq![c] != seq!['f']) by { assert(seq![c][0] != seq!['f'][0]); }
        assert(seq![c] != seq!['l']) by { assert(seq![c][0] != seq!['l'][0]); }
    }
}

} // verus!
