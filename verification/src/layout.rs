//! Spatial tile layouts.
//!
//! A layout is a list of slots; each slot either holds an application ID or is
//! an intentional gap. The functions here are the building blocks that the
//! configuration uses when tiles are dropped, cleared or trimmed.
use vstd::prelude::*;

verus! {

/// The abstract value of one slot: the application ID it holds, if any.
pub type Slot = Option<Seq<char>>;

/// The abstract value of a layout held as `Vec<Option<String>>`.
pub open spec fn slots(layout: Seq<Option<String>>) -> Seq<Slot> {
    Seq::new(layout.len(), |i: int| match layout[i] {
        Some(s) => Some(s@),
        None => None,
    })
}

/// The layout with every trailing gap removed.
pub open spec fn trim_trailing(l: Seq<Slot>) -> Seq<Slot>
    decreases l.len(),
{
    if l.len() > 0 && l.last() is None {
        trim_trailing(l.drop_last())
    } else {
        l
    }
}

/// A layout has no trailing gap.
pub open spec fn is_trimmed(l: Seq<Slot>) -> bool {
    l.len() == 0 || l.last() is Some
}

/// The layout with every slot that holds `id` turned into a gap.
pub open spec fn without(l: Seq<Slot>, id: Seq<char>) -> Seq<Slot> {
    Seq::new(l.len(), |i: int| if l[i] == Some(id) { None } else { l[i] })
}

/// `id` occupies some slot of the layout.
pub open spec fn holds(l: Seq<Slot>, id: Seq<char>) -> bool {
    exists|i: int| 0 <= i < l.len() && l[i] == Some(id)
}

/// The first slot at or after `from` that holds `id`.
pub open spec fn position_from(l: Seq<Slot>, id: Seq<char>, from: int) -> Option<int>
    decreases l.len() - from,
{
    if from < 0 || from >= l.len() {
        None
    } else if l[from] == Some(id) {
        Some(from)
    } else {
        position_from(l, id, from + 1)
    }
}

/// The first slot holding `id`, if any.
pub open spec fn position_of(l: Seq<Slot>, id: Seq<char>) -> Option<int> {
    position_from(l, id, 0)
}

/// The first gap at or after `from`.
pub open spec fn gap_from(l: Seq<Slot>, from: int) -> Option<int>
    decreases l.len() - from,
{
    if from < 0 || from >= l.len() {
        None
    } else if l[from] is None {
        Some(from)
    } else {
        gap_from(l, from + 1)
    }
}

/// The first gap of the layout, if any.
pub open spec fn first_gap(l: Seq<Slot>) -> Option<int> {
    gap_from(l, 0)
}

pub proof fn lemma_position_from(l: Seq<Slot>, id: Seq<char>, from: int)
    requires
        0 <= from,
    ensures
        position_from(l, id, from) matches Some(i) ==> from <= i < l.len() && l[i] == Some(id)
            && forall|j: int| from <= j < i ==> l[j] != Some(id),
        position_from(l, id, from) is None ==> forall|j: int| from <= j < l.len() ==> l[j] != Some(id),
    decreases l.len() - from,
{
    if from < l.len() && l[from] != Some(id) {
        lemma_position_from(l, id, from + 1);
    }
}

pub proof fn lemma_gap_from(l: Seq<Slot>, from: int)
    requires
        0 <= from,
    ensures
        gap_from(l, from) matches Some(i) ==> from <= i < l.len() && l[i] is None
            && forall|j: int| from <= j < i ==> l[j] is Some,
        gap_from(l, from) is None ==> forall|j: int| from <= j < l.len() ==> l[j] is Some,
    decreases l.len() - from,
{
    if from < l.len() && l[from] is Some {
        lemma_gap_from(l, from + 1);
    }
}

/// The slot at `slot`, or a gap past the end.
pub open spec fn slot_at(l: Seq<Slot>, slot: int) -> Slot {
    if 0 <= slot < l.len() { l[slot] } else { None }
}

/// The sequence extended with `None` to at least `n` elements.
pub open spec fn padded<A>(l: Seq<Option<A>>, n: int) -> Seq<Option<A>> {
    if l.len() >= n { l } else { l + Seq::new((n - l.len()) as nat, |i: int| None) }
}

/// The layout with `value` written at `slot`, growing it with gaps if needed.
pub open spec fn put(l: Seq<Slot>, slot: int, value: Slot) -> Seq<Slot> {
    padded(l, slot + 1).update(slot, value)
}

/// The layout, before trailing gaps are removed, that results when `id` is
/// dropped onto `slot` of `l`.
///
/// `id` leaves every slot it held and takes `slot`. A different application
/// that occupied `slot` is displaced: it moves to `swap_back` when that is a
/// slot other than `slot`, otherwise to the first gap, otherwise to a new slot
/// at the end.
pub open spec fn settled(l: Seq<Slot>, slot: int, id: Seq<char>, swap_back: Option<int>) -> Seq<Slot> {
    let placed = put(without(l, id), slot, Some(id));
    match slot_at(l, slot) {
        Some(d) => if d != id {
            match swap_back {
                Some(o) => if o != slot {
                    put(placed, o, Some(d))
                } else {
                    match first_gap(placed) {
                        Some(e) => placed.update(e, Some(d)),
                        None => placed.push(Some(d)),
                    }
                },
                None => match first_gap(placed) {
                    Some(e) => placed.update(e, Some(d)),
                    None => placed.push(Some(d)),
                },
            }
        } else {
            placed
        },
        None => placed,
    }
}

/// The layout that results when `id` is dropped onto `slot` of `l`: the
/// [`settled`] layout without its trailing gaps.
pub open spec fn dropped(l: Seq<Slot>, slot: int, id: Seq<char>, swap_back: Option<int>) -> Seq<Slot> {
    trim_trailing(settled(l, slot, id, swap_back))
}

pub proof fn lemma_trim_trailing(l: Seq<Slot>)
    ensures
        is_trimmed(trim_trailing(l)),
        trim_trailing(l).len() <= l.len(),
        trim_trailing(l) == l.take(trim_trailing(l).len() as int),
        forall|i: int| trim_trailing(l).len() <= i < l.len() ==> l[i] is None,
    decreases l.len(),
{
    if l.len() > 0 && l.last() is None {
        lemma_trim_trailing(l.drop_last());
        assert(trim_trailing(l.drop_last()) == l.drop_last().take(trim_trailing(l).len() as int));
        assert(l.drop_last().take(trim_trailing(l).len() as int) =~= l.take(trim_trailing(l).len() as int));
        assert forall|i: int| trim_trailing(l).len() <= i < l.len() implies l[i] is None by {
            if i < l.len() - 1 {
                assert(l.drop_last()[i] == l[i]);
            }
        }
    } else {
        assert(l.take(l.len() as int) =~= l);
    }
}

/// The two slots hold the same application, as `String`s.
pub fn same_id(entry: &Option<String>, id: &String) -> (r: bool)
    ensures
        r == (match entry { Some(s) => s@ == id@, None => false }),
{
    match entry {
        Some(s) => *s == *id,
        None => false,
    }
}

/// Turns every slot of `layout` that holds `id` into a gap.
pub fn clear_id(layout: &mut Vec<Option<String>>, id: &String)
    ensures
        slots(final(layout)@) == without(slots(old(layout)@), id@),
{
    let ghost old_slots = slots(layout@);
    let n = layout.len();
    let mut i: usize = 0;
    while i < n
        invariant
            n == layout.len(),
            i <= n,
            old_slots.len() == n,
            forall|j: int| 0 <= j < i ==> slots(layout@)[j] == without(old_slots, id@)[j],
            forall|j: int| i <= j < n ==> slots(layout@)[j] == old_slots[j],
        decreases n - i,
    {
        if same_id(&layout[i], id) {
            layout[i] = None;
        }
        proof {
            assert(slots(layout@)[i as int] == without(old_slots, id@)[i as int]);
        }
        i = i + 1;
    }
    assert(slots(layout@) =~= without(old_slots, id@));
}

/// Removes every trailing gap of `layout`.
pub fn trim(layout: &mut Vec<Option<String>>)
    ensures
        slots(final(layout)@) == trim_trailing(slots(old(layout)@)),
{
    let ghost given = slots(layout@);
    loop
        invariant
            trim_trailing(slots(layout@)) == trim_trailing(given),
        ensures
            trim_trailing(slots(layout@)) == trim_trailing(given),
            is_trimmed(slots(layout@)),
        decreases layout.len(),
    {
        let n = layout.len();
        if n == 0 {
            break;
        }
        if layout[n - 1].is_some() {
            break;
        }
        let ghost before = slots(layout@);
        layout.pop();
        proof {
            assert(slots(layout@) =~= before.drop_last());
        }
    }
    assert(trim_trailing(slots(layout@)) == slots(layout@));
}

/// The first slot of `layout` holding `id`.
pub fn find_id(layout: &[Option<String>], id: &String) -> (r: Option<usize>)
    ensures
        match r {
            Some(i) => i < layout@.len() && position_of(slots(layout@), id@) == Some(i as int),
            None => position_of(slots(layout@), id@) is None,
        },
{
    let ghost l = slots(layout@);
    let n = layout.len();
    let mut i: usize = 0;
    while i < n
        invariant
            n == layout@.len(),
            l == slots(layout@),
            i <= n,
            position_of(l, id@) == position_from(l, id@, i as int),
        decreases n - i,
    {
        if same_id(&layout[i], id) {
            return Some(i);
        }
        i = i + 1;
    }
    None
}

/// The first gap of `layout`.
pub fn find_gap(layout: &[Option<String>]) -> (r: Option<usize>)
    ensures
        match r {
            Some(i) => i < layout@.len() && first_gap(slots(layout@)) == Some(i as int),
            None => first_gap(slots(layout@)) is None,
        },
{
    let ghost l = slots(layout@);
    let n = layout.len();
    let mut i: usize = 0;
    while i < n
        invariant
            n == layout@.len(),
            l == slots(layout@),
            i <= n,
            first_gap(l) == gap_from(l, i as int),
        decreases n - i,
    {
        if layout[i].is_none() {
            return Some(i);
        }
        i = i + 1;
    }
    None
}

/// Writes `value` at `slot`, first growing `layout` with gaps if it is too short.
pub fn put_at(layout: &mut Vec<Option<String>>, slot: usize, value: Option<String>)
    requires
        slot < usize::MAX,
    ensures
        slots(final(layout)@) == put(slots(old(layout)@), slot as int, match value { Some(s) => Some(s@), None => None }),
{
    let ghost given = slots(layout@);
    while layout.len() <= slot
        invariant
            slot < usize::MAX,
            slots(layout@) == padded(given, layout.len() as int),
            layout.len() >= given.len(),
            layout.len() == given.len() || layout.len() <= slot + 1,
        decreases slot + 1 - layout.len(),
    {
        let ghost before = slots(layout@);
        layout.push(None);
        proof {
            assert(slots(layout@) =~= before.push(None));
            assert(padded(given, layout.len() as int) =~= padded(given, layout.len() - 1).push(None));
        }
    }
    proof {
        if given.len() <= slot {
            assert(layout.len() == slot + 1);
        } else {
            assert(layout.len() == given.len());
        }
        assert(padded(given, layout.len() as int) =~= padded(given, slot + 1));
    }
    layout[slot] = value;
    assert(slots(layout@) =~= put(given, slot as int, match value { Some(s) => Some(s@), None => None }));
}

} // verus!
