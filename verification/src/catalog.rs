//! The catalog of installed applications: its order and which entries look
//! like duplicates of one another.
use vstd::prelude::*;

use crate::board::{entry_views, AppEntry, AppEntryView};
use crate::sort::{is_permutation, is_stable_sorted, stable_order};
use crate::text::{chars_of, lowercase, same_chars, to_lowercase, trim_text, trimmed};

verus! {

/// The form of a name that duplicates are recognised by: lower case, without
/// white space at either end.
pub open spec fn name_key(name: Seq<char>) -> Seq<char> {
    trimmed(lowercase(name))
}

/// The state of the duplicate scan: the marks so far, the length of the
/// current run, and the name key and ID of the entry that started it.
pub struct ScanState {
    pub marks: Seq<bool>,
    pub count: int,
    pub key: Seq<char>,
    pub id: Seq<char>,
}

/// The duplicate scan over `entries`, which come sorted by name. An entry
/// whose name key or ID equals that of the entry that started the current run
/// extends the run, and it and the run's first entry are marked; any other
/// entry starts a new run. The scan starts with an empty name and ID.
pub open spec fn scan(entries: Seq<AppEntryView>) -> ScanState
    decreases entries.len(),
{
    if entries.len() == 0 {
        ScanState { marks: Seq::empty(), count: 0, key: name_key(Seq::empty()), id: Seq::empty() }
    } else {
        let prev = scan(entries.drop_last());
        let e = entries.last();
        if prev.key == name_key(e.name) || e.id == prev.id {
            let marks = if prev.count == 1 { prev.marks.update(entries.len() - 2, true) } else { prev.marks };
            ScanState { marks: marks.push(true), count: prev.count + 1, key: prev.key, id: prev.id }
        } else {
            ScanState { marks: prev.marks.push(false), count: 1, key: name_key(e.name), id: e.id }
        }
    }
}

proof fn lemma_scan_shape(entries: Seq<AppEntryView>)
    ensures
        scan(entries).marks.len() == entries.len(),
        0 <= scan(entries).count <= entries.len(),
        entries.len() > 0 ==> scan(entries).count >= 1,
    decreases entries.len(),
{
    if entries.len() > 0 {
        lemma_scan_shape(entries.drop_last());
    }
}

/// Which entries of `entries`, sorted by name, look like duplicates (see
/// [`scan`]).
pub fn duplicate_marks(entries: &[AppEntry]) -> (r: Vec<bool>)
    ensures
        r@ == scan(entry_views(entries@)).marks,
{
    let ghost all = entry_views(entries@);
    let mut marks: Vec<bool> = Vec::new();
    let mut count: usize = 0;
    let mut key = trim_text(&chars_of(to_lowercase("").as_str()));
    proof {
        reveal_strlit("");
        assert(""@ =~= Seq::<char>::empty());
    }
    let mut id = String::new();
    let n = entries.len();
    let mut i: usize = 0;
    assert(all.take(0) =~= Seq::<AppEntryView>::empty());
    while i < n
        invariant
            n == entries@.len(),
            all == entry_views(entries@),
            i <= n,
            marks@ == scan(all.take(i as int)).marks,
            count == scan(all.take(i as int)).count,
            key@ == scan(all.take(i as int)).key,
            id@ == scan(all.take(i as int)).id,
        decreases n - i,
    {
        proof {
            lemma_scan_shape(all.take(i as int));
        }
        assert(all.take(i + 1).drop_last() =~= all.take(i as int));
        assert(all.take(i + 1).last() == entries@[i as int]@);
        let e_key = trim_text(&chars_of(to_lowercase(entries[i].name.as_str()).as_str()));
        if same_chars(&key, &e_key) || entries[i].id == id {
            if count == 1 {
                marks.set(i - 1, true);
            }
            marks.push(true);
            count = count + 1;
        } else {
            marks.push(false);
            count = 1;
            key = e_key;
            id = entries[i].id.clone();
        }
        i = i + 1;
    }
    assert(all.take(n as int) =~= all);
    marks
}

/// The positions of `entries` in order of name, equal names in their order.
pub fn name_order(entries: &[AppEntry]) -> (r: Vec<usize>)
    ensures
        is_permutation(r@, entries@.len() as int),
        is_stable_sorted(r@, Seq::new(entries@.len(), |i: int| entries@[i].name@)),
{
    let mut keys: Vec<Vec<char>> = Vec::new();
    let n = entries.len();
    let mut i: usize = 0;
    while i < n
        invariant
            n == entries@.len(),
            i <= n,
            keys@.len() == i,
            forall|j: int| 0 <= j < i ==> (#[trigger] keys@[j])@ == entries@[j].name@,
        decreases n - i,
    {
        keys.push(chars_of(entries[i].name.as_str()));
        i = i + 1;
    }
    let order = stable_order(&keys);
    assert(Seq::new(keys@.len(), |j: int| keys@[j]@) =~= Seq::new(entries@.len(), |j: int| entries@[j].name@));
    order
}

/// The positions, in order, whose flag is set.
pub open spec fn kept_positions(flags: Seq<bool>) -> Seq<usize>
    decreases flags.len(),
{
    if flags.len() == 0 {
        Seq::empty()
    } else if flags.last() {
        kept_positions(flags.drop_last()).push((flags.len() - 1) as usize)
    } else {
        kept_positions(flags.drop_last())
    }
}

proof fn lemma_kept_bounded(flags: Seq<bool>)
    ensures
        forall|j: int| 0 <= j < kept_positions(flags).len() ==> #[trigger] kept_positions(flags)[j] < flags.len(),
    decreases flags.len(),
{
    if flags.len() > 0 {
        lemma_kept_bounded(flags.drop_last());
        let k = kept_positions(flags);
        let prev = kept_positions(flags.drop_last());
        assert forall|j: int| 0 <= j < k.len() implies #[trigger] k[j] < flags.len() by {
            if j < prev.len() {
                assert(k[j] == prev[j]);
            }
        }
    }
}

/// `r` lists the positions of `entries` whose `startable` flag is set, in
/// order of name, equal names in their order.
pub open spec fn is_startable_order(r: Seq<usize>, entries: Seq<AppEntry>, startable: Seq<bool>) -> bool {
    let kept = kept_positions(startable);
    exists|order: Seq<usize>| {
        &&& is_permutation(order, kept.len() as int)
        &&& is_stable_sorted(order, Seq::new(kept.len(), |j: int| entries[kept[j] as int].name@))
        &&& r.len() == kept.len()
        &&& forall|j: int| 0 <= j < r.len() ==> #[trigger] r[j] == kept[order[j] as int]
    }
}

/// The positions of the entries that can be started (`startable`), in
/// order of name, equal names in their order: the catalog the board shows.
pub fn startable_order(entries: &[AppEntry], startable: &[bool]) -> (r: Vec<usize>)
    requires
        entries@.len() == startable@.len(),
    ensures
        is_startable_order(r@, entries@, startable@),
        forall|j: int| 0 <= j < r@.len() ==> #[trigger] r@[j] < entries@.len(),
{
    let n = startable.len();
    let mut kept: Vec<usize> = Vec::new();
    let mut i: usize = 0;
    while i < n
        invariant
            n == startable@.len(),
            i <= n,
            kept@ == kept_positions(startable@.take(i as int)),
        decreases n - i,
    {
        assert(startable@.take(i + 1).drop_last() =~= startable@.take(i as int));
        if startable[i] {
            kept.push(i);
        }
        i = i + 1;
    }
    assert(startable@.take(n as int) =~= startable@);
    proof {
        lemma_kept_bounded(startable@);
    }
    let m = kept.len();
    let mut keys: Vec<Vec<char>> = Vec::new();
    let mut k: usize = 0;
    while k < m
        invariant
            m == kept@.len(),
            n == entries@.len(),
            forall|j: int| 0 <= j < m ==> #[trigger] kept@[j] < n,
            k <= m,
            keys@.len() == k,
            forall|j: int| 0 <= j < k ==> (#[trigger] keys@[j])@ == entries@[kept@[j] as int].name@,
        decreases m - k,
    {
        keys.push(chars_of(entries[kept[k]].name.as_str()));
        k = k + 1;
    }
    let order = stable_order(&keys);
    assert(Seq::new(keys@.len(), |j: int| keys@[j]@) =~= Seq::new(kept@.len(), |j: int| entries@[kept@[j] as int].name@));
    let mut r: Vec<usize> = Vec::new();
    let mut j: usize = 0;
    while j < m
        invariant
            m == kept@.len(),
            n == entries@.len(),
            forall|t: int| 0 <= t < m ==> #[trigger] kept@[t] < n,
            is_permutation(order@, m as int),
            j <= m,
            r@.len() == j,
            forall|t: int| 0 <= t < j ==> #[trigger] r@[t] == kept@[order@[t] as int],
        decreases m - j,
    {
        r.push(kept[order[j]]);
        j = j + 1;
    }
    assert(is_startable_order(r@, entries@, startable@));
    r
}

} // verus!
