//! The application board: what it shows, where, and in which order.
use vstd::prelude::*;

use crate::app_group::AppLibraryConfig;
use crate::ids::{has_id, id_list};
use crate::layout::{padded, slots, Slot};
use crate::sort::{is_permutation, is_stable_sorted, stable_order};
use crate::text::{blank, chars_of, contains_text, is_blank, is_substring, lowercase, to_lowercase};

verus! {

/// An installed application, as far as the board needs to know it.
#[derive(Clone, Debug)]
pub struct AppEntry {
    /// The desktop entry ID.
    pub id: String,
    /// The display name.
    pub name: String,
    /// The desktop categories.
    pub categories: Vec<String>,
}

/// The abstract value of an [`AppEntry`].
pub struct AppEntryView {
    pub id: Seq<char>,
    pub name: Seq<char>,
    pub categories: Seq<Seq<char>>,
}

impl View for AppEntry {
    type V = AppEntryView;

    open spec fn view(&self) -> AppEntryView {
        AppEntryView { id: self.id@, name: self.name@, categories: id_list(self.categories@) }
    }
}

/// The state of the board that its layout and search depend on.
pub struct Board {
    pub config: AppLibraryConfig,
    /// The Launchpad page on display.
    pub active_page: usize,
    /// The search text.
    pub search_value: String,
    /// The applications on display, in display order.
    pub entries: Vec<AppEntry>,
    /// The group of each displayed application; `None` is the Launchpad.
    pub entry_groups: Vec<Option<usize>>,
}

/// The side of a tile cell in pixels: the icon plus room for the label, or a
/// smaller margin when labels are hidden.
pub open spec fn cell_size(config: AppLibraryConfig) -> int {
    config.icon_size + if config.show_labels { 72int } else { 24int }
}

/// The distance between the starts of two neighbouring tiles.
pub open spec fn tile_pitch(config: AppLibraryConfig) -> int {
    cell_size(config) + config.tile_gap
}

/// The number of tile columns: the board width (at least 320 pixels) less
/// 96 pixels of padding, divided by the tile pitch and rounded down, and at
/// least two.
pub open spec fn columns(config: AppLibraryConfig) -> int {
    let width = if config.board_width < 320 { 320int } else { config.board_width as int };
    let fit = (width - 96) / tile_pitch(config);
    if fit < 2 { 2 } else { fit }
}

/// The number of empty rows offered below the tiles for dropping: the board
/// height above 600 pixels divided by the tile pitch and rounded down, and at
/// least one.
pub open spec fn extra_rows(config: AppLibraryConfig) -> int {
    let extra = if config.board_height > 600 { config.board_height - 600 } else { 0int };
    let fit = extra / tile_pitch(config);
    if fit < 1 { 1 } else { fit }
}

impl Board {
    /// The side of a tile cell in pixels (see [`cell_size`]).
    pub fn tile_cell_size(&self) -> (r: u32)
        ensures
            r == cell_size(self.config),
    {
        self.config.icon_size as u32 + if self.config.show_labels { 72 } else { 24 }
    }

    /// The number of tile columns (see [`columns`]).
    pub fn effective_columns(&self) -> (r: usize)
        ensures
            r == columns(self.config),
            r >= 2,
    {
        let width: u32 = if self.config.board_width < 320 { 320 } else { self.config.board_width as u32 };
        let pitch = self.tile_cell_size() + self.config.tile_gap as u32;
        let fit = (width - 96) / pitch;
        if fit < 2 { 2 } else { fit as usize }
    }

    /// The number of empty drop rows below the tiles (see [`extra_rows`]).
    pub fn responsive_extra_rows(&self) -> (r: usize)
        ensures
            r == extra_rows(self.config),
            r >= 1,
    {
        let extra: u32 = if self.config.board_height > 600 { self.config.board_height as u32 - 600 } else { 0 };
        let pitch = self.tile_cell_size() + self.config.tile_gap as u32;
        let fit = extra / pitch;
        if fit < 1 { 1 } else { fit as usize }
    }
}


/// The IDs of the entries, in order.
pub open spec fn entry_ids(entries: Seq<AppEntry>) -> Seq<Seq<char>> {
    Seq::new(entries.len(), |i: int| entries[i].id@)
}

/// The first of `indices`, from position `k` on, that names an entry whose
/// ID is `app`.
pub open spec fn match_from(ids: Seq<Seq<char>>, indices: Seq<usize>, app: Seq<char>, k: int) -> Option<usize>
    decreases indices.len() - k,
{
    if k < 0 || k >= indices.len() {
        None
    } else if indices[k] < ids.len() && ids[indices[k] as int] == app {
        Some(indices[k])
    } else {
        match_from(ids, indices, app, k + 1)
    }
}

/// The entry index each slot of `layout` shows: the first of `indices` whose
/// entry has the slot's ID.
pub open spec fn layout_matches(layout: Seq<Slot>, ids: Seq<Seq<char>>, indices: Seq<usize>) -> Seq<Option<usize>> {
    Seq::new(layout.len(), |s: int| match layout[s] {
        Some(app) => match_from(ids, indices, app, 0),
        None => None,
    })
}

/// The indices, in order, that no slot shows.
pub open spec fn unplaced(indices: Seq<usize>, shown: Seq<Option<usize>>) -> Seq<Option<usize>>
    decreases indices.len(),
{
    if indices.len() == 0 {
        Seq::empty()
    } else if shown.contains(Some(indices.last())) {
        unplaced(indices.drop_last(), shown)
    } else {
        unplaced(indices.drop_last(), shown).push(Some(indices.last()))
    }
}

/// The number of cells of a grid of `columns` columns that holds `n` cells
/// in at least one row, plus `extra` empty rows.
pub open spec fn grid_cells(n: int, columns: int, extra: int) -> int {
    let rows = if n % columns == 0 { n / columns } else { n / columns + 1 };
    ((if rows < 1 { 1 } else { rows }) + extra) * columns
}

/// The cells of the board grid, each showing an entry index or nothing.
///
/// While searching, the matches are shown one after another. Otherwise each
/// slot of `layout` shows its application if it is among `indices`, the
/// other `indices` follow, and empty cells complete the grid and add `extra`
/// rows.
pub open spec fn arranged(
    layout: Seq<Slot>,
    ids: Seq<Seq<char>>,
    indices: Seq<usize>,
    searching: bool,
    columns: int,
    extra: int,
) -> Seq<Option<usize>> {
    if searching {
        Seq::new(indices.len(), |i: int| Some(indices[i]))
    } else {
        let shown = layout_matches(layout, ids, indices);
        let cells = shown + unplaced(indices, shown);
        padded(cells, grid_cells(cells.len() as int, columns, extra))
    }
}

/// The first of `indices` that names an entry whose ID is `app`.
fn first_match(entries: &Vec<AppEntry>, indices: &[usize], app: &String) -> (r: Option<usize>)
    ensures
        r == match_from(entry_ids(entries@), indices@, app@, 0),
{
    let ghost ids = entry_ids(entries@);
    let n = indices.len();
    let mut k: usize = 0;
    while k < n
        invariant
            n == indices@.len(),
            ids == entry_ids(entries@),
            k <= n,
            match_from(ids, indices@, app@, 0) == match_from(ids, indices@, app@, k as int),
        decreases n - k,
    {
        let index = indices[k];
        if index < entries.len() && entries[index].id == *app {
            return Some(index);
        }
        k = k + 1;
    }
    None
}

/// Whether `cells` shows entry `index`.
fn shows(cells: &Vec<Option<usize>>, index: usize) -> (r: bool)
    ensures
        r == cells@.contains(Some(index)),
{
    let n = cells.len();
    let mut i: usize = 0;
    while i < n
        invariant
            n == cells@.len(),
            i <= n,
            forall|j: int| 0 <= j < i ==> cells@[j] != Some(index),
        decreases n - i,
    {
        if cells[i] == Some(index) {
            assert(cells@[i as int] == Some(index));
            return true;
        }
        i = i + 1;
    }
    false
}

impl Board {
    /// The layout that `group` uses on the board: the active Launchpad page
    /// for `None`, the group's layout (see [`AppLibraryConfig::layout`])
    /// otherwise.
    pub open spec fn board_layout(self, group: Option<usize>) -> Seq<Slot> {
        match group {
            None => self.config.page_slot_view(self.active_page as int),
            Some(g) => self.config.group_slots()[self.config.layout_index(Some(g))],
        }
    }

    /// Whether the search text is non-empty.
    pub open spec fn searching(self) -> bool {
        self.search_value@.len() > 0
    }

    /// The cells of the board grid for `group` (see [`arranged`]).
    pub fn spatial_slots(&self, group: Option<usize>, indices: &[usize]) -> (r: Vec<Option<usize>>)
        requires
            self.searching() || grid_cells(
                (layout_matches(self.board_layout(group), entry_ids(self.entries@), indices@).len()
                    + unplaced(indices@, layout_matches(self.board_layout(group), entry_ids(self.entries@), indices@)).len()) as int,
                columns(self.config),
                extra_rows(self.config),
            ) <= usize::MAX,
        ensures
            r@ == arranged(
                self.board_layout(group),
                entry_ids(self.entries@),
                indices@,
                self.searching(),
                columns(self.config),
                extra_rows(self.config),
            ),
    {
        let columns = self.effective_columns();
        let extra = self.responsive_extra_rows();
        if !self.search_value.as_str().is_empty() {
            let mut r: Vec<Option<usize>> = Vec::new();
            let n = indices.len();
            let mut i: usize = 0;
            while i < n
                invariant
                    n == indices@.len(),
                    i <= n,
                    r@ == Seq::new(i as nat, |j: int| Some(indices@[j])),
                decreases n - i,
            {
                r.push(Some(indices[i]));
                assert(r@ =~= Seq::new((i + 1) as nat, |j: int| Some(indices@[j])));
                i = i + 1;
            }
            return r;
        }
        let layout = match group {
            None => self.config.page_layout(self.active_page),
            Some(g) => self.config.layout(Some(g)),
        };
        let ghost l = slots(layout@);
        let ghost ids = entry_ids(self.entries@);
        let ghost shown_spec = layout_matches(l, ids, indices@);
        let mut cells: Vec<Option<usize>> = Vec::new();
        let n = layout.len();
        let mut s: usize = 0;
        while s < n
            invariant
                n == layout@.len(),
                l == slots(layout@),
                ids == entry_ids(self.entries@),
                shown_spec == layout_matches(l, ids, indices@),
                s <= n,
                cells@ == shown_spec.take(s as int),
            decreases n - s,
        {
            let cell = match &layout[s] {
                Some(app) => first_match(&self.entries, indices, app),
                None => None,
            };
            cells.push(cell);
            assert(cells@ =~= shown_spec.take(s + 1));
            s = s + 1;
        }
        assert(shown_spec.take(n as int) =~= shown_spec);
        let shown = cells.clone();
        assert(shown@ =~= shown_spec);
        let m = indices.len();
        let mut k: usize = 0;
        while k < m
            invariant
                m == indices@.len(),
                k <= m,
                shown@ == shown_spec,
                cells@ == shown_spec + unplaced(indices@.take(k as int), shown_spec),
            decreases m - k,
        {
            assert(indices@.take(k + 1).drop_last() =~= indices@.take(k as int));
            assert(indices@.take(k + 1).last() == indices@[k as int]);
            if !shows(&shown, indices[k]) {
                cells.push(Some(indices[k]));
            }
            assert(cells@ =~= shown_spec + unplaced(indices@.take(k + 1), shown_spec));
            k = k + 1;
        }
        assert(indices@.take(m as int) =~= indices@);
        let ghost full = cells@;
        let count = cells.len();
        assert(count / columns < usize::MAX) by (nonlinear_arith)
            requires
                columns >= 2,
        {
            assert(count / columns <= count / 2);
        }
        let filled = if count % columns == 0 { count / columns } else { count / columns + 1 };
        let rows = if filled < 1 { 1 } else { filled };
        assert(filled * columns >= count) by (nonlinear_arith)
            requires
                columns > 0,
                count % columns == 0 ==> filled == count / columns,
                count % columns != 0 ==> filled == count / columns + 1,
        {
            assert(count == columns * (count / columns) + count % columns);
        }
        assert(rows * columns >= filled * columns) by (nonlinear_arith)
            requires
                columns > 0,
                rows >= filled,
        ;
        assert((rows + extra) * columns >= rows * columns) by (nonlinear_arith)
            requires
                columns > 0,
                extra >= 1,
        ;
        assert(!self.searching());
        assert(count == (shown_spec + unplaced(indices@, shown_spec)).len());
        assert(grid_cells(count as int, columns as int, extra as int) == (rows + extra) * columns);
        assert(rows + extra <= (rows + extra) * columns) by (nonlinear_arith)
            requires
                columns >= 1,
                rows + extra >= 0,
        ;
        let target = (rows + extra) * columns;
        assert(target >= count);
        while cells.len() < target
            invariant
                cells@ == padded(full, cells@.len() as int),
                cells@.len() >= full.len(),
                cells@.len() <= target,
                full.len() <= target,
            decreases target - cells@.len(),
        {
            cells.push(None);
            assert(padded(full, cells@.len() as int) =~= padded(full, cells@.len() - 1).push(None));
        }
        assert(padded(full, cells@.len() as int) =~= padded(full, target as int));
        cells
    }
}

/// The first entry, from position `i` on, whose ID is `app`.
pub open spec fn entry_from(ids: Seq<Seq<char>>, app: Seq<char>, i: int) -> Option<usize>
    decreases ids.len() - i,
{
    if i < 0 || i >= ids.len() {
        None
    } else if ids[i] == app {
        Some(i as usize)
    } else {
        entry_from(ids, app, i + 1)
    }
}

/// For each application of `layout`, in slot order, the first entry with its
/// ID; applications without an entry are skipped.
pub open spec fn pinned_positions(layout: Seq<Slot>, ids: Seq<Seq<char>>) -> Seq<usize>
    decreases layout.len(),
{
    if layout.len() == 0 {
        Seq::empty()
    } else {
        let before = pinned_positions(layout.drop_last(), ids);
        match layout.last() {
            Some(app) => match entry_from(ids, app, 0) {
                Some(p) => before.push(p),
                None => before,
            },
            None => before,
        }
    }
}

/// The entries, in order, whose group is `group`.
pub open spec fn members(groups: Seq<Option<usize>>, group: Option<usize>) -> Seq<usize>
    decreases groups.len(),
{
    if groups.len() == 0 {
        Seq::empty()
    } else if groups.last() == group {
        members(groups.drop_last(), group).push((groups.len() - 1) as usize)
    } else {
        members(groups.drop_last(), group)
    }
}

/// The IDs shown by the cells of a grid; a cell naming no entry is a gap.
pub open spec fn cell_ids(cells: Seq<Option<usize>>, ids: Seq<Seq<char>>) -> Seq<Slot> {
    Seq::new(cells.len(), |i: int| match cells[i] {
        Some(x) => if x < ids.len() { Some(ids[x as int]) } else { None },
        None => None,
    })
}

/// The first entry whose ID is `app`.
fn entry_position(entries: &Vec<AppEntry>, app: &String) -> (r: Option<usize>)
    ensures
        r == entry_from(entry_ids(entries@), app@, 0),
{
    let ghost ids = entry_ids(entries@);
    let n = entries.len();
    let mut i: usize = 0;
    while i < n
        invariant
            n == entries@.len(),
            ids == entry_ids(entries@),
            i <= n,
            entry_from(ids, app@, 0) == entry_from(ids, app@, i as int),
        decreases n - i,
    {
        if entries[i].id == *app {
            return Some(i);
        }
        i = i + 1;
    }
    None
}

impl Board {
    /// The grid for `group` and `indices` fits in memory.
    pub open spec fn fits_grid(self, group: Option<usize>, indices: Seq<usize>) -> bool {
        let shown = layout_matches(self.board_layout(group), entry_ids(self.entries@), indices);
        self.searching() || grid_cells(
            (shown.len() + unplaced(indices, shown).len()) as int,
            columns(self.config),
            extra_rows(self.config),
        ) <= usize::MAX
    }

    /// The layout that `group` shows right now (see [`Self::layout_snapshot`]):
    /// the IDs of the board grid for the entries of [`Self::snapshot_indices`],
    /// without trailing gaps.
    pub open spec fn snapshot_view(self, group: Option<usize>) -> Seq<Slot> {
        crate::layout::trim_trailing(cell_ids(
            arranged(
                self.board_layout(group),
                entry_ids(self.entries@),
                self.snapshot_indices(group),
                self.searching(),
                columns(self.config),
                extra_rows(self.config),
            ),
            entry_ids(self.entries@),
        ))
    }

    /// The entries that a layout snapshot of `group` arranges: those pinned
    /// to the active page for `None`, the group's members otherwise.
    pub open spec fn snapshot_indices(self, group: Option<usize>) -> Seq<usize> {
        if group is None {
            pinned_positions(self.config.page_slot_view(self.active_page as int), entry_ids(self.entries@))
        } else {
            members(self.entry_groups@, group)
        }
    }

    /// The entries pinned to the active page, in slot order (see
    /// [`pinned_positions`]).
    pub fn pinned_indices(&self) -> (r: Vec<usize>)
        ensures
            r@ == pinned_positions(self.config.page_slot_view(self.active_page as int), entry_ids(self.entries@)),
    {
        let layout = self.config.page_layout(self.active_page);
        let ghost l = slots(layout@);
        let ghost ids = entry_ids(self.entries@);
        let mut r: Vec<usize> = Vec::new();
        let n = layout.len();
        let mut i: usize = 0;
        while i < n
            invariant
                n == layout@.len(),
                l == slots(layout@),
                ids == entry_ids(self.entries@),
                i <= n,
                r@ == pinned_positions(l.take(i as int), ids),
            decreases n - i,
        {
            assert(l.take(i + 1).drop_last() =~= l.take(i as int));
            match &layout[i] {
                Some(app) => match entry_position(&self.entries, app) {
                    Some(p) => r.push(p),
                    None => {},
                },
                None => {},
            }
            i = i + 1;
        }
        assert(l.take(n as int) =~= l);
        r
    }

    /// The entries, in order, whose group is `group`.
    fn group_members(&self, group: Option<usize>) -> (r: Vec<usize>)
        ensures
            r@ == members(self.entry_groups@, group),
    {
        let mut r: Vec<usize> = Vec::new();
        let n = self.entry_groups.len();
        let mut i: usize = 0;
        while i < n
            invariant
                n == self.entry_groups@.len(),
                i <= n,
                r@ == members(self.entry_groups@.take(i as int), group),
            decreases n - i,
        {
            assert(self.entry_groups@.take(i + 1).drop_last() =~= self.entry_groups@.take(i as int));
            if self.entry_groups[i] == group {
                r.push(i);
            }
            i = i + 1;
        }
        assert(self.entry_groups@.take(n as int) =~= self.entry_groups@);
        r
    }

    /// The layout that `group` shows right now, as a list of IDs with gaps
    /// and without trailing gaps: the board grid for the entries of
    /// [`Self::snapshot_indices`].
    pub fn layout_snapshot(&self, group: Option<usize>) -> (r: Vec<Option<String>>)
        requires
            self.fits_grid(group, self.snapshot_indices(group)),
        ensures
            slots(r@) == self.snapshot_view(group),
    {
        let indices = if group.is_none() {
            self.pinned_indices()
        } else {
            self.group_members(group)
        };
        let cells = self.spatial_slots(group, indices.as_slice());
        let ghost ids = entry_ids(self.entries@);
        let mut layout: Vec<Option<String>> = Vec::new();
        let n = cells.len();
        let mut i: usize = 0;
        while i < n
            invariant
                n == cells@.len(),
                ids == entry_ids(self.entries@),
                i <= n,
                slots(layout@) == cell_ids(cells@, ids).take(i as int),
            decreases n - i,
        {
            let id = match cells[i] {
                Some(x) => if x < self.entries.len() {
                    Some(self.entries[x].id.clone())
                } else {
                    None
                },
                None => None,
            };
            proof {
                if let Some(x) = cells@[i as int] {
                    if x < ids.len() {
                        assert(ids[x as int] == self.entries@[x as int].id@);
                    }
                }
                assert(match id { Some(s) => Some(s@), None => None } == cell_ids(cells@, ids)[i as int]);
            }
            let ghost before = slots(layout@);
            layout.push(id);
            assert(slots(layout@) =~= before.push(cell_ids(cells@, ids)[i as int]));
            assert(slots(layout@) =~= cell_ids(cells@, ids).take(i + 1));
            i = i + 1;
        }
        assert(cell_ids(cells@, ids).take(n as int) =~= cell_ids(cells@, ids));
        crate::layout::trim(&mut layout);
        layout
    }
}

/// The entry matches the lower-case query `q`: the query is empty, or it
/// occurs in the lower-case name or in the lower-case form of a category.
pub open spec fn entry_matches(e: AppEntryView, q: Seq<char>) -> bool {
    q.len() == 0 || is_substring(q, lowercase(e.name))
        || exists|c: int| 0 <= c < e.categories.len() && is_substring(q, lowercase(#[trigger] e.categories[c]))
}

/// The positions of the entries that match `q`, in order.
pub open spec fn hits(entries: Seq<AppEntryView>, q: Seq<char>) -> Seq<usize>
    decreases entries.len(),
{
    if entries.len() == 0 {
        Seq::empty()
    } else if entry_matches(entries.last(), q) {
        hits(entries.drop_last(), q).push((entries.len() - 1) as usize)
    } else {
        hits(entries.drop_last(), q)
    }
}

/// The abstract values of a list of entries.
pub open spec fn entry_views(entries: Seq<AppEntry>) -> Seq<AppEntryView> {
    Seq::new(entries.len(), |i: int| entries[i]@)
}

/// `result` is the search result for `query` over `all`: the matching
/// entries, ordered by lower-case name, entries with equal lower-case names in
/// their order in `all`.
pub open spec fn is_search_result(result: Seq<AppEntryView>, all: Seq<AppEntryView>, query: Seq<char>) -> bool {
    let found = hits(all, lowercase(query));
    exists|order: Seq<usize>| {
        &&& is_permutation(order, found.len() as int)
        &&& is_stable_sorted(order, Seq::new(found.len(), |i: int| lowercase(all[found[i] as int].name)))
        &&& result.len() == found.len()
        &&& forall|i: int| 0 <= i < result.len() ==> #[trigger] result[i] == all[found[order[i] as int] as int]
    }
}

/// A copy of a list of IDs.
fn copy_ids(v: &Vec<String>) -> (r: Vec<String>)
    ensures
        id_list(r@) == id_list(v@),
{
    let mut r: Vec<String> = Vec::new();
    let n = v.len();
    let mut i: usize = 0;
    while i < n
        invariant
            n == v@.len(),
            i <= n,
            id_list(r@) == id_list(v@).take(i as int),
        decreases n - i,
    {
        let ghost before = id_list(r@);
        r.push(v[i].clone());
        assert(id_list(r@) =~= before.push(v@[i as int]@));
        assert(id_list(r@) =~= id_list(v@).take(i + 1));
        i = i + 1;
    }
    assert(id_list(v@).take(n as int) =~= id_list(v@));
    r
}

/// A copy of an entry.
fn copy_entry(e: &AppEntry) -> (r: AppEntry)
    ensures
        r@ == e@,
{
    AppEntry { id: e.id.clone(), name: e.name.clone(), categories: copy_ids(&e.categories) }
}

/// Whether `e` matches the lower-case query `q`.
fn matches_query(e: &AppEntry, q: &Vec<char>) -> (r: bool)
    ensures
        r == entry_matches(e@, q@),
{
    if q.len() == 0 {
        return true;
    }
    let name = chars_of(to_lowercase(e.name.as_str()).as_str());
    if contains_text(&name, q) {
        return true;
    }
    let n = e.categories.len();
    let mut c: usize = 0;
    while c < n
        invariant
            n == e.categories@.len(),
            c <= n,
            forall|j: int| 0 <= j < c ==> !is_substring(q@, lowercase(#[trigger] e@.categories[j])),
        decreases n - c,
    {
        let category = chars_of(to_lowercase(e.categories[c].as_str()).as_str());
        if contains_text(&category, q) {
            assert(is_substring(q@, lowercase(e@.categories[c as int])));
            return true;
        }
        c = c + 1;
    }
    false
}

/// `positions` lists the entries of `all` that match `query`, ordered by
/// lower-case name, entries with equal lower-case names in their order in
/// `all`.
pub open spec fn is_search_order(positions: Seq<usize>, all: Seq<AppEntryView>, query: Seq<char>) -> bool {
    let found = hits(all, lowercase(query));
    exists|order: Seq<usize>| {
        &&& is_permutation(order, found.len() as int)
        &&& is_stable_sorted(order, Seq::new(found.len(), |i: int| lowercase(all[found[i] as int].name)))
        &&& positions.len() == found.len()
        &&& forall|i: int| 0 <= i < positions.len() ==> #[trigger] positions[i] == found[order[i] as int]
    }
}

impl Board {
    /// The positions in `all_entries` of the entries that match the search
    /// text `input`, in the order the board shows them (see
    /// [`is_search_order`]).
    pub fn search_positions(input: &str, all_entries: &[AppEntry]) -> (r: Vec<usize>)
        ensures
            is_search_order(r@, entry_views(all_entries@), input@),
            forall|i: int| 0 <= i < r@.len() ==> #[trigger] r@[i] < all_entries@.len(),
    {
        let q = chars_of(to_lowercase(input).as_str());
        let ghost all = entry_views(all_entries@);
        let mut found: Vec<usize> = Vec::new();
        let n = all_entries.len();
        let mut i: usize = 0;
        while i < n
            invariant
                n == all_entries@.len(),
                all == entry_views(all_entries@),
                q@ == lowercase(input@),
                i <= n,
                found@ == hits(all.take(i as int), q@),
            decreases n - i,
        {
            assert(all.take(i + 1).drop_last() =~= all.take(i as int));
            assert(all.take(i + 1).last() == all_entries@[i as int]@);
            if matches_query(&all_entries[i], &q) {
                found.push(i);
            }
            i = i + 1;
        }
        assert(all.take(n as int) =~= all);
        proof {
            lemma_hits_bounded(all, q@);
        }
        let mut keys: Vec<Vec<char>> = Vec::new();
        let m = found.len();
        let mut k: usize = 0;
        while k < m
            invariant
                m == found@.len(),
                n == all_entries@.len(),
                all == entry_views(all_entries@),
                forall|j: int| 0 <= j < m ==> #[trigger] found@[j] < n,
                k <= m,
                keys@.len() == k,
                forall|j: int| 0 <= j < k ==> (#[trigger] keys@[j])@ == lowercase(all[found@[j] as int].name),
            decreases m - k,
        {
            keys.push(chars_of(to_lowercase(all_entries[found[k]].name.as_str()).as_str()));
            k = k + 1;
        }
        let order = stable_order(&keys);
        let ghost ks = Seq::new(keys@.len(), |j: int| keys@[j]@);
        assert(ks =~= Seq::new(found@.len(), |j: int| lowercase(all[found@[j] as int].name)));
        let mut result: Vec<usize> = Vec::new();
        let mut j: usize = 0;
        while j < m
            invariant
                m == found@.len(),
                n == all_entries@.len(),
                forall|t: int| 0 <= t < m ==> #[trigger] found@[t] < n,
                is_permutation(order@, m as int),
                j <= m,
                result@.len() == j,
                forall|t: int| 0 <= t < j ==> #[trigger] result@[t] == found@[order@[t] as int],
            decreases m - j,
        {
            result.push(found[order[j]]);
            j = j + 1;
        }
        assert(is_search_order(result@, all, input@));
        result
    }

    /// The entries that match the search text `input` and the group of each,
    /// which is always the Launchpad (see [`is_search_result`]).
    pub fn board_entries(
        config: &AppLibraryConfig,
        input: &str,
        all_entries: &[AppEntry],
    ) -> (r: (Vec<AppEntry>, Vec<Option<usize>>))
        ensures
            is_search_result(entry_views(r.0@), entry_views(all_entries@), input@),
            r.1@ == Seq::new(r.0@.len(), |i: int| None::<usize>),
    {
        let positions = Board::search_positions(input, all_entries);
        let ghost all = entry_views(all_entries@);
        let mut result: Vec<AppEntry> = Vec::new();
        let mut groups: Vec<Option<usize>> = Vec::new();
        let m = positions.len();
        let mut j: usize = 0;
        while j < m
            invariant
                m == positions@.len(),
                all == entry_views(all_entries@),
                forall|t: int| 0 <= t < m ==> #[trigger] positions@[t] < all_entries@.len(),
                j <= m,
                result@.len() == j,
                groups@ == Seq::new(j as nat, |t: int| None::<usize>),
                forall|t: int| 0 <= t < j ==> (#[trigger] result@[t])@ == all[positions@[t] as int],
            decreases m - j,
        {
            let e = copy_entry(&all_entries[positions[j]]);
            result.push(e);
            groups.push(None);
            assert(groups@ =~= Seq::new((j + 1) as nat, |t: int| None::<usize>));
            j = j + 1;
        }
        proof {
            let views = entry_views(result@);
            let found = hits(all, lowercase(input@));
            let order = choose|order: Seq<usize>| {
                &&& is_permutation(order, found.len() as int)
                &&& is_stable_sorted(order, Seq::new(found.len(), |i: int| lowercase(all[found[i] as int].name)))
                &&& positions@.len() == found.len()
                &&& forall|i: int| 0 <= i < positions@.len() ==> #[trigger] positions@[i] == found[order[i] as int]
            };
            assert forall|t: int| 0 <= t < views.len() implies #[trigger] views[t] == all[found[order[t] as int] as int] by {
                assert(views[t] == result@[t]@);
                assert(positions@[t] == found[order[t] as int]);
            }
        }
        (result, groups)
    }
}

proof fn lemma_hits_bounded(entries: Seq<AppEntryView>, q: Seq<char>)
    ensures
        forall|j: int| 0 <= j < hits(entries, q).len() ==> #[trigger] hits(entries, q)[j] < entries.len(),
    decreases entries.len(),
{
    if entries.len() > 0 {
        lemma_hits_bounded(entries.drop_last(), q);
        let h = hits(entries, q);
        let prev = hits(entries.drop_last(), q);
        assert forall|j: int| 0 <= j < h.len() implies #[trigger] h[j] < entries.len() by {
            if j < prev.len() {
                assert(h[j] == prev[j]);
            }
        }
    }
}

impl AppLibraryConfig {
    /// Some Launchpad page holds `id`.
    pub open spec fn on_some_page(self, id: Seq<char>) -> bool {
        exists|k: int| 0 <= k < self.spec_page_count() && crate::layout::holds(#[trigger] self.page_slots()[k], id)
    }

    /// Whether some Launchpad page holds `id`.
    pub fn is_pinned(&self, id: &String) -> (r: bool)
        ensures
            r == self.on_some_page(id@),
    {
        let ghost ls = self.page_slots();
        if let Some(s) = crate::layout::find_id(self.home_layout.as_slice(), id) {
            proof {
                crate::layout::lemma_position_from(ls[0], id@, 0);
                assert(crate::layout::holds(ls[0], id@));
            }
            return true;
        }
        proof {
            crate::layout::lemma_position_from(ls[0], id@, 0);
        }
        let n = self.launchpad_pages.len();
        let mut k: usize = 0;
        while k < n
            invariant
                n == self.launchpad_pages@.len(),
                ls == self.page_slots(),
                k <= n,
                forall|j: int| 0 <= j <= k ==> !crate::layout::holds(#[trigger] ls[j], id@),
            decreases n - k,
        {
            assert(ls[k + 1] == slots(self.launchpad_pages@[k as int].layout@));
            let found = crate::layout::find_id(self.launchpad_pages[k].layout.as_slice(), id);
            proof {
                crate::layout::lemma_position_from(ls[k + 1], id@, 0);
            }
            if found.is_some() {
                assert(crate::layout::holds(ls[k + 1], id@));
                return true;
            }
            k = k + 1;
        }
        false
    }
}

impl AppLibraryConfig {
    /// Whether `page` holds `id`; a page that does not exist holds nothing.
    pub fn is_on_page(&self, page: usize, id: &String) -> (r: bool)
        ensures
            r == crate::layout::holds(self.page_slot_view(page as int), id@),
    {
        let layout = self.page_layout(page);
        let found = crate::layout::find_id(layout, id);
        proof {
            crate::layout::lemma_position_from(slots(layout@), id@, 0);
        }
        found.is_some()
    }
}

impl Board {
    /// The search text holds something other than white space.
    pub open spec fn search_active(self) -> bool {
        !is_blank(self.search_value@)
    }

    /// Entry `i` belongs under Other Apps: it is not on the active page and,
    /// unless a search is active, it is on no page and not hidden.
    pub open spec fn in_other_apps(self, i: int) -> bool {
        let id = self.entries@[i].id@;
        &&& !crate::layout::holds(self.config.page_slot_view(self.active_page as int), id)
        &&& (self.search_active() || (!self.config.on_some_page(id)
            && !has_id(id_list(self.config.hidden_apps@), id)))
    }

    /// The entries, in order, among the first `n` that belong under Other Apps.
    pub open spec fn other_apps_upto(self, n: int) -> Seq<usize>
        decreases n,
    {
        if n <= 0 {
            Seq::empty()
        } else if self.in_other_apps(n - 1) {
            self.other_apps_upto(n - 1).push((n - 1) as usize)
        } else {
            self.other_apps_upto(n - 1)
        }
    }

    /// The entries shown under Other Apps, in order.
    pub fn other_app_indices(&self) -> (r: Vec<usize>)
        ensures
            r@ == self.other_apps_upto(self.entries@.len() as int),
    {
        let searching = !blank(self.search_value.as_str());
        let layout = self.config.page_layout(self.active_page);
        let mut r: Vec<usize> = Vec::new();
        let n = self.entries.len();
        let mut i: usize = 0;
        while i < n
            invariant
                n == self.entries@.len(),
                searching == self.search_active(),
                slots(layout@) == self.config.page_slot_view(self.active_page as int),
                i <= n,
                r@ == self.other_apps_upto(i as int),
            decreases n - i,
        {
            let id = &self.entries[i].id;
            let on_active_page = crate::layout::find_id(layout, id).is_some();
            proof {
                crate::layout::lemma_position_from(slots(layout@), id@, 0);
            }
            let show = !on_active_page && (searching || (!self.config.is_pinned(id) && !self.config.is_hidden(id.as_str())));
            if show {
                r.push(i);
            }
            i = i + 1;
        }
        r
    }
}

impl Default for Board {
    /// A board with the default configuration, on the first page, with no
    /// search and no applications.
    fn default() -> (r: Self)
        ensures
            crate::app_group::is_default_config(r.config),
            r.active_page == 0,
            r.search_value@.len() == 0,
            r.entries@.len() == 0,
            r.entry_groups@.len() == 0,
    {
        Board {
            config: AppLibraryConfig::default(),
            active_page: 0,
            search_value: String::new(),
            entries: Vec::new(),
            entry_groups: Vec::new(),
        }
    }
}
} // verus!
