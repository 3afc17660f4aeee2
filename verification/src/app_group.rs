//! The launcher's persistent configuration: application groups, the
//! Launchpad pages with their spatial tile layouts, hidden applications and
//! the board settings.
use vstd::prelude::*;

use crate::ids::{has_id, id_list, push_absent, retain_other, contains_id, retain_other_ids};
use crate::layout::{
    trim_trailing, clear_id, dropped, find_gap, find_id, position_of, put, put_at, same_id, slot_at, slots,
    trim, without, Slot,
};

verus! {

/// How a group selects its applications.
#[derive(Clone, Debug, PartialEq, Eq, Hash)]
pub enum FilterType {
    /// The application IDs that make up the group.
    AppIds(Vec<String>),
    Categories {
        categories: Vec<String>,
        /// The ID of applications which may not match the categories, but should be included anyway.
        exclude: Vec<String>,
        /// The ID of applications which should be excluded from the results.
        included: Vec<String>,
    },
    /// No filter is applied.
    /// This is intended for use with Home.
    NoFilter,
}

/// The abstract value of a [`FilterType`].
pub enum FilterView {
    AppIds(Seq<Seq<char>>),
    Categories { categories: Seq<Seq<char>>, exclude: Seq<Seq<char>>, included: Seq<Seq<char>> },
    NoFilter,
}

impl View for FilterType {
    type V = FilterView;

    open spec fn view(&self) -> FilterView {
        match self {
            FilterType::AppIds(ids) => FilterView::AppIds(id_list(ids@)),
            FilterType::Categories { categories, exclude, included } => FilterView::Categories {
                categories: id_list(categories@),
                exclude: id_list(exclude@),
                included: id_list(included@),
            },
            FilterType::NoFilter => FilterView::NoFilter,
        }
    }
}

/// The filter after `id` was taken out of its group: it leaves an ID list; a
/// category filter stops including it anyway (`exclude`) and lists it last
/// among the applications excluded from the results (`included`).
pub open spec fn filter_without_entry(f: FilterView, id: Seq<char>) -> FilterView {
    match f {
        FilterView::AppIds(ids) => FilterView::AppIds(retain_other(ids, id)),
        FilterView::Categories { categories, exclude, included } => FilterView::Categories {
            categories,
            exclude: retain_other(exclude, id),
            included: retain_other(included, id).push(id),
        },
        FilterView::NoFilter => FilterView::NoFilter,
    }
}

/// The filter after `id` was put into its group: an ID list gains it once; a
/// category filter stops excluding it from the results (`included`) and
/// lists it last among the applications included anyway (`exclude`).
pub open spec fn filter_with_entry(f: FilterView, id: Seq<char>) -> FilterView {
    match f {
        FilterView::AppIds(ids) => FilterView::AppIds(push_absent(ids, id)),
        FilterView::Categories { categories, exclude, included } => FilterView::Categories {
            categories,
            exclude: retain_other(exclude, id).push(id),
            included: retain_other(included, id),
        },
        FilterView::NoFilter => FilterView::NoFilter,
    }
}

/// The filter after `id` was moved to the ungrouped home section: an ID list
/// loses it; a category filter stops including it anyway (`exclude`) and
/// excludes it from the results once (`included`).
pub open spec fn filter_released(f: FilterView, id: Seq<char>) -> FilterView {
    match f {
        FilterView::AppIds(ids) => FilterView::AppIds(retain_other(ids, id)),
        FilterView::Categories { categories, exclude, included } => FilterView::Categories {
            categories,
            exclude: retain_other(exclude, id),
            included: push_absent(included, id),
        },
        FilterView::NoFilter => FilterView::NoFilter,
    }
}

/// A named group of applications with its own spatial layout.
#[derive(Clone, Debug, PartialEq, Eq, Hash)]
pub struct AppGroup {
    pub name: String,
    pub icon: String,
    pub filter: FilterType,
    /// App IDs in user-chosen tile slots. Empty entries are intentional gaps.
    pub layout: Vec<Option<String>>,
}

/// An additional Launchpad page.
#[derive(Clone, Debug, PartialEq, Eq, Hash)]
pub struct LaunchpadPage {
    pub name: String,
    /// App IDs in user-chosen tile slots. Empty entries are intentional gaps.
    pub layout: Vec<Option<String>>,
}

/// The persistent configuration of the application board.
#[derive(Debug, Clone)]
pub struct AppLibraryConfig {
    pub groups: Vec<AppGroup>,
    /// Icon size in logical pixels. The surrounding tile scales with it.
    pub icon_size: u16,
    /// Persistent spatial layout for apps that are not in a named group.
    pub home_layout: Vec<Option<String>>,
    /// Additional spatial Launchpad pages. `home_layout` remains the first page
    /// so existing installations upgrade without losing their arrangement.
    pub launchpad_pages: Vec<LaunchpadPage>,
    pub home_page_name: String,
    /// Apps intentionally omitted from Other Apps. They remain searchable.
    pub hidden_apps: Vec<String>,
    pub board_width: u16,
    pub board_height: u16,
    pub tile_gap: u16,
    pub show_labels: bool,
    pub show_tooltips: bool,
    pub kinetic_scrolling: bool,
    /// Percentage of the final finger-driven movement carried into the coast.
    pub momentum_strength: u16,
    /// Percentage of the standard coast duration.
    pub scroll_glide: u16,
    /// Delay before the app infers that the fingers have lifted from the trackpad.
    pub release_delay_ms: u16,
}

/// The Launchpad pages after `id` is dropped onto `slot` of `page`: `id`
/// leaves every page, and the page it is dropped on becomes [`dropped`], with
/// the displaced application going back to where `id` was on that page.
pub open spec fn pages_after_drop(pages: Seq<Seq<Slot>>, page: int, slot: int, id: Seq<char>) -> Seq<Seq<Slot>> {
    Seq::new(pages.len(), |k: int| if k == page {
        dropped(pages[k], slot, id, position_of(pages[k], id))
    } else {
        without(pages[k], id)
    })
}

impl AppLibraryConfig {
    /// The layouts of the Launchpad pages: the home layout first, then each
    /// additional page in order.
    pub open spec fn page_slots(self) -> Seq<Seq<Slot>> {
        seq![slots(self.home_layout@)] + Seq::new(
            self.launchpad_pages@.len(),
            |k: int| slots(self.launchpad_pages@[k].layout@),
        )
    }

    /// The number of Launchpad pages.
    pub open spec fn spec_page_count(self) -> nat {
        self.launchpad_pages@.len() + 1
    }

    /// The layout shown for `page`; a page that does not exist shows nothing.
    pub open spec fn page_slot_view(self, page: int) -> Seq<Slot> {
        if 0 <= page < self.spec_page_count() {
            self.page_slots()[page]
        } else {
            Seq::empty()
        }
    }

    /// Everything but the layouts is the same in both configurations.
    pub open spec fn same_except_layouts(self, other: Self) -> bool {
        &&& self.same_settings(other)
        &&& self.hidden_apps@ == other.hidden_apps@
        &&& self.home_page_name@ == other.home_page_name@
        &&& self.launchpad_pages.len() == other.launchpad_pages.len()
        &&& forall|k: int| 0 <= k < self.launchpad_pages.len()
            ==> #[trigger] self.launchpad_pages@[k].name == other.launchpad_pages@[k].name
    }

    /// The board settings are the same in both configurations.
    pub open spec fn same_settings(self, other: Self) -> bool {
        &&& self.icon_size == other.icon_size
        &&& self.board_width == other.board_width
        &&& self.board_height == other.board_height
        &&& self.tile_gap == other.tile_gap
        &&& self.show_labels == other.show_labels
        &&& self.show_tooltips == other.show_tooltips
        &&& self.kinetic_scrolling == other.kinetic_scrolling
        &&& self.momentum_strength == other.momentum_strength
        &&& self.scroll_glide == other.scroll_glide
        &&& self.release_delay_ms == other.release_delay_ms
    }

    /// The configuration's format version.
    pub fn version() -> (r: u64)
        ensures
            r == 1,
    {
        1
    }

    /// The number of Launchpad pages: the home page plus the additional pages.
    pub fn page_count(&self) -> (r: usize)
        requires
            self.launchpad_pages.len() < usize::MAX,
        ensures
            r == self.spec_page_count(),
            r >= 1,
    {
        1 + self.launchpad_pages.len()
    }

    /// The layout of `page`, empty for a page that does not exist.
    pub fn page_layout(&self, page: usize) -> (r: &[Option<String>])
        ensures
            slots(r@) == self.page_slot_view(page as int),
    {
        if page == 0 {
            self.home_layout.as_slice()
        } else if page - 1 < self.launchpad_pages.len() {
            self.launchpad_pages[page - 1].layout.as_slice()
        } else {
            &[]
        }
    }

    /// Drops `id` onto `slot` of `page`.
    ///
    /// `id` first leaves every page it was on. If `page` exists, `id` then
    /// takes `slot`; an application displaced from `slot` moves to the slot
    /// `id` came from on the same page, or else to the first gap, or else to a
    /// new slot at the end; trailing gaps are removed. Other slots keep their
    /// applications.
    pub fn place_entry_on_page(&mut self, page: usize, slot: usize, id: &str)
        requires
            page < old(self).spec_page_count() ==> slot < usize::MAX,
        ensures
            final(self).groups == old(self).groups,
            final(self).same_except_layouts(*old(self)),
            final(self).page_slots() == pages_after_drop(old(self).page_slots(), page as int, slot as int, id@),
    {
        let id_s = id.to_string();
        proof {
            broadcast use vstd::string::to_string_from_display_ensures_for_str;
        }
        let ghost before = self.page_slot_view(page as int);
        let old_slot = find_id(self.page_layout(page), &id_s);
        let displaced = slot_value(self.page_layout(page), slot);
        let ghost old_self = *self;

        clear_id(&mut self.home_layout, &id_s);
        let n = self.launchpad_pages.len();
        let mut k: usize = 0;
        while k < n
            invariant
                n == self.launchpad_pages.len(),
                n == old_self.launchpad_pages.len(),
                k <= n,
                self.groups == old_self.groups,
                self.same_except_layouts(old_self),
                slots(self.home_layout@) == without(old_self.page_slots()[0], id_s@),
                forall|j: int| 0 <= j < k ==> slots(#[trigger] self.launchpad_pages@[j].layout@)
                    == without(old_self.page_slots()[j + 1], id_s@),
                forall|j: int| k <= j < n ==> #[trigger] self.launchpad_pages@[j] == old_self.launchpad_pages@[j],
            decreases n - k,
        {
            clear_id(&mut self.launchpad_pages[k].layout, &id_s);
            k = k + 1;
        }
        let ghost cleared = *self;
        assert(cleared.page_slots() =~= Seq::new(
            old_self.spec_page_count(),
            |j: int| without(old_self.page_slots()[j], id@),
        ));

        if page == 0 {
            settle_drop(&mut self.home_layout, slot, &id_s, displaced, old_slot, Ghost(before));
            assert(self.page_slots() =~= Seq::new(
                old_self.spec_page_count(),
                |j: int| if j == page {
                    dropped(old_self.page_slots()[j], slot as int, id@, position_of(old_self.page_slots()[j], id@))
                } else {
                    without(old_self.page_slots()[j], id@)
                },
            ));
        } else if page - 1 < n {
            settle_drop(&mut self.launchpad_pages[page - 1].layout, slot, &id_s, displaced, old_slot, Ghost(before));
            assert(self.page_slots() =~= Seq::new(
                old_self.spec_page_count(),
                |j: int| if j == page {
                    dropped(old_self.page_slots()[j], slot as int, id@, position_of(old_self.page_slots()[j], id@))
                } else {
                    without(old_self.page_slots()[j], id@)
                },
            ));
        } else {
            assert(self.page_slots() =~= Seq::new(
                old_self.spec_page_count(),
                |j: int| if j == page {
                    dropped(old_self.page_slots()[j], slot as int, id@, position_of(old_self.page_slots()[j], id@))
                } else {
                    without(old_self.page_slots()[j], id@)
                },
            ));
        }
    }
}

/// A copy of the application at `slot`, `None` for a gap or past the end.
fn slot_value(layout: &[Option<String>], slot: usize) -> (r: Option<String>)
    ensures
        match r { Some(s) => Some(s@), None => None } == slot_at(slots(layout@), slot as int),
{
    if slot < layout.len() {
        match &layout[slot] {
            Some(s) => Some(s.clone()),
            None => None,
        }
    } else {
        None
    }
}

/// Completes a drop of `id` onto `slot`, after `id` has been cleared from
/// `layout`, which held `before` until then.
fn settle_drop(
    layout: &mut Vec<Option<String>>,
    slot: usize,
    id: &String,
    displaced: Option<String>,
    swap_back: Option<usize>,
    Ghost(before): Ghost<Seq<Slot>>,
)
    requires
        slot < usize::MAX,
        slots(old(layout)@) == without(before, id@),
        match displaced { Some(s) => Some(s@), None => None } == slot_at(before, slot as int),
        swap_back matches Some(o) ==> o < before.len(),
    ensures
        slots(final(layout)@) == dropped(before, slot as int, id@, match swap_back {
            Some(o) => Some(o as int),
            None => None,
        }),
{
    let ghost placed = put(without(before, id@), slot as int, Some(id@));
    let start_len = layout.len();
    put_at(layout, slot, Some(id.clone()));
    assert(slots(layout@) == placed);
    match displaced {
        Some(d) => {
            if !(d == *id) {
                let back = match swap_back {
                    Some(o) => if o != slot { Some(o) } else { None },
                    None => None,
                };
                match back {
                    Some(o) => {
                        assert(without(before, id@).len() == before.len());
                        assert(o < start_len);
                        put_at(layout, o, Some(d));
                    },
                    None => match find_gap(layout.as_slice()) {
                        Some(e) => {
                            layout[e] = Some(d);
                            assert(slots(layout@) =~= placed.update(e as int, Some(d@)));
                        },
                        None => {
                            layout.push(Some(d));
                            assert(slots(layout@) =~= placed.push(Some(d@)));
                        },
                    },
                }
            }
        },
        None => {},
    }
    trim(layout);
}


/// Only the filter may differ between the two groups.
pub open spec fn same_but_filter(a: AppGroup, b: AppGroup) -> bool {
    a.name == b.name && a.icon == b.icon && a.layout == b.layout
}

/// Only the layout may differ between the two groups.
pub open spec fn same_but_layout(a: AppGroup, b: AppGroup) -> bool {
    a.name == b.name && a.icon == b.icon && a.filter == b.filter
}

impl AppLibraryConfig {
    /// The layouts that groups use: the home layout first, then each group's
    /// layout in order.
    pub open spec fn group_slots(self) -> Seq<Seq<Slot>> {
        seq![slots(self.home_layout@)] + Seq::new(self.groups@.len(), |k: int| slots(self.groups@[k].layout@))
    }

    /// Where `group` keeps its layout in [`Self::group_slots`]: a group that
    /// does not exist, like no group, uses the home layout.
    pub open spec fn layout_index(self, group: Option<usize>) -> int {
        match group {
            Some(i) => if i < self.groups@.len() { i + 1 } else { 0 },
            None => 0,
        }
    }

    /// Everything but the group layouts and the home layout is the same.
    pub open spec fn same_except_group_layouts(self, other: Self) -> bool {
        &&& self.same_settings(other)
        &&& self.hidden_apps@ == other.hidden_apps@
        &&& self.home_page_name@ == other.home_page_name@
        &&& self.launchpad_pages == other.launchpad_pages
        &&& self.groups.len() == other.groups.len()
        &&& forall|k: int| 0 <= k < self.groups.len()
            ==> same_but_layout(#[trigger] self.groups@[k], other.groups@[k])
    }

    /// Everything but the groups is the same.
    pub open spec fn same_except_groups(self, other: Self) -> bool {
        &&& self.same_settings(other)
        &&& self.hidden_apps@ == other.hidden_apps@
        &&& self.home_page_name@ == other.home_page_name@
        &&& self.launchpad_pages == other.launchpad_pages
        &&& self.home_layout == other.home_layout
    }

    /// The group key of the `k`-th layout of [`Self::group_slots`].
    pub open spec fn group_key(k: int) -> Option<usize> {
        if k == 0 { None } else { Some((k - 1) as usize) }
    }

    /// The first layout of `ls`, at or after `from`, that holds `id`.
    pub open spec fn holder_from(ls: Seq<Seq<Slot>>, id: Seq<char>, from: int) -> Option<int>
        decreases ls.len() - from,
    {
        if from < 0 || from >= ls.len() {
            None
        } else if position_of(ls[from], id) is Some {
            Some(from)
        } else {
            Self::holder_from(ls, id, from + 1)
        }
    }

    /// The first layout of `ls` that holds `id`.
    pub open spec fn first_holder(ls: Seq<Seq<Slot>>, id: Seq<char>) -> Option<int> {
        Self::holder_from(ls, id, 0)
    }

    /// The slot the displaced application returns to when `id` is dropped in
    /// `group`: the slot `id` came from, when the first layout holding `id` is
    /// that of `group` itself.
    pub open spec fn swap_slot(self, group: Option<usize>, id: Seq<char>) -> Option<int> {
        Self::swap_slot_in(self.group_slots(), group, id)
    }

    /// The slot the displaced application returns to when `id` is dropped in
    /// `group`, whose layouts are `ls` (see [`Self::group_slots`]).
    pub open spec fn swap_slot_in(ls: Seq<Seq<Slot>>, group: Option<usize>, id: Seq<char>) -> Option<int> {
        match Self::first_holder(ls, id) {
            Some(k) => if Self::group_key(k) == group {
                position_of(ls[k], id)
            } else {
                None
            },
            None => None,
        }
    }

    /// The layout of `group`, or the home layout when `group` is `None` or
    /// does not exist.
    pub fn layout(&self, group: Option<usize>) -> (r: &[Option<String>])
        ensures
            slots(r@) == self.group_slots()[self.layout_index(group)],
    {
        match group {
            Some(i) => if i < self.groups.len() {
                self.groups[i].layout.as_slice()
            } else {
                self.home_layout.as_slice()
            },
            None => self.home_layout.as_slice(),
        }
    }

    /// Replaces the layout of `group` (or the home layout, see
    /// [`Self::layout`]) with `layout` minus its trailing gaps.
    pub fn set_layout(&mut self, group: Option<usize>, layout: Vec<Option<String>>)
        ensures
            final(self).same_except_group_layouts(*old(self)),
            final(self).group_slots() == old(self).group_slots().update(
                old(self).layout_index(group),
                crate::layout::trim_trailing(slots(layout@)),
            ),
    {
        let ghost given = slots(layout@);
        let mut layout = layout;
        trim(&mut layout);
        let ghost old_self = *self;
        match group {
            Some(i) => if i < self.groups.len() {
                self.groups[i].layout = layout;
            } else {
                self.home_layout = layout;
            },
            None => {
                self.home_layout = layout;
            },
        }
        assert(self.group_slots() =~= old_self.group_slots().update(
            old_self.layout_index(group),
            crate::layout::trim_trailing(given),
        ));
    }

    /// Drops `id` onto `slot` of `group` (or the home layout, see
    /// [`Self::layout`]).
    ///
    /// `id` first leaves the home layout and every group layout. It then takes
    /// `slot`; an application displaced from `slot` moves to the slot `id`
    /// came from when `id` came from this same group, or else to the first
    /// gap, or else to a new slot at the end; trailing gaps of this layout are
    /// removed. Other slots keep their applications.
    pub fn place_entry(&mut self, group: Option<usize>, slot: usize, id: &str)
        requires
            slot < usize::MAX,
        ensures
            final(self).same_except_group_layouts(*old(self)),
            final(self).group_slots() == Seq::new(
                old(self).group_slots().len(),
                |k: int| if k == old(self).layout_index(group) {
                    dropped(old(self).group_slots()[k], slot as int, id@, old(self).swap_slot(group, id@))
                } else {
                    without(old(self).group_slots()[k], id@)
                },
            ),
    {
        let id_s = id.to_string();
        proof {
            broadcast use vstd::string::to_string_from_display_ensures_for_str;
        }
        let ghost old_self = *self;
        let ghost ls = self.group_slots();
        let old_position = self.find_first_holder(&id_s);
        let back = self.swap_back(group, &id_s, old_position);
        let ghost before = ls[old_self.layout_index(group)];
        let displaced = slot_value(self.layout(group), slot);
        self.clear_from_group_layouts(&id_s);
        let ghost cleared = self.group_slots();
        self.settle_in_group(group, slot, &id_s, displaced, back, Ghost(before));
        assert(self.group_slots() =~= Seq::new(
            ls.len(),
            |j: int| if j == old_self.layout_index(group) {
                dropped(ls[j], slot as int, id@, old_self.swap_slot(group, id@))
            } else {
                without(ls[j], id@)
            },
        ));
    }

    /// The slot a displaced application returns to, given where `id` was
    /// first found.
    fn swap_back(&self, group: Option<usize>, id: &String, old_position: Option<(Option<usize>, usize)>) -> (r: Option<usize>)
        requires
            match old_position {
                Some((g, s)) => {
                    &&& Self::first_holder(self.group_slots(), id@) matches Some(k)
                    &&& g == Self::group_key(k)
                    &&& position_of(self.group_slots()[k], id@) == Some(s as int)
                },
                None => Self::first_holder(self.group_slots(), id@) is None,
            },
        ensures
            match r { Some(o) => Some(o as int), None => None } == self.swap_slot(group, id@),
            r matches Some(o) ==> o < self.group_slots()[self.layout_index(group)].len(),
    {
        let ghost ls = self.group_slots();
        let ng = self.groups.len();
        match old_position {
            Some((g, s)) => if g == group {
                proof {
                    let k = Self::first_holder(ls, id@)->0;
                    Self::lemma_holder_from(ls, id@, 0);
                    assert(ls.len() == self.groups@.len() + 1);
                    crate::layout::lemma_position_from(ls[k], id@, 0);
                    assert(0 <= k < ls.len());
                    if k > 0 {
                        assert(group == Some((k - 1) as usize));
                        assert(k - 1 < ng);
                        assert(((k - 1) as usize) as int == k - 1);
                    }
                    assert(k == self.layout_index(group));
                }
                Some(s)
            } else {
                None
            },
            None => None,
        }
    }

    /// Completes a drop onto the layout of `group` after `id` has been
    /// cleared from it; the layout held `before` until then.
    fn settle_in_group(
        &mut self,
        group: Option<usize>,
        slot: usize,
        id: &String,
        displaced: Option<String>,
        back: Option<usize>,
        Ghost(before): Ghost<Seq<Slot>>,
    )
        requires
            slot < usize::MAX,
            old(self).group_slots()[old(self).layout_index(group)] == without(before, id@),
            match displaced { Some(s) => Some(s@), None => None } == slot_at(before, slot as int),
            back matches Some(o) ==> o < before.len(),
        ensures
            final(self).same_except_group_layouts(*old(self)),
            final(self).group_slots() == old(self).group_slots().update(
                old(self).layout_index(group),
                dropped(before, slot as int, id@, match back { Some(o) => Some(o as int), None => None }),
            ),
    {
        let ghost old_self = *self;
        let n = self.groups.len();
        match group {
            Some(i) => if i < n {
                settle_drop(&mut self.groups[i].layout, slot, id, displaced, back, Ghost(before));
            } else {
                settle_drop(&mut self.home_layout, slot, id, displaced, back, Ghost(before));
            },
            None => {
                settle_drop(&mut self.home_layout, slot, id, displaced, back, Ghost(before));
            },
        }
        assert(self.group_slots() =~= old_self.group_slots().update(
            old_self.layout_index(group),
            dropped(before, slot as int, id@, match back { Some(o) => Some(o as int), None => None }),
        ));
    }

    /// Turns every slot of the home layout and of each group layout that
    /// holds `id` into a gap.
    fn clear_from_group_layouts(&mut self, id: &String)
        ensures
            final(self).same_except_group_layouts(*old(self)),
            final(self).group_slots() == Seq::new(
                old(self).group_slots().len(),
                |j: int| without(old(self).group_slots()[j], id@),
            ),
    {
        let ghost old_self = *self;
        let ghost ls = self.group_slots();
        clear_id(&mut self.home_layout, id);
        let n = self.groups.len();
        let mut k: usize = 0;
        while k < n
            invariant
                n == self.groups.len(),
                n == old_self.groups.len(),
                k <= n,
                ls == old_self.group_slots(),
                self.same_except_group_layouts(old_self),
                slots(self.home_layout@) == without(ls[0], id@),
                forall|j: int| 0 <= j < k ==> slots(#[trigger] self.groups@[j].layout@)
                    == without(ls[j + 1], id@),
                forall|j: int| k <= j < n ==> #[trigger] self.groups@[j] == old_self.groups@[j],
            decreases n - k,
        {
            clear_id(&mut self.groups[k].layout, id);
            k = k + 1;
        }
        assert(self.group_slots() =~= Seq::new(ls.len(), |j: int| without(ls[j], id@)));
    }

    /// The group key and slot of the first place that holds `id`, looking at
    /// the home layout first and then at each group in order.
    fn find_first_holder(&self, id: &String) -> (r: Option<(Option<usize>, usize)>)
        ensures
            match r {
                Some((g, s)) => {
                    &&& Self::first_holder(self.group_slots(), id@) matches Some(k)
                    &&& g == Self::group_key(k)
                    &&& position_of(self.group_slots()[k], id@) == Some(s as int)
                },
                None => Self::first_holder(self.group_slots(), id@) is None,
            },
    {
        let ghost ls = self.group_slots();
        match find_id(self.home_layout.as_slice(), id) {
            Some(s) => {
                return Some((None, s));
            },
            None => {},
        }
        let n = self.groups.len();
        let mut i: usize = 0;
        while i < n
            invariant
                n == self.groups@.len(),
                ls == self.group_slots(),
                i <= n,
                Self::first_holder(ls, id@) == Self::holder_from(ls, id@, i + 1),
            decreases n - i,
        {
            assert(ls[i + 1] == slots(self.groups@[i as int].layout@));
            match find_id(self.groups[i].layout.as_slice(), id) {
                Some(s) => {
                    return Some((Some(i), s));
                },
                None => {},
            }
            i = i + 1;
        }
        None
    }

    pub proof fn lemma_holder_from(ls: Seq<Seq<Slot>>, id: Seq<char>, from: int)
        requires
            0 <= from,
        ensures
            Self::holder_from(ls, id, from) matches Some(k) ==> from <= k < ls.len()
                && position_of(ls[k], id) is Some,
        decreases ls.len() - from,
    {
        if from < ls.len() && position_of(ls[from], id) is None {
            Self::lemma_holder_from(ls, id, from + 1);
        }
    }
}

impl AppLibraryConfig {
    /// Takes `id` out of the home layout and every group layout, then removes
    /// the trailing gaps of each of them.
    pub fn clear_layout_entry(&mut self, id: &str)
        ensures
            final(self).same_except_group_layouts(*old(self)),
            final(self).group_slots() == Seq::new(
                old(self).group_slots().len(),
                |j: int| trim_trailing(without(old(self).group_slots()[j], id@)),
            ),
    {
        let id_s = id.to_string();
        proof {
            broadcast use vstd::string::to_string_from_display_ensures_for_str;
        }
        let ghost ls = self.group_slots();
        self.clear_from_group_layouts(&id_s);
        let ghost cleared = *self;
        trim(&mut self.home_layout);
        let n = self.groups.len();
        let mut k: usize = 0;
        while k < n
            invariant
                n == self.groups.len(),
                n == cleared.groups.len(),
                k <= n,
                cleared.group_slots() == Seq::new(ls.len(), |j: int| without(ls[j], id_s@)),
                self.same_except_group_layouts(cleared),
                slots(self.home_layout@) == trim_trailing(cleared.group_slots()[0]),
                forall|j: int| 0 <= j < k ==> slots(#[trigger] self.groups@[j].layout@)
                    == trim_trailing(cleared.group_slots()[j + 1]),
                forall|j: int| k <= j < n ==> #[trigger] self.groups@[j] == cleared.groups@[j],
            decreases n - k,
        {
            assert(cleared.group_slots()[k + 1] == slots(cleared.groups@[k as int].layout@));
            trim(&mut self.groups[k].layout);
            k = k + 1;
        }
        assert(self.group_slots() =~= Seq::new(ls.len(), |j: int| trim_trailing(without(ls[j], id@))));
    }

    /// Takes `id` off `page` and removes that page's trailing gaps; nothing
    /// changes when `page` does not exist.
    pub fn remove_entry_from_page(&mut self, page: usize, id: &str)
        ensures
            final(self).groups == old(self).groups,
            final(self).same_except_layouts(*old(self)),
            final(self).page_slots() == if page < old(self).spec_page_count() {
                old(self).page_slots().update(
                    page as int,
                    trim_trailing(without(old(self).page_slots()[page as int], id@)),
                )
            } else {
                old(self).page_slots()
            },
    {
        let id_s = id.to_string();
        proof {
            broadcast use vstd::string::to_string_from_display_ensures_for_str;
        }
        let ghost old_self = *self;
        if page == 0 {
            clear_id(&mut self.home_layout, &id_s);
            trim(&mut self.home_layout);
        } else if page - 1 < self.launchpad_pages.len() {
            clear_id(&mut self.launchpad_pages[page - 1].layout, &id_s);
            trim(&mut self.launchpad_pages[page - 1].layout);
        }
        assert(self.page_slots() =~= if page < old_self.spec_page_count() {
            old_self.page_slots().update(page as int, trim_trailing(without(old_self.page_slots()[page as int], id@)))
        } else {
            old_self.page_slots()
        });
    }

    /// Whether `page` is an additional page (not the first) that exists and
    /// holds no application.
    pub fn is_removable_page(&self, page: usize) -> (r: bool)
        ensures
            r == (0 < page < self.spec_page_count()
                && forall|i: int| 0 <= i < self.page_slots()[page as int].len()
                    ==> (#[trigger] self.page_slots()[page as int][i]) is None),
    {
        if page == 0 {
            return false;
        }
        if page - 1 >= self.launchpad_pages.len() {
            return false;
        }
        let ghost l = self.page_slots()[page as int];
        assert(l == slots(self.launchpad_pages@[page - 1].layout@));
        let n = self.launchpad_pages[page - 1].layout.len();
        let mut i: usize = 0;
        while i < n
            invariant
                0 < page <= self.launchpad_pages.len(),
                n == l.len(),
                l == slots(self.launchpad_pages@[page - 1].layout@),
                i <= n,
                forall|j: int| 0 <= j < i ==> (#[trigger] l[j]) is None,
            decreases n - i,
        {
            if self.launchpad_pages[page - 1].layout[i].is_some() {
                assert(l[i as int] is Some);
                return false;
            }
            i = i + 1;
        }
        true
    }

    /// Removes `page` when it is an additional page (not the first) that
    /// exists and holds no application; says whether it did.
    pub fn remove_empty_page(&mut self, page: usize) -> (r: bool)
        ensures
            r == (0 < page < old(self).spec_page_count()
                && forall|i: int| 0 <= i < old(self).page_slots()[page as int].len()
                    ==> (#[trigger] old(self).page_slots()[page as int][i]) is None),
            final(self).groups == old(self).groups,
            final(self).home_layout == old(self).home_layout,
            final(self).home_page_name == old(self).home_page_name,
            final(self).hidden_apps == old(self).hidden_apps,
            final(self).same_settings(*old(self)),
            final(self).launchpad_pages@ == if r {
                old(self).launchpad_pages@.remove(page - 1)
            } else {
                old(self).launchpad_pages@
            },
            !r ==> *final(self) == *old(self),
    {
        if !self.is_removable_page(page) {
            return false;
        }
        self.launchpad_pages.remove(page - 1);
        true
    }

    /// The name of `page`; a page that does not exist is called "Launchpad".
    pub fn page_name(&self, page: usize) -> (r: &str)
        ensures
            r@ == if page == 0 {
                self.home_page_name@
            } else if page - 1 < self.launchpad_pages.len() {
                self.launchpad_pages@[page - 1].name@
            } else {
                "Launchpad"@
            },
    {
        if page == 0 {
            self.home_page_name.as_str()
        } else if page - 1 < self.launchpad_pages.len() {
            self.launchpad_pages[page - 1].name.as_str()
        } else {
            "Launchpad"
        }
    }

    /// Renames `page`; nothing changes when `page` does not exist.
    pub fn set_page_name(&mut self, page: usize, name: String)
        ensures
            final(self).groups == old(self).groups,
            final(self).home_layout == old(self).home_layout,
            final(self).hidden_apps == old(self).hidden_apps,
            final(self).same_settings(*old(self)),
            page == 0 ==> final(self).home_page_name == name
                && final(self).launchpad_pages == old(self).launchpad_pages,
            0 < page <= old(self).launchpad_pages.len() ==> final(self).home_page_name
                == old(self).home_page_name && final(self).launchpad_pages@ == old(self).launchpad_pages@.update(
                page - 1,
                LaunchpadPage { name, layout: old(self).launchpad_pages@[page - 1].layout },
            ),
            page > old(self).launchpad_pages.len() ==> final(self).home_page_name
                == old(self).home_page_name && final(self).launchpad_pages == old(self).launchpad_pages,
    {
        if page == 0 {
            self.home_page_name = name;
        } else if page - 1 < self.launchpad_pages.len() {
            self.launchpad_pages[page - 1].name = name;
        }
    }

    /// Whether `id` is hidden from Other Apps.
    pub fn is_hidden(&self, id: &str) -> (r: bool)
        ensures
            r == has_id(id_list(self.hidden_apps@), id@),
    {
        let id_s = id.to_string();
        proof {
            broadcast use vstd::string::to_string_from_display_ensures_for_str;
        }
        contains_id(&self.hidden_apps, &id_s)
    }

    /// Hides `id` from Other Apps, or shows it again. A hidden ID is listed
    /// once, after the others.
    pub fn set_hidden(&mut self, id: &str, hidden: bool)
        ensures
            final(self).groups == old(self).groups,
            final(self).home_layout == old(self).home_layout,
            final(self).launchpad_pages == old(self).launchpad_pages,
            final(self).home_page_name == old(self).home_page_name,
            final(self).same_settings(*old(self)),
            id_list(final(self).hidden_apps@) == if hidden {
                retain_other(id_list(old(self).hidden_apps@), id@).push(id@)
            } else {
                retain_other(id_list(old(self).hidden_apps@), id@)
            },
    {
        let id_s = id.to_string();
        proof {
            broadcast use vstd::string::to_string_from_display_ensures_for_str;
        }
        let mut list = Vec::new();
        std::mem::swap(&mut list, &mut self.hidden_apps);
        let mut kept = retain_other_ids(list, &id_s);
        if hidden {
            let ghost before = id_list(kept@);
            kept.push(id_s);
            assert(id_list(kept@) =~= before.push(id@));
        }
        self.hidden_apps = kept;
    }

    /// Adds an empty group called `name`, with the folder icon and an ID-list
    /// filter.
    pub fn add(&mut self, name: String)
        ensures
            final(self).same_except_groups(*old(self)),
            final(self).groups@.len() == old(self).groups@.len() + 1,
            final(self).groups@.drop_last() == old(self).groups@,
            final(self).groups@.last().name == name,
            final(self).groups@.last().icon@ == "folder-symbolic"@,
            final(self).groups@.last().filter@ == FilterView::AppIds(Seq::empty()),
            final(self).groups@.last().layout@.len() == 0,
    {
        let group = AppGroup {
            name,
            icon: String::from_str("folder-symbolic"),
            filter: FilterType::AppIds(Vec::new()),
            layout: Vec::new(),
        };
        proof {
            assert(id_list(Seq::<String>::empty()) =~= Seq::empty());
        }
        self.groups.push(group);
        assert(self.groups@.drop_last() =~= old(self).groups@);
    }

    /// Removes group `i`; nothing changes when it does not exist.
    pub fn remove(&mut self, i: usize)
        ensures
            final(self).same_except_groups(*old(self)),
            final(self).groups@ == if i < old(self).groups.len() {
                old(self).groups@.remove(i as int)
            } else {
                old(self).groups@
            },
    {
        if i < self.groups.len() {
            self.groups.remove(i);
        }
    }

    /// Renames group `i`; nothing changes when it does not exist.
    pub fn set_name(&mut self, i: usize, name: String)
        ensures
            final(self).same_except_groups(*old(self)),
            final(self).groups@ == if i < old(self).groups.len() {
                old(self).groups@.update(i as int, AppGroup { name, ..old(self).groups@[i as int] })
            } else {
                old(self).groups@
            },
    {
        if i < self.groups.len() {
            self.groups[i].name = name;
        }
    }
}

/// The filter with `id` taken out (see [`filter_without_entry`]).
fn filter_without(f: FilterType, id: &String) -> (r: FilterType)
    ensures
        r@ == filter_without_entry(f@, id@),
{
    match f {
        FilterType::AppIds(ids) => FilterType::AppIds(retain_other_ids(ids, id)),
        FilterType::Categories { categories, exclude, included } => {
            let mut included = retain_other_ids(included, id);
            let exclude = retain_other_ids(exclude, id);
            let ghost before = id_list(included@);
            included.push(id.clone());
            assert(id_list(included@) =~= before.push(id@));
            FilterType::Categories { categories, exclude, included }
        },
        FilterType::NoFilter => FilterType::NoFilter,
    }
}

/// `ids` with `id` appended unless it already occurs.
fn push_absent_id(ids: Vec<String>, id: &String) -> (r: Vec<String>)
    ensures
        id_list(r@) == push_absent(id_list(ids@), id@),
{
    let mut ids = ids;
    if !contains_id(&ids, id) {
        let ghost before = id_list(ids@);
        ids.push(id.clone());
        assert(id_list(ids@) =~= before.push(id@));
    }
    ids
}

/// The filter with `id` put in (see [`filter_with_entry`]).
fn filter_with(f: FilterType, id: &String) -> (r: FilterType)
    ensures
        r@ == filter_with_entry(f@, id@),
{
    match f {
        FilterType::AppIds(ids) => FilterType::AppIds(push_absent_id(ids, id)),
        FilterType::Categories { categories, exclude, included } => {
            let included = retain_other_ids(included, id);
            let mut exclude = retain_other_ids(exclude, id);
            let ghost before = id_list(exclude@);
            exclude.push(id.clone());
            assert(id_list(exclude@) =~= before.push(id@));
            FilterType::Categories { categories, exclude, included }
        },
        FilterType::NoFilter => FilterType::NoFilter,
    }
}

/// The filter with `id` released to the home section (see [`filter_released`]).
fn filter_release(f: FilterType, id: &String) -> (r: FilterType)
    ensures
        r@ == filter_released(f@, id@),
{
    match f {
        FilterType::AppIds(ids) => FilterType::AppIds(retain_other_ids(ids, id)),
        FilterType::Categories { categories, exclude, included } => {
            let exclude = retain_other_ids(exclude, id);
            let included = push_absent_id(included, id);
            FilterType::Categories { categories, exclude, included }
        },
        FilterType::NoFilter => FilterType::NoFilter,
    }
}

impl AppLibraryConfig {
    /// The index of the group that `group` names, if it exists.
    pub open spec fn existing_group(self, group: Option<usize>) -> Option<int> {
        match group {
            Some(i) => if i < self.groups@.len() { Some(i as int) } else { None },
            None => None,
        }
    }

    /// Takes `id` out of the filter of `group` (see [`filter_without_entry`]);
    /// nothing changes when `group` is `None` or does not exist.
    pub fn remove_entry(&mut self, group: Option<usize>, id: &str)
        ensures
            final(self).same_except_groups(*old(self)),
            final(self).groups@.len() == old(self).groups@.len(),
            forall|k: int| 0 <= k < old(self).groups@.len() && Some(k) != old(self).existing_group(group)
                ==> #[trigger] final(self).groups@[k] == old(self).groups@[k],
            old(self).existing_group(group) matches Some(i) ==> {
                &&& same_but_filter(final(self).groups@[i], old(self).groups@[i])
                &&& final(self).groups@[i].filter@ == filter_without_entry(old(self).groups@[i].filter@, id@)
            },
    {
        let id_s = id.to_string();
        proof {
            broadcast use vstd::string::to_string_from_display_ensures_for_str;
        }
        if let Some(i) = group {
            if i < self.groups.len() {
                let mut f = FilterType::NoFilter;
                std::mem::swap(&mut f, &mut self.groups[i].filter);
                let updated = filter_without(f, &id_s);
                self.groups[i].filter = updated;
            }
        }
    }

    /// Puts `id` into the filter of `group` (see [`filter_with_entry`]). When
    /// `group` is `None` or does not exist, `id` is released from every group
    /// instead (see [`filter_released`]).
    pub fn add_entry(&mut self, group: Option<usize>, id: &str)
        ensures
            final(self).same_except_groups(*old(self)),
            final(self).groups@.len() == old(self).groups@.len(),
            old(self).existing_group(group) matches Some(i) ==> {
                &&& same_but_filter(final(self).groups@[i], old(self).groups@[i])
                &&& final(self).groups@[i].filter@ == filter_with_entry(old(self).groups@[i].filter@, id@)
                &&& forall|k: int| 0 <= k < old(self).groups@.len() && k != i
                    ==> #[trigger] final(self).groups@[k] == old(self).groups@[k]
            },
            old(self).existing_group(group) is None ==> forall|k: int| 0 <= k < old(self).groups@.len() ==> {
                &&& same_but_filter(#[trigger] final(self).groups@[k], old(self).groups@[k])
                &&& final(self).groups@[k].filter@ == filter_released(old(self).groups@[k].filter@, id@)
            },
    {
        let id_s = id.to_string();
        proof {
            broadcast use vstd::string::to_string_from_display_ensures_for_str;
        }
        let n = self.groups.len();
        let target = match group {
            Some(i) => if i < n { Some(i) } else { None },
            None => None,
        };
        match target {
            Some(i) => {
                let mut f = FilterType::NoFilter;
                std::mem::swap(&mut f, &mut self.groups[i].filter);
                let updated = filter_with(f, &id_s);
                self.groups[i].filter = updated;
            },
            None => {
                let ghost old_self = *self;
                let mut k: usize = 0;
                while k < n
                    invariant
                        n == self.groups.len(),
                        n == old_self.groups.len(),
                        k <= n,
                        self.same_except_groups(old_self),
                        forall|j: int| 0 <= j < k ==> {
                            &&& same_but_filter(#[trigger] self.groups@[j], old_self.groups@[j])
                            &&& self.groups@[j].filter@ == filter_released(old_self.groups@[j].filter@, id_s@)
                        },
                        forall|j: int| k <= j < n ==> #[trigger] self.groups@[j] == old_self.groups@[j],
                    decreases n - k,
                {
                    let mut f = FilterType::NoFilter;
                    std::mem::swap(&mut f, &mut self.groups[k].filter);
                    let updated = filter_release(f, &id_s);
                    self.groups[k].filter = updated;
                    k = k + 1;
                }
            },
        }
    }
}

/// The present application IDs of a layout, in slot order.
pub open spec fn present_ids(l: Seq<Slot>) -> Seq<Seq<char>>
    decreases l.len(),
{
    if l.len() == 0 {
        Seq::empty()
    } else {
        match l.last() {
            Some(id) => present_ids(l.drop_last()).push(id),
            None => present_ids(l.drop_last()),
        }
    }
}

/// The present application IDs of a list of layouts, layout by layout.
pub open spec fn all_present_ids(ls: Seq<Seq<Slot>>) -> Seq<Seq<char>>
    decreases ls.len(),
{
    if ls.len() == 0 {
        Seq::empty()
    } else {
        all_present_ids(ls.drop_last()) + present_ids(ls.last())
    }
}

/// The abstract value of a list of string slices.
pub open spec fn str_list(v: Seq<&str>) -> Seq<Seq<char>> {
    Seq::new(v.len(), |i: int| v[i]@)
}

/// Appends the IDs present in `layout` to `out`.
fn push_present<'a>(out: &mut Vec<&'a str>, layout: &'a [Option<String>])
    ensures
        str_list(final(out)@) == str_list(old(out)@) + present_ids(slots(layout@)),
{
    let ghost l = slots(layout@);
    let ghost start = str_list(out@);
    let n = layout.len();
    let mut i: usize = 0;
    while i < n
        invariant
            n == layout@.len(),
            l == slots(layout@),
            i <= n,
            str_list(out@) == start + present_ids(l.take(i as int)),
        decreases n - i,
    {
        assert(l.take(i + 1).drop_last() =~= l.take(i as int));
        let ghost before = str_list(out@);
        match &layout[i] {
            Some(id) => {
                out.push(id.as_str());
                assert(str_list(out@) =~= before.push(id@));
            },
            None => {},
        }
        i = i + 1;
    }
    assert(l.take(n as int) =~= l);
}

impl AppLibraryConfig {
    /// Appends a new empty page called "Page N", where N is the new number of
    /// pages plus one, and returns its index.
    pub fn add_page(&mut self) -> (r: usize)
        requires
            old(self).launchpad_pages.len() + 2 <= usize::MAX,
        ensures
            r == old(self).launchpad_pages.len() + 1,
            r == old(self).spec_page_count(),
            final(self).spec_page_count() == old(self).spec_page_count() + 1,
            final(self).groups == old(self).groups,
            final(self).home_layout == old(self).home_layout,
            final(self).home_page_name == old(self).home_page_name,
            final(self).hidden_apps == old(self).hidden_apps,
            final(self).same_settings(*old(self)),
            final(self).launchpad_pages@.len() == old(self).launchpad_pages@.len() + 1,
            final(self).launchpad_pages@.drop_last() == old(self).launchpad_pages@,
            final(self).launchpad_pages@.last().name@
                == "Page "@ + crate::text::decimal((old(self).launchpad_pages@.len() + 2) as nat),
            final(self).launchpad_pages@.last().layout@.len() == 0,
    {
        let page_number = self.page_count() + 1;
        let mut name = String::from_str("Page ");
        crate::text::push_decimal(&mut name, page_number);
        self.launchpad_pages.push(LaunchpadPage { name, layout: Vec::new() });
        assert(self.launchpad_pages@.drop_last() =~= old(self).launchpad_pages@);
        self.page_count() - 1
    }

    /// The IDs placed on the Launchpad pages: those of the first page in slot
    /// order, then those of each additional page.
    pub fn pinned_ids(&self) -> (r: Vec<&str>)
        ensures
            str_list(r@) == all_present_ids(self.page_slots()),
    {
        let ghost ls = self.page_slots();
        let mut r: Vec<&str> = Vec::new();
        assert(str_list(r@) =~= Seq::empty());
        push_present(&mut r, self.home_layout.as_slice());
        assert(ls.take(1).drop_last() =~= Seq::<Seq<Slot>>::empty());
        assert(ls.take(1).last() == slots(self.home_layout@));
        assert(all_present_ids(ls.take(1)) == all_present_ids(Seq::<Seq<Slot>>::empty()) + present_ids(slots(self.home_layout@)));
        assert(str_list(r@) =~= all_present_ids(ls.take(1)));
        let n = self.launchpad_pages.len();
        let mut k: usize = 0;
        while k < n
            invariant
                n == self.launchpad_pages@.len(),
                ls == self.page_slots(),
                k <= n,
                str_list(r@) == all_present_ids(ls.take(k + 1)),
            decreases n - k,
        {
            assert(ls.take(k + 2).drop_last() =~= ls.take(k + 1));
            assert(ls[k + 1] == slots(self.launchpad_pages@[k as int].layout@));
            push_present(&mut r, self.launchpad_pages[k].layout.as_slice());
            k = k + 1;
        }
        assert(ls.take(n + 1) =~= ls);
        r
    }
}

/// Owned copies of `items`.
fn string_list(items: &[&str]) -> (r: Vec<String>)
    ensures
        id_list(r@) == str_list(items@),
{
    let mut r: Vec<String> = Vec::new();
    let n = items.len();
    let mut i: usize = 0;
    while i < n
        invariant
            n == items@.len(),
            i <= n,
            id_list(r@) == str_list(items@).take(i as int),
        decreases n - i,
    {
        let ghost before = id_list(r@);
        r.push(String::from_str(items[i]));
        assert(id_list(r@) =~= before.push(items@[i as int]@));
        assert(str_list(items@).take(i + 1) =~= str_list(items@).take(i as int).push(items@[i as int]@));
        i = i + 1;
    }
    assert(str_list(items@).take(n as int) =~= str_list(items@));
    r
}

/// A built-in category group with the folder icon and an empty layout.
fn category_group(name: &str, categories: &[&str], included: &[&str], exclude: &[&str]) -> (r: AppGroup)
    ensures
        r.name@ == name@,
        r.icon@ == "folder-symbolic"@,
        r.filter@ == (FilterView::Categories {
            categories: str_list(categories@),
            exclude: str_list(exclude@),
            included: str_list(included@),
        }),
        r.layout@.len() == 0,
{
    AppGroup {
        name: String::from_str(name),
        icon: String::from_str("folder-symbolic"),
        filter: FilterType::Categories {
            categories: string_list(categories),
            exclude: string_list(exclude),
            included: string_list(included),
        },
        layout: Vec::new(),
    }
}

impl Default for FilterType {
    /// An empty ID list.
    fn default() -> (r: Self)
        ensures
            r@ == FilterView::AppIds(Seq::empty()),
    {
        let ids: Vec<String> = Vec::new();
        assert(id_list(ids@) =~= Seq::empty());
        FilterType::AppIds(ids)
    }
}

/// The configuration of a new installation (see [`AppLibraryConfig::default`]):
/// an empty first page called "Launchpad", the Office, System and Utilities
/// category groups, and the default board settings.
pub open spec fn is_default_config(r: AppLibraryConfig) -> bool {
    &&& r.icon_size == 72
    &&& r.board_width == 1200
    &&& r.board_height == 690
    &&& r.tile_gap == 8
    &&& r.show_labels
    &&& r.show_tooltips
    &&& r.kinetic_scrolling
    &&& r.momentum_strength == 300
    &&& r.scroll_glide == 260
    &&& r.release_delay_ms == 4
    &&& r.home_layout@.len() == 0
    &&& r.launchpad_pages@.len() == 0
    &&& r.home_page_name@ == "Launchpad"@
    &&& r.hidden_apps@.len() == 0
    &&& r.groups@.len() == 3
    &&& forall|k: int| 0 <= k < 3 ==> (#[trigger] r.groups@[k]).icon@ == "folder-symbolic"@
        && r.groups@[k].layout@.len() == 0
    &&& r.groups@[0].name@ == "cosmic-office"@
    &&& r.groups@[0].filter@ == (FilterView::Categories {
        categories: seq!["Office"@],
        exclude: Seq::empty(),
        included: seq!["org.gnome.Totem"@, "org.gnome.eog"@, "simple-scan"@, "thunderbird"@],
    })
    &&& r.groups@[1].name@ == "cosmic-system"@
    &&& r.groups@[1].filter@ == (FilterView::Categories {
        categories: seq!["System"@],
        exclude: seq!["com.system76.CosmicStore"@, "com.system76.CosmicTerm"@],
        included: seq![
            "gnome-language-selector"@,
            "im-config"@,
            "org.freedesktop.IBus.Setup"@,
            "system76-driver"@,
        ],
    })
    &&& r.groups@[2].name@ == "cosmic-utilities"@
    &&& r.groups@[2].filter@ == (FilterView::Categories {
        categories: seq!["Utility"@],
        exclude: seq!["com.system76.CosmicEdit"@, "com.system76.CosmicFiles"@],
        included: seq!["nm-connection-editor"@],
    })
}

impl Default for AppLibraryConfig {
    /// The configuration of a new installation: an empty first page called
    /// "Launchpad", the Office, System and Utilities category groups, and
    /// the default board settings.
    fn default() -> (r: Self)
        ensures
            is_default_config(r),
    {
        let office_categories = ["Office"];
        let office_included = ["org.gnome.Totem", "org.gnome.eog", "simple-scan", "thunderbird"];
        let office_excluded: [&str; 0] = [];
        let system_categories = ["System"];
        let system_included = ["gnome-language-selector", "im-config", "org.freedesktop.IBus.Setup", "system76-driver"];
        let system_excluded = ["com.system76.CosmicStore", "com.system76.CosmicTerm"];
        let utility_categories = ["Utility"];
        let utility_included = ["nm-connection-editor"];
        let utility_excluded = ["com.system76.CosmicEdit", "com.system76.CosmicFiles"];
        assert(str_list(office_included@) =~= seq!["org.gnome.Totem"@, "org.gnome.eog"@, "simple-scan"@, "thunderbird"@]);
        assert(str_list(office_excluded@) =~= Seq::empty());
        assert(str_list(office_categories@) =~= seq!["Office"@]);
        assert(str_list(system_included@) =~= seq![
            "gnome-language-selector"@,
            "im-config"@,
            "org.freedesktop.IBus.Setup"@,
            "system76-driver"@,
        ]);
        assert(str_list(system_excluded@) =~= seq!["com.system76.CosmicStore"@, "com.system76.CosmicTerm"@]);
        assert(str_list(system_categories@) =~= seq!["System"@]);
        assert(str_list(utility_included@) =~= seq!["nm-connection-editor"@]);
        assert(str_list(utility_excluded@) =~= seq!["com.system76.CosmicEdit"@, "com.system76.CosmicFiles"@]);
        assert(str_list(utility_categories@) =~= seq!["Utility"@]);
        let office = category_group("cosmic-office", &office_categories, &office_included, &office_excluded);
        let system = category_group("cosmic-system", &system_categories, &system_included, &system_excluded);
        let utilities = category_group("cosmic-utilities", &utility_categories, &utility_included, &utility_excluded);
        let mut groups = Vec::new();
        groups.push(office);
        groups.push(system);
        groups.push(utilities);
        AppLibraryConfig {
            groups,
            icon_size: 72,
            home_layout: Vec::new(),
            launchpad_pages: Vec::new(),
            home_page_name: String::from_str("Launchpad"),
            hidden_apps: Vec::new(),
            board_width: 1200,
            board_height: 690,
            tile_gap: 8,
            show_labels: true,
            show_tooltips: true,
            kinetic_scrolling: true,
            momentum_strength: 300,
            scroll_glide: 260,
            release_delay_ms: 4,
        }
    }
}

/// The name a group shows: the built-in groups are named by a translation
/// key, which the user interface turns into text in the current language;
/// other groups show the name the user gave them.
pub enum GroupName {
    Translated(String),
    Verbatim(String),
}

/// The names of the built-in groups, which are translation keys.
pub open spec fn is_builtin_group_name(name: Seq<char>) -> bool {
    name == "cosmic-library-home"@ || name == "cosmic-office"@ || name == "cosmic-system"@
        || name == "cosmic-utilities"@
}

impl AppGroup {
    /// The name this group shows (see [`GroupName`]).
    pub fn name(&self) -> (r: GroupName)
        ensures
            match r {
                GroupName::Translated(key) => is_builtin_group_name(self.name@) && key@ == self.name@,
                GroupName::Verbatim(name) => !is_builtin_group_name(self.name@) && name@ == self.name@,
            },
    {
        let builtin = self.name == String::from_str("cosmic-library-home")
            || self.name == String::from_str("cosmic-office")
            || self.name == String::from_str("cosmic-system")
            || self.name == String::from_str("cosmic-utilities");
        if builtin {
            GroupName::Translated(self.name.clone())
        } else {
            GroupName::Verbatim(self.name.clone())
        }
    }
}

impl AppLibraryConfig {
    /// The home section: every application, shown with the home icon.
    pub fn home() -> (r: AppGroup)
        ensures
            r.name@ == "cosmic-library-home"@,
            r.icon@ == "user-home-symbolic"@,
            r.filter@ == FilterView::NoFilter,
            r.layout@.len() == 0,
    {
        AppGroup {
            name: String::from_str("cosmic-library-home"),
            icon: String::from_str("user-home-symbolic"),
            filter: FilterType::NoFilter,
            layout: Vec::new(),
        }
    }
}

/// The abstract value of an [`AppGroup`].
pub struct GroupView {
    pub name: Seq<char>,
    pub icon: Seq<char>,
    pub filter: FilterView,
    pub layout: Seq<Slot>,
}

impl View for AppGroup {
    type V = GroupView;

    open spec fn view(&self) -> GroupView {
        GroupView { name: self.name@, icon: self.icon@, filter: self.filter@, layout: slots(self.layout@) }
    }
}

/// A copy of a list of IDs.
fn copy_id_list(v: &Vec<String>) -> (r: Vec<String>)
    ensures
        id_list(r@) == id_list(v@),
{
    let mut r: Vec<String> = Vec::new();
    let n = v.len();
    let mut i: usize = 0;
    while i < n
        invariant
            n == v@.len(),
            i <= n,
            id_list(r@) == id_list(v@).take(i as int),
        decreases n - i,
    {
        let ghost before = id_list(r@);
        r.push(v[i].clone());
        assert(id_list(r@) =~= before.push(v@[i as int]@));
        assert(id_list(r@) =~= id_list(v@).take(i + 1));
        i = i + 1;
    }
    assert(id_list(v@).take(n as int) =~= id_list(v@));
    r
}

/// A copy of a layout.
fn copy_layout(v: &Vec<Option<String>>) -> (r: Vec<Option<String>>)
    ensures
        slots(r@) == slots(v@),
{
    let mut r: Vec<Option<String>> = Vec::new();
    let n = v.len();
    let mut i: usize = 0;
    while i < n
        invariant
            n == v@.len(),
            i <= n,
            slots(r@) == slots(v@).take(i as int),
        decreases n - i,
    {
        let ghost before = slots(r@);
        let entry = match &v[i] {
            Some(s) => Some(s.clone()),
            None => None,
        };
        r.push(entry);
        assert(slots(r@) =~= before.push(slots(v@)[i as int]));
        assert(slots(r@) =~= slots(v@).take(i + 1));
        i = i + 1;
    }
    assert(slots(v@).take(n as int) =~= slots(v@));
    r
}

/// A copy of a group.
pub fn copy_group(g: &AppGroup) -> (r: AppGroup)
    ensures
        r@ == g@,
{
    let filter = match &g.filter {
        FilterType::AppIds(ids) => FilterType::AppIds(copy_id_list(ids)),
        FilterType::Categories { categories, exclude, included } => FilterType::Categories {
            categories: copy_id_list(categories),
            exclude: copy_id_list(exclude),
            included: copy_id_list(included),
        },
        FilterType::NoFilter => FilterType::NoFilter,
    };
    AppGroup { name: g.name.clone(), icon: g.icon.clone(), filter, layout: copy_layout(&g.layout) }
}
} // verus!
