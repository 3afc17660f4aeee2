//! The decisions of the launcher window: when it shows and hides, how
//! typing, paging, group editing and keyboard row movement change its state.
//! The window system work itself happens outside; these functions say what
//! to do.
use vstd::prelude::*;

use crate::app_group::{
    filter_released, filter_with_entry, filter_without_entry, same_but_filter, AppGroup, AppLibraryConfig, FilterType,
    FilterView,
};
use crate::board::Board;
use crate::ids::id_list;
use crate::layout::{dropped, first_gap, slots, trim_trailing, without, Slot};
use crate::text::{blank, is_blank};

verus! {

/// The life cycle of the launcher's main surface.
#[derive(Clone, Copy, Debug, PartialEq, Eq, Structural)]
pub enum SurfaceState {
    Visible,
    Hidden,
    WaitingToBeShown,
}

/// What a request to hide the launcher leads to.
#[derive(Clone, Copy, Debug, PartialEq, Eq, Structural)]
pub enum Hiding {
    /// The launcher is not visible; nothing to do.
    Ignore,
    /// A drag was in progress: end it, then ask to hide again.
    EndDragFirst,
    /// The launcher state was reset: close its surfaces.
    Close,
}

/// What a request to activate the launcher leads to.
#[derive(Clone, Copy, Debug, PartialEq, Eq, Structural)]
pub enum Activation {
    /// The launcher was visible, so it hides.
    Hide(Hiding),
    /// The launcher opens: load the applications and create its surface.
    Show,
    /// Nothing to do.
    Ignore,
}

/// Where keyboard focus goes when moving by a row.
#[derive(Clone, Copy, Debug, PartialEq, Eq, Structural)]
pub enum RowMove {
    /// Leave the grid and let focus move to the neighbouring widget.
    Release,
    /// Focus the entry at this position.
    Focus(usize),
    /// Keep the focus where it is.
    Stay,
}

/// An element of the group row that the user can reorder.
#[derive(Clone, Copy, Debug, PartialEq, Eq, Structural)]
pub enum GroupRowKey {
    Home,
    Custom(u64),
    NewGroup,
}

/// The state of the launcher window that its decisions depend on.
pub struct Launcher {
    pub board: Board,
    pub surface_state: SurfaceState,
    pub settings_open: bool,
    /// The entry whose context menu is open.
    pub menu: Option<usize>,
    /// The group name being edited.
    pub edit_name: Option<String>,
    /// The name of the group being created.
    pub new_group: Option<String>,
    pub group_to_delete: Option<usize>,
    /// The selected group; `None` is home.
    pub cur_group: Option<usize>,
    /// The entry being dragged.
    pub dnd_icon: Option<usize>,
    /// Search text handed over by another launch, typed once the window opens.
    pub hand_over: String,
    /// A stable key for each group, for reordering.
    pub group_keys: Vec<u64>,
    pub next_group_key: u64,
}

/// The least time between hiding the launcher and showing it again.
pub const REOPEN_DELAY_MS: u128 = 100;

impl Launcher {
    /// The launcher of a board that has just started with `config`: hidden,
    /// on the first page, with no search, no entries, no dialog and no
    /// selection; the groups get the keys 0, 1, 2, ... in order.
    pub fn new(config: AppLibraryConfig) -> (r: Launcher)
        requires
            config.groups@.len() < u64::MAX,
        ensures
            r.board.config == config,
            r.board.active_page == 0,
            r.board.search_value@.len() == 0,
            r.board.entries@.len() == 0,
            r.board.entry_groups@.len() == 0,
            r.surface_state == SurfaceState::Hidden,
            !r.settings_open,
            r.menu is None,
            r.edit_name is None,
            r.new_group is None,
            r.group_to_delete is None,
            r.cur_group is None,
            r.dnd_icon is None,
            r.hand_over@.len() == 0,
            r.group_keys@ == Seq::new(config.groups@.len(), |k: int| k as u64),
            r.next_group_key == config.groups@.len(),
    {
        let n = config.groups.len();
        let mut keys: Vec<u64> = Vec::new();
        let mut k: u64 = 0;
        while (k as usize) < n
            invariant
                n == config.groups@.len(),
                n < u64::MAX,
                k <= n,
                keys@ == Seq::new(k as nat, |j: int| j as u64),
            decreases n - k,
        {
            keys.push(k);
            assert(keys@ =~= Seq::new((k + 1) as nat, |j: int| j as u64));
            k = k + 1;
        }
        Launcher {
            board: Board {
                config,
                active_page: 0,
                search_value: String::new(),
                entries: Vec::new(),
                entry_groups: Vec::new(),
            },
            surface_state: SurfaceState::Hidden,
            settings_open: false,
            menu: None,
            edit_name: None,
            new_group: None,
            group_to_delete: None,
            cur_group: None,
            dnd_icon: None,
            hand_over: String::new(),
            group_keys: keys,
            next_group_key: k,
        }
    }
}

impl Launcher {
    /// Each group key is used once, and each is below the next key to be
    /// given out.
    pub open spec fn keys_distinct(self) -> bool {
        &&& self.group_keys@.no_duplicates()
        &&& forall|k: int| 0 <= k < self.group_keys@.len() ==> #[trigger] self.group_keys@[k] < self.next_group_key
    }

    /// The launcher state after a reset for hiding: no dialogs, no search, no
    /// selection, settings and menu closed, hidden.
    pub open spec fn reset_for_hiding(self, before: Self) -> bool {
        &&& self.surface_state == SurfaceState::Hidden
        &&& self.new_group is None
        &&& self.board.search_value@.len() == 0
        &&& self.edit_name is None
        &&& self.cur_group is None
        &&& !self.settings_open
        &&& self.menu is None
        &&& self.group_to_delete is None
        &&& self.hand_over@.len() == 0
        &&& self.dnd_icon is None
        &&& self.board.config == before.board.config
        &&& self.board.active_page == before.board.active_page
        &&& self.board.entries == before.board.entries
        &&& self.board.entry_groups == before.board.entry_groups
        &&& self.group_keys == before.group_keys
        &&& self.next_group_key == before.next_group_key
    }

    /// Hides the launcher (see [`Hiding`]).
    pub fn hide_launcher(&mut self) -> (r: Hiding)
        ensures
            old(self).surface_state != SurfaceState::Visible ==> r == Hiding::Ignore && *final(self) == *old(self),
            old(self).surface_state == SurfaceState::Visible && old(self).dnd_icon is Some
                ==> r == Hiding::EndDragFirst && *final(self) == (Launcher { dnd_icon: None, ..*old(self) }),
            old(self).surface_state == SurfaceState::Visible && old(self).dnd_icon is None
                ==> r == Hiding::Close && final(self).reset_for_hiding(*old(self)),
    {
        if self.surface_state != SurfaceState::Visible {
            return Hiding::Ignore;
        }
        if self.dnd_icon.take().is_some() {
            return Hiding::EndDragFirst;
        }
        self.new_group = None;
        self.board.search_value = String::new();
        self.edit_name = None;
        self.cur_group = None;
        self.settings_open = false;
        self.menu = None;
        self.group_to_delete = None;
        self.surface_state = SurfaceState::Hidden;
        self.hand_over = String::new();
        Hiding::Close
    }

    /// Activates the launcher: a visible launcher hides; a hidden one opens
    /// unless it was hidden less than [`REOPEN_DELAY_MS`] ago
    /// (`since_hide_ms` is the time since it was last hidden, if ever).
    /// Opening closes the settings, stops editing, clears the search, selects
    /// home and waits for the surface.
    pub fn activate(&mut self, since_hide_ms: Option<u128>) -> (r: Activation)
        ensures
            old(self).surface_state == SurfaceState::Visible && old(self).dnd_icon is Some
                ==> r == Activation::Hide(Hiding::EndDragFirst) && *final(self) == (Launcher { dnd_icon: None, ..*old(self) }),
            old(self).surface_state == SurfaceState::Visible && old(self).dnd_icon is None
                ==> r == Activation::Hide(Hiding::Close) && final(self).reset_for_hiding(*old(self)),
            old(self).surface_state == SurfaceState::Hidden && (since_hide_ms is Some ==> since_hide_ms->0 >= REOPEN_DELAY_MS)
                ==> r == Activation::Show && *final(self) == (Launcher {
                    surface_state: SurfaceState::WaitingToBeShown,
                    settings_open: false,
                    edit_name: None,
                    cur_group: None,
                    board: Board { search_value: final(self).board.search_value, ..old(self).board },
                    ..*old(self)
                }) && final(self).board.search_value@.len() == 0,
            old(self).surface_state == SurfaceState::WaitingToBeShown
                || (old(self).surface_state == SurfaceState::Hidden && since_hide_ms is Some
                    && since_hide_ms->0 < REOPEN_DELAY_MS)
                ==> r == Activation::Ignore && *final(self) == *old(self),
    {
        if self.surface_state == SurfaceState::Visible {
            return Activation::Hide(self.hide_launcher());
        }
        let long_enough = match since_hide_ms {
            Some(t) => t >= REOPEN_DELAY_MS,
            None => true,
        };
        if self.surface_state == SurfaceState::Hidden && long_enough {
            self.surface_state = SurfaceState::WaitingToBeShown;
            self.settings_open = false;
            self.edit_name = None;
            self.board.search_value = String::new();
            self.cur_group = None;
            return Activation::Show;
        }
        Activation::Ignore
    }

    /// Ends a drag, dropped elsewhere or cancelled: no tile is dragged and
    /// nothing else changes.
    pub fn end_drag(&mut self)
        ensures
            *final(self) == (Launcher { dnd_icon: None, ..*old(self) }),
    {
        self.dnd_icon = None;
    }

    /// The main surface opened: a launcher waiting to be shown is now visible.
    pub fn main_surface_opened(&mut self)
        ensures
            old(self).surface_state == SurfaceState::WaitingToBeShown
                ==> *final(self) == (Launcher { surface_state: SurfaceState::Visible, ..*old(self) }),
            old(self).surface_state != SurfaceState::WaitingToBeShown ==> *final(self) == *old(self),
    {
        if self.surface_state == SurfaceState::WaitingToBeShown {
            self.surface_state = SurfaceState::Visible;
        }
    }

    /// Whether losing keyboard focus on the main surface should hide the
    /// launcher: it is visible and no menu or dialog is open.
    pub fn hides_on_focus_loss(&self) -> (r: bool)
        ensures
            r == (self.surface_state == SurfaceState::Visible && self.menu is None && self.new_group is None
                && self.group_to_delete is None),
    {
        self.surface_state == SurfaceState::Visible && self.menu.is_none() && self.new_group.is_none()
            && self.group_to_delete.is_none()
    }

    /// Keeps search text handed over by another launch; says whether the
    /// launcher should now activate, which it should when hidden.
    pub fn hand_over_input(&mut self, input: Option<String>) -> (r: bool)
        ensures
            r == (old(self).surface_state == SurfaceState::Hidden),
            final(self).hand_over@ == match input {
                Some(s) => old(self).hand_over@ + s@,
                None => old(self).hand_over@,
            },
            *final(self) == (Launcher { hand_over: final(self).hand_over, ..*old(self) }),
    {
        if let Some(input) = input {
            self.hand_over.append(input.as_str());
        }
        self.surface_state == SurfaceState::Hidden
    }

    /// Takes the handed-over search text, leaving none.
    pub fn take_hand_over(&mut self) -> (r: String)
        ensures
            r@ == old(self).hand_over@,
            final(self).hand_over@.len() == 0,
            *final(self) == (Launcher { hand_over: final(self).hand_over, ..*old(self) }),
    {
        let mut taken = String::new();
        std::mem::swap(&mut taken, &mut self.hand_over);
        taken
    }

    /// Typing outside the search field: text that is empty, or only white
    /// space while the search is empty, is ignored; other text closes the
    /// settings and the menu and is appended to the search. Says whether the
    /// search changed.
    pub fn type_to_search(&mut self, value: &str) -> (r: bool)
        ensures
            r == !(value@.len() == 0 || (old(self).board.search_value@.len() == 0 && is_blank(value@))),
            !r ==> *final(self) == *old(self),
            r ==> !final(self).settings_open && final(self).menu is None
                && final(self).board.search_value@ == old(self).board.search_value@ + value@
                && *final(self) == (Launcher {
                    settings_open: false,
                    menu: None,
                    board: Board { search_value: final(self).board.search_value, ..old(self).board },
                    ..*old(self)
                }),
    {
        if value.is_empty() || (self.board.search_value.as_str().is_empty() && blank(value)) {
            return false;
        }
        self.settings_open = false;
        self.menu = None;
        self.board.search_value.append(value);
        true
    }
}


impl Board {
    /// Shows the previous Launchpad page, wrapping from the first to the last.
    pub fn previous_page(&mut self)
        requires
            old(self).active_page + old(self).config.spec_page_count() <= usize::MAX,
        ensures
            final(self).active_page == (old(self).active_page + old(self).config.spec_page_count() - 1)
                % (old(self).config.spec_page_count() as int),
            final(self).active_page < final(self).config.spec_page_count(),
            *final(self) == (Board { active_page: final(self).active_page, ..*old(self) }),
    {
        let count = self.config.page_count();
        self.active_page = (self.active_page + count - 1) % count;
    }

    /// Shows the next Launchpad page, wrapping from the last to the first.
    pub fn next_page(&mut self)
        requires
            old(self).active_page < usize::MAX,
            old(self).config.launchpad_pages.len() < usize::MAX,
        ensures
            final(self).active_page == (old(self).active_page + 1) % (old(self).config.spec_page_count() as int),
            final(self).active_page < final(self).config.spec_page_count(),
            *final(self) == (Board { active_page: final(self).active_page, ..*old(self) }),
    {
        self.active_page = (self.active_page + 1) % self.config.page_count();
    }

    /// Adds a Launchpad page (see [`AppLibraryConfig::add_page`]) and shows it.
    pub fn add_page(&mut self)
        requires
            old(self).config.launchpad_pages.len() + 2 <= usize::MAX,
        ensures
            final(self).active_page == old(self).config.launchpad_pages.len() + 1,
            final(self).config.launchpad_pages@.drop_last() == old(self).config.launchpad_pages@,
            final(self).config.launchpad_pages@.len() == old(self).config.launchpad_pages@.len() + 1,
            final(self).config.launchpad_pages@.last().layout@.len() == 0,
            final(self).config.groups == old(self).config.groups,
            final(self).config.home_layout == old(self).config.home_layout,
            final(self).search_value == old(self).search_value,
            final(self).entries == old(self).entries,
            final(self).entry_groups == old(self).entry_groups,
    {
        self.active_page = self.config.add_page();
    }

    /// Removes the active page when it is an empty additional page (see
    /// [`AppLibraryConfig::remove_empty_page`]) and then shows the page
    /// before it; says whether it did.
    pub fn remove_empty_page(&mut self) -> (r: bool)
        ensures
            r == (0 < old(self).active_page < old(self).config.spec_page_count()
                && forall|i: int| 0 <= i < old(self).config.page_slots()[old(self).active_page as int].len()
                    ==> (#[trigger] old(self).config.page_slots()[old(self).active_page as int][i]) is None),
            r ==> final(self).active_page == old(self).active_page - 1
                && final(self).config.launchpad_pages@ == old(self).config.launchpad_pages@.remove(old(self).active_page - 1),
            !r ==> *final(self) == *old(self),
            final(self).search_value == old(self).search_value,
            final(self).entries == old(self).entries,
            final(self).entry_groups == old(self).entry_groups,
            final(self).config.groups == old(self).config.groups,
            final(self).config.home_layout == old(self).config.home_layout,
    {
        let removed = self.config.remove_empty_page(self.active_page);
        if removed {
            self.active_page = self.active_page - 1;
        }
        removed
    }

    /// The slot that "Add to Launchpad" uses on the active page: its first
    /// gap, or the slot after its end.
    pub fn pin_slot(&self) -> (r: usize)
        ensures
            r == match first_gap(self.config.page_slot_view(self.active_page as int)) {
                Some(e) => e,
                None => self.config.page_slot_view(self.active_page as int).len() as int,
            },
    {
        let layout = self.config.page_layout(self.active_page);
        match crate::layout::find_gap(layout) {
            Some(e) => e,
            None => layout.len(),
        }
    }
}

/// The Custom keys of a group row order, in order.
pub open spec fn custom_keys(order: Seq<GroupRowKey>) -> Seq<u64>
    decreases order.len(),
{
    if order.len() == 0 {
        Seq::empty()
    } else {
        match order.last() {
            GroupRowKey::Custom(k) => custom_keys(order.drop_last()).push(k),
            _ => custom_keys(order.drop_last()),
        }
    }
}

/// The last position of `key` in `keys`, looking at positions before `end`.
pub open spec fn last_key_before(keys: Seq<u64>, key: u64, end: int) -> Option<int>
    decreases end,
{
    if end <= 0 || end > keys.len() {
        None
    } else if keys[end - 1] == key {
        Some(end - 1)
    } else {
        last_key_before(keys, key, end - 1)
    }
}

/// The first position of `key` in `keys`, looking at positions from `from` on.
pub open spec fn first_key_from(keys: Seq<u64>, key: u64, from: int) -> Option<int>
    decreases keys.len() - from,
{
    if from < 0 || from >= keys.len() {
        None
    } else if keys[from] == key {
        Some(from)
    } else {
        first_key_from(keys, key, from + 1)
    }
}

/// The groups in the order of `new_keys`: for each key, the group whose key
/// it is (its last position in `keys`), skipping keys without a group.
pub open spec fn reordered(groups: Seq<AppGroup>, keys: Seq<u64>, new_keys: Seq<u64>) -> Seq<crate::app_group::GroupView>
    decreases new_keys.len(),
{
    if new_keys.len() == 0 {
        Seq::empty()
    } else {
        let before = reordered(groups, keys, new_keys.drop_last());
        match last_key_before(keys, new_keys.last(), keys.len() as int) {
            Some(i) => if i < groups.len() { before.push(groups[i]@) } else { before },
            None => before,
        }
    }
}

/// The views of a list of groups.
pub open spec fn group_views(groups: Seq<AppGroup>) -> Seq<crate::app_group::GroupView> {
    Seq::new(groups.len(), |i: int| groups[i]@)
}

/// The last position of `key` in `keys`.
fn last_key(keys: &Vec<u64>, key: u64) -> (r: Option<usize>)
    ensures
        match r {
            Some(i) => last_key_before(keys@, key, keys@.len() as int) == Some(i as int),
            None => last_key_before(keys@, key, keys@.len() as int) is None,
        },
{
    let mut end = keys.len();
    while end > 0
        invariant
            end <= keys@.len(),
            last_key_before(keys@, key, keys@.len() as int) == last_key_before(keys@, key, end as int),
        decreases end,
    {
        if keys[end - 1] == key {
            return Some(end - 1);
        }
        end = end - 1;
    }
    None
}

/// The first position of `key` in `keys`.
fn first_key(keys: &Vec<u64>, key: u64) -> (r: Option<usize>)
    ensures
        match r {
            Some(i) => first_key_from(keys@, key, 0) == Some(i as int),
            None => first_key_from(keys@, key, 0) is None,
        },
{
    let n = keys.len();
    let mut i: usize = 0;
    while i < n
        invariant
            n == keys@.len(),
            i <= n,
            first_key_from(keys@, key, 0) == first_key_from(keys@, key, i as int),
        decreases n - i,
    {
        if keys[i] == key {
            return Some(i);
        }
        i = i + 1;
    }
    None
}

impl Launcher {
    /// The group key of the selected group, if any.
    pub open spec fn selected_key(self) -> Option<u64> {
        match self.cur_group {
            Some(i) => if i < self.group_keys@.len() { Some(self.group_keys@[i as int]) } else { None },
            None => None,
        }
    }

    /// Reorders the groups as the group row now shows them. The order is
    /// taken only when it names as many groups as there are and each names
    /// a group; then the keys follow the new order and the selection follows
    /// its group. Says whether the order was taken.
    pub fn reorder_groups(&mut self, new_order: &[GroupRowKey]) -> (r: bool)
        ensures
            ({
                let new_keys = custom_keys(new_order@);
                let groups = reordered(old(self).board.config.groups@, old(self).group_keys@, new_keys);
                &&& r == (new_keys.len() == old(self).board.config.groups@.len()
                    && groups.len() == old(self).board.config.groups@.len())
                &&& !r ==> *final(self) == *old(self)
                &&& r ==> {
                    &&& group_views(final(self).board.config.groups@) == groups
                    &&& final(self).group_keys@ == new_keys
                    &&& final(self).cur_group == match old(self).selected_key() {
                        Some(key) => match first_key_from(new_keys, key, 0) {
                            Some(p) => Some(p as usize),
                            None => None,
                        },
                        None => old(self).cur_group,
                    }
                    &&& final(self).board.config.same_except_groups(old(self).board.config)
                    &&& final(self).board.active_page == old(self).board.active_page
                    &&& final(self).board.search_value == old(self).board.search_value
                    &&& final(self).board.entries == old(self).board.entries
                    &&& final(self).board.entry_groups == old(self).board.entry_groups
                    &&& final(self).surface_state == old(self).surface_state
                    &&& final(self).menu == old(self).menu
                }
            }),
    {
        let prev_selected_key = match self.cur_group {
            Some(i) => if i < self.group_keys.len() { Some(self.group_keys[i]) } else { None },
            None => None,
        };
        let mut new_keys: Vec<u64> = Vec::new();
        let n = new_order.len();
        let mut i: usize = 0;
        while i < n
            invariant
                n == new_order@.len(),
                i <= n,
                new_keys@ == custom_keys(new_order@.take(i as int)),
            decreases n - i,
        {
            assert(new_order@.take(i + 1).drop_last() =~= new_order@.take(i as int));
            match new_order[i] {
                GroupRowKey::Custom(k) => new_keys.push(k),
                _ => {},
            }
            i = i + 1;
        }
        assert(new_order@.take(n as int) =~= new_order@);
        if new_keys.len() != self.board.config.groups.len() {
            return false;
        }
        let ghost groups = self.board.config.groups@;
        let mut moved: Vec<AppGroup> = Vec::new();
        let m = new_keys.len();
        let mut k: usize = 0;
        while k < m
            invariant
                m == new_keys@.len(),
                k <= m,
                groups == self.board.config.groups@,
                group_views(moved@) == reordered(groups, self.group_keys@, new_keys@.take(k as int)),
            decreases m - k,
        {
            assert(new_keys@.take(k + 1).drop_last() =~= new_keys@.take(k as int));
            assert(new_keys@.take(k + 1).last() == new_keys@[k as int]);
            let ghost before = group_views(moved@);
            match last_key(&self.group_keys, new_keys[k]) {
                Some(g) => if g < self.board.config.groups.len() {
                    let copy = crate::app_group::copy_group(&self.board.config.groups[g]);
                    moved.push(copy);
                    assert(group_views(moved@) =~= before.push(groups[g as int]@));
                },
                None => {},
            }
            k = k + 1;
        }
        assert(new_keys@.take(m as int) =~= new_keys@);
        if moved.len() != self.board.config.groups.len() {
            return false;
        }
        self.board.config.groups = moved;
        if let Some(key) = prev_selected_key {
            self.cur_group = first_key(&new_keys, key);
        }
        self.group_keys = new_keys;
        true
    }

    /// Opens the new-group dialog unless it is open already; says whether it
    /// opened.
    pub fn start_new_group(&mut self) -> (r: bool)
        ensures
            r == old(self).new_group is None,
            r ==> final(self).new_group is Some && final(self).new_group->0@.len() == 0
                && *final(self) == (Launcher { new_group: final(self).new_group, ..*old(self) }),
            !r ==> *final(self) == *old(self),
    {
        if self.new_group.is_some() {
            return false;
        }
        self.new_group = Some(String::new());
        true
    }

    /// Creates the group named in the new-group dialog, with a fresh key, and
    /// closes the dialog; says whether a group was created.
    pub fn submit_new_group(&mut self) -> (r: bool)
        requires
            old(self).next_group_key < u64::MAX,
        ensures
            r == old(self).new_group is Some,
            final(self).new_group is None,
            !r ==> *final(self) == *old(self),
            r ==> {
                &&& final(self).board.config.groups@.drop_last() == old(self).board.config.groups@
                &&& final(self).board.config.groups@.len() == old(self).board.config.groups@.len() + 1
                &&& final(self).board.config.groups@.last().name == old(self).new_group->0
                &&& final(self).board.config.groups@.last().filter@ == FilterView::AppIds(Seq::empty())
                &&& final(self).board.config.groups@.last().layout@.len() == 0
                &&& final(self).board.config.same_except_groups(old(self).board.config)
                &&& final(self).group_keys@ == old(self).group_keys@.push(old(self).next_group_key)
                &&& final(self).next_group_key == old(self).next_group_key + 1
                &&& *final(self) == (Launcher {
                    board: Board { config: final(self).board.config, ..old(self).board },
                    new_group: None,
                    group_keys: final(self).group_keys,
                    next_group_key: final(self).next_group_key,
                    ..*old(self)
                })
            },
    {
        match self.new_group.take() {
            Some(name) => {
                self.board.config.add(name);
                self.group_keys.push(self.next_group_key);
                self.next_group_key = self.next_group_key + 1;
                true
            },
            None => false,
        }
    }

    /// Deletes the group whose deletion is being confirmed, with its key, and
    /// selects home; says whether there was one.
    pub fn confirm_delete(&mut self) -> (r: bool)
        ensures
            r == old(self).group_to_delete is Some,
            final(self).group_to_delete is None,
            !r ==> *final(self) == *old(self),
            r ==> {
                let g = old(self).group_to_delete->0;
                &&& final(self).board.config.groups@ == if g < old(self).board.config.groups.len() {
                    old(self).board.config.groups@.remove(g as int)
                } else {
                    old(self).board.config.groups@
                }
                &&& final(self).group_keys@ == if g < old(self).group_keys.len() {
                    old(self).group_keys@.remove(g as int)
                } else {
                    old(self).group_keys@
                }
                &&& final(self).board.config.same_except_groups(old(self).board.config)
                &&& final(self).cur_group is None
                &&& *final(self) == (Launcher {
                    board: Board { config: final(self).board.config, ..old(self).board },
                    group_keys: final(self).group_keys,
                    group_to_delete: None,
                    cur_group: None,
                    ..*old(self)
                })
            },
    {
        match self.group_to_delete.take() {
            Some(group) => {
                self.board.config.remove(group);
                if group < self.group_keys.len() {
                    self.group_keys.remove(group);
                }
                self.cur_group = None;
                true
            },
            None => false,
        }
    }
}

impl Launcher {
    /// Selects `group` (`None` is home): stops editing its name and clears
    /// the search.
    pub fn select_group(&mut self, group: Option<usize>)
        ensures
            final(self).cur_group == group,
            final(self).edit_name is None,
            final(self).board.search_value@.len() == 0,
            *final(self) == (Launcher {
                cur_group: group,
                edit_name: None,
                board: Board { search_value: final(self).board.search_value, ..old(self).board },
                ..*old(self)
            }),
    {
        self.edit_name = None;
        self.board.search_value = String::new();
        self.cur_group = group;
    }

    /// Gives the selected group the name being edited, and stops editing;
    /// says whether a group was renamed.
    pub fn submit_name(&mut self) -> (r: bool)
        ensures
            r == (old(self).edit_name is Some && old(self).cur_group is Some),
            final(self).edit_name is None,
            final(self).board.config.same_except_groups(old(self).board.config),
            final(self).board.config.groups@ == if r && old(self).cur_group->0 < old(self).board.config.groups.len() {
                old(self).board.config.groups@.update(
                    old(self).cur_group->0 as int,
                    AppGroup { name: old(self).edit_name->0, ..old(self).board.config.groups@[old(self).cur_group->0 as int] },
                )
            } else {
                old(self).board.config.groups@
            },
            *final(self) == (Launcher {
                edit_name: None,
                board: Board { config: final(self).board.config, ..old(self).board },
                ..*old(self)
            }),
    {
        let name = self.edit_name.take();
        match (name, self.cur_group) {
            (Some(name), Some(i)) => {
                self.board.config.set_name(i, name);
                true
            },
            _ => false,
        }
    }

    /// Opens the context menu of entry `i`, or closes the menu when one is
    /// open; says whether it opened.
    pub fn toggle_context_menu(&mut self, i: usize) -> (r: bool)
        ensures
            r == old(self).menu is None,
            final(self).menu == if r { Some(i) } else { None },
            *final(self) == (Launcher { menu: final(self).menu, ..*old(self) }),
    {
        if self.menu.take().is_some() {
            false
        } else {
            self.menu = Some(i);
            true
        }
    }
}

/// What a press on an application tile does.
#[derive(Clone, Copy, Debug, PartialEq, Eq, Structural)]
pub enum TilePress {
    /// Close the settings; nothing is launched or dragged.
    CloseSettings,
    /// Launch the application.
    Launch,
    /// Open the tile's context menu.
    OpenMenu,
    /// Close the open context menu.
    CloseMenu,
    /// Nothing happens.
    Ignore,
}

impl Launcher {
    /// A primary press on the tile of entry `i`. While the settings are open,
    /// the first press only closes them; with no menu open it launches; on
    /// the tile whose menu is open it closes the menu; on another tile it does
    /// nothing.
    pub fn tile_press(&self, i: usize) -> (r: TilePress)
        ensures
            r == if self.settings_open {
                TilePress::CloseSettings
            } else if self.menu is None {
                TilePress::Launch
            } else if self.menu == Some(i) {
                TilePress::CloseMenu
            } else {
                TilePress::Ignore
            },
    {
        if self.settings_open {
            TilePress::CloseSettings
        } else if self.menu.is_none() {
            TilePress::Launch
        } else if self.menu == Some(i) {
            TilePress::CloseMenu
        } else {
            TilePress::Ignore
        }
    }

    /// A secondary press on a tile: it closes the settings when they are
    /// open, and opens the tile's context menu otherwise.
    pub fn tile_menu_press(&self) -> (r: TilePress)
        ensures
            r == if self.settings_open { TilePress::CloseSettings } else { TilePress::OpenMenu },
    {
        if self.settings_open { TilePress::CloseSettings } else { TilePress::OpenMenu }
    }

    /// Whether tiles can be dragged: not while the settings or a context
    /// menu are open.
    pub fn tiles_draggable(&self) -> (r: bool)
        ensures
            r == (!self.settings_open && self.menu is None),
    {
        !self.settings_open && self.menu.is_none()
    }
}

/// Moving focus up a row of seven: from no focus the move starts below the
/// last entry; from the first entry focus leaves the grid; otherwise it goes
/// seven entries back (at least to the first) if that entry exists.
pub fn prev_row(focused: Option<usize>, count: usize) -> (r: RowMove)
    ensures
        ({
            let i = match focused { Some(f) => f as int, None => if count + 6 > usize::MAX { usize::MAX as int } else { count + 6 } };
            let target = if i < 7 { 0 } else { i - 7 };
            r == if i == 0 { RowMove::Release } else if target < count { RowMove::Focus(target as usize) } else { RowMove::Stay }
        }),
{
    let i = match focused {
        Some(f) => f,
        None => count.saturating_add(6),
    };
    if i == 0 {
        return RowMove::Release;
    }
    let target = i.saturating_sub(7);
    if target < count { RowMove::Focus(target) } else { RowMove::Stay }
}

/// Moving focus down a row of seven: from no focus the move starts above the
/// first entry; from the last entry focus leaves the grid; otherwise it goes
/// seven entries on, at most to the last entry.
pub fn next_row(focused: Option<usize>, count: usize) -> (r: RowMove)
    requires
        count <= i32::MAX,
        focused matches Some(f) ==> f < count,
    ensures
        ({
            let i = match focused { Some(f) => f as int, None => -7 };
            let target = if i + 7 < count - 1 { i + 7 } else { count - 1 };
            r == if i == count - 1 { RowMove::Release } else if 0 <= target { RowMove::Focus(target as usize) } else { RowMove::Stay }
        }),
{
    let i: i64 = match focused {
        Some(f) => f as i64,
        None => -7,
    };
    let last = count as i64 - 1;
    if i == last {
        return RowMove::Release;
    }
    let target = if i + 7 < last { i + 7 } else { last };
    if 0 <= target { RowMove::Focus(target as usize) } else { RowMove::Stay }
}

impl Launcher {
    /// The selected group, or the home section when none is.
    pub fn current_group(&self) -> (r: AppGroup)
        requires
            self.cur_group matches Some(i) ==> i < self.board.config.groups@.len(),
        ensures
            match self.cur_group {
                Some(i) => r@ == self.board.config.groups@[i as int]@,
                None => r.name@ == "cosmic-library-home"@ && r.icon@ == "user-home-symbolic"@
                    && r.filter@ == FilterView::NoFilter && r.layout@.len() == 0,
            },
    {
        match self.cur_group {
            Some(i) => crate::app_group::copy_group(&self.board.config.groups[i]),
            None => AppLibraryConfig::home(),
        }
    }

    /// The application dropped onto a Launchpad slot: the dragged entry when
    /// it is on display, else the dropped desktop entry's ID.
    pub open spec fn dropped_app(self, dropped_id: Option<String>) -> Option<Seq<char>> {
        match self.dnd_icon {
            Some(i) => if i < self.board.entries@.len() {
                Some(self.board.entries@[i as int].id@)
            } else {
                match dropped_id { Some(s) => Some(s@), None => None }
            },
            None => match dropped_id { Some(s) => Some(s@), None => None },
        }
    }

    /// A tile is dropped onto `slot` of the active page: the dragged entry
    /// (or else the dropped one) is placed there (see
    /// [`AppLibraryConfig::place_entry_on_page`]) and the drag ends. Says
    /// whether an application was placed.
    pub fn drop_on_page_slot(&mut self, slot: usize, dropped_id: Option<String>) -> (r: bool)
        requires
            old(self).board.active_page < old(self).board.config.spec_page_count() ==> slot < usize::MAX,
        ensures
            r == old(self).dropped_app(dropped_id) is Some,
            final(self).dnd_icon is None,
            !r ==> *final(self) == (Launcher { dnd_icon: None, ..*old(self) }),
            r ==> {
                &&& final(self).board.config.page_slots() == crate::app_group::pages_after_drop(
                    old(self).board.config.page_slots(),
                    old(self).board.active_page as int,
                    slot as int,
                    old(self).dropped_app(dropped_id)->0,
                )
                &&& final(self).board.config.groups == old(self).board.config.groups
                &&& final(self).board.config.same_except_layouts(old(self).board.config)
                &&& final(self).board.active_page == old(self).board.active_page
                &&& final(self).board.entries == old(self).board.entries
            },
    {
        let dragged = match self.dnd_icon.take() {
            Some(i) => if i < self.board.entries.len() {
                Some(self.board.entries[i].id.clone())
            } else {
                None
            },
            None => None,
        };
        let app = match dragged {
            Some(id) => Some(id),
            None => dropped_id,
        };
        match app {
            Some(id) => {
                let page = self.board.active_page;
                self.board.config.place_entry_on_page(page, slot, id.as_str());
                true
            },
            None => false,
        }
    }
}

/// The filter of group `k` of `c` after `id` moves from group `from` into
/// group `to`: nothing changes when it stays in its group; otherwise it
/// leaves the filter of `from` and joins that of `to`, or, when `to` is no
/// group, is released from every group (see [`AppLibraryConfig::remove_entry`]
/// and [`AppLibraryConfig::add_entry`]).
pub open spec fn filter_after_move(c: AppLibraryConfig, k: int, from: Option<usize>, to: usize, id: Seq<char>) -> FilterView {
    let f0 = c.groups@[k].filter@;
    if from == Some(to) {
        f0
    } else {
        let f1 = if c.existing_group(from) == Some(k) { filter_without_entry(f0, id) } else { f0 };
        match c.existing_group(Some(to)) {
            Some(j) => if j == k { filter_with_entry(f1, id) } else { f1 },
            None => filter_released(f1, id),
        }
    }
}

/// The home and group layouts after `id` is dropped onto `slot` of layout
/// `t` of `ls` (see [`AppLibraryConfig::place_entry`]).
pub open spec fn layouts_after_drop(ls: Seq<Seq<Slot>>, t: int, group: Option<usize>, slot: int, id: Seq<char>) -> Seq<Seq<Slot>> {
    Seq::new(ls.len(), |k: int| if k == t {
        dropped(ls[k], slot, id, AppLibraryConfig::swap_slot_in(ls, group, id))
    } else {
        without(ls[k], id)
    })
}

impl Launcher {
    /// The group of the dragged entry, when one on display is dragged.
    pub open spec fn source_hint(self) -> Option<Option<usize>> {
        match self.dnd_icon {
            Some(i) => if i < self.board.entry_groups@.len() {
                Some(self.board.entry_groups@[i as int])
            } else {
                None
            },
            None => None,
        }
    }

    /// The dragged entry's ID and group, when one on display is dragged.
    pub open spec fn drag_source(self) -> Option<(Seq<char>, Option<usize>)> {
        match self.dnd_icon {
            Some(i) => if i < self.board.entries@.len() && i < self.board.entry_groups@.len() {
                Some((self.board.entries@[i as int].id@, self.board.entry_groups@[i as int]))
            } else {
                None
            },
            None => None,
        }
    }

    /// The application dropped onto a group slot and the group it comes
    /// from: the dragged entry, else the dropped desktop entry, which comes
    /// from no group.
    pub open spec fn group_drop_app(self, dropped_id: Option<String>) -> Option<(Seq<char>, Option<usize>)> {
        match self.drag_source() {
            Some(s) => Some(s),
            None => match dropped_id {
                Some(s) => Some((s@, None)),
                None => None,
            },
        }
    }

    /// The home and group layouts once the group dropped onto, and the group
    /// the drag comes from, keep the arrangement they show (see
    /// [`Board::layout_snapshot`]).
    pub open spec fn settled_layouts(self, group: usize) -> Seq<Seq<Slot>> {
        let c = self.board.config;
        let ls = c.group_slots().update(
            c.layout_index(Some(group)),
            trim_trailing(self.board.snapshot_view(Some(group))),
        );
        match self.source_hint() {
            Some(sg) => if sg != Some(group) {
                ls.update(c.layout_index(sg), trim_trailing(self.board.snapshot_view(sg)))
            } else {
                ls
            },
            None => ls,
        }
    }

    /// A tile is dropped onto `slot` of `group`. The group, and the group
    /// the drag comes from, first keep the arrangement they show; the drag
    /// ends. Then the dragged entry (or else the dropped one) moves into the
    /// group's filter when it comes from another group, and is placed on
    /// `slot` (see [`AppLibraryConfig::place_entry`]). Says whether an
    /// application was placed.
    pub fn drop_on_group_slot(&mut self, group: usize, slot: usize, dropped_id: Option<String>) -> (r: bool)
        requires
            slot < usize::MAX,
            old(self).board.fits_grid(Some(group), old(self).board.snapshot_indices(Some(group))),
            old(self).source_hint() matches Some(sg) ==> (sg != Some(group)
                ==> old(self).board.fits_grid(sg, old(self).board.snapshot_indices(sg))),
        ensures
            r == old(self).group_drop_app(dropped_id) is Some,
            *final(self) == (Launcher { dnd_icon: None, board: final(self).board, ..*old(self) }),
            final(self).board.entries == old(self).board.entries,
            final(self).board.entry_groups == old(self).board.entry_groups,
            final(self).board.active_page == old(self).board.active_page,
            final(self).board.search_value == old(self).board.search_value,
            final(self).board.config.same_settings(old(self).board.config),
            final(self).board.config.hidden_apps@ == old(self).board.config.hidden_apps@,
            final(self).board.config.home_page_name@ == old(self).board.config.home_page_name@,
            final(self).board.config.launchpad_pages == old(self).board.config.launchpad_pages,
            final(self).board.config.groups@.len() == old(self).board.config.groups@.len(),
            forall|k: int| 0 <= k < old(self).board.config.groups@.len() ==> {
                &&& (#[trigger] final(self).board.config.groups@[k]).name == old(self).board.config.groups@[k].name
                &&& final(self).board.config.groups@[k].icon == old(self).board.config.groups@[k].icon
            },
            !r ==> final(self).board.config.group_slots() == old(self).settled_layouts(group),
            !r ==> forall|k: int| 0 <= k < old(self).board.config.groups@.len()
                ==> (#[trigger] final(self).board.config.groups@[k]).filter == old(self).board.config.groups@[k].filter,
            r ==> ({
                let (id, from) = old(self).group_drop_app(dropped_id)->0;
                &&& final(self).board.config.group_slots() == layouts_after_drop(
                    old(self).settled_layouts(group),
                    old(self).board.config.layout_index(Some(group)),
                    Some(group),
                    slot as int,
                    id,
                )
                &&& forall|k: int| 0 <= k < old(self).board.config.groups@.len()
                    ==> (#[trigger] final(self).board.config.groups@[k]).filter@
                        == filter_after_move(old(self).board.config, k, from, group, id)
            }),
    {
        let ghost start = *self;
        let hint: Option<Option<usize>> = match self.dnd_icon {
            Some(i) => if i < self.board.entry_groups.len() {
                Some(self.board.entry_groups[i])
            } else {
                None
            },
            None => None,
        };
        let destination = self.board.layout_snapshot(Some(group));
        let source = match hint {
            Some(sg) => if sg != Some(group) {
                Some((sg, self.board.layout_snapshot(sg)))
            } else {
                None
            },
            None => None,
        };
        self.board.config.set_layout(Some(group), destination);
        match source {
            Some((sg, snapshot)) => self.board.config.set_layout(sg, snapshot),
            None => {},
        }
        let ghost settled = *self;
        assert(settled.board.config.group_slots() =~= start.settled_layouts(group));
        let dragged = match self.dnd_icon.take() {
            Some(i) => if i < self.board.entries.len() && i < self.board.entry_groups.len() {
                Some((self.board.entries[i].id.clone(), self.board.entry_groups[i]))
            } else {
                None
            },
            None => None,
        };
        let app = match dragged {
            Some(a) => Some(a),
            None => match dropped_id {
                Some(id) => Some((id, None)),
                None => None,
            },
        };
        let (id, from) = match app {
            Some(a) => a,
            None => return false,
        };
        if from != Some(group) {
            self.board.config.remove_entry(from, id.as_str());
            self.board.config.add_entry(Some(group), id.as_str());
        }
        let ghost moved = *self;
        assert(moved.board.config.group_slots() =~= settled.board.config.group_slots()) by {
            assert forall|k: int| 0 <= k < settled.board.config.groups@.len()
                implies #[trigger] moved.board.config.groups@[k].layout == settled.board.config.groups@[k].layout by {
                if from != Some(group) {
                    assert(same_but_filter(moved.board.config.groups@[k], settled.board.config.groups@[k]) || moved.board.config.groups@[k] == settled.board.config.groups@[k]);
                }
            }
        }
        self.board.config.place_entry(Some(group), slot, id.as_str());
        true
    }
}

/// The graphics card an application runs on by default, given which cards
/// are the system default: the first non-default card for applications that
/// prefer a discrete card, else the first default card; the first card when
/// there is no such card.
pub open spec fn preferred_gpu_index(defaults: Seq<bool>, prefers_dgpu: bool) -> int {
    match first_with(defaults, !prefers_dgpu, 0) {
        Some(i) => i,
        None => 0,
    }
}

/// The first position, from `from` on, where `flags` holds `want`.
pub open spec fn first_with(flags: Seq<bool>, want: bool, from: int) -> Option<int>
    decreases flags.len() - from,
{
    if from < 0 || from >= flags.len() {
        None
    } else if flags[from] == want {
        Some(from)
    } else {
        first_with(flags, want, from + 1)
    }
}

/// The graphics card an application runs on by default (see
/// [`preferred_gpu_index`]); `defaults` says of each card whether it is the
/// system default.
pub fn preferred_gpu(defaults: &[bool], prefers_dgpu: bool) -> (r: usize)
    ensures
        r == preferred_gpu_index(defaults@, prefers_dgpu),
{
    let want = !prefers_dgpu;
    let n = defaults.len();
    let mut i: usize = 0;
    while i < n
        invariant
            n == defaults@.len(),
            i <= n,
            want == !prefers_dgpu,
            first_with(defaults@, want, 0) == first_with(defaults@, want, i as int),
        decreases n - i,
    {
        if defaults[i] == want {
            return i;
        }
        i = i + 1;
    }
    0
}

/// The environment that announces an activation token to a started
/// application: both variable names carry the token; without one, nothing.
pub fn activation_environment(token: Option<String>) -> (r: Vec<(String, String)>)
    ensures
        match token {
            Some(t) => r@.len() == 2 && r@[0].0@ == "XDG_ACTIVATION_TOKEN"@ && r@[0].1@ == t@
                && r@[1].0@ == "DESKTOP_STARTUP_ID"@ && r@[1].1@ == t@,
            None => r@.len() == 0,
        },
{
    let mut env: Vec<(String, String)> = Vec::new();
    if let Some(token) = token {
        env.push((String::from_str("XDG_ACTIVATION_TOKEN"), token.clone()));
        env.push((String::from_str("DESKTOP_STARTUP_ID"), token));
    }
    env
}
} // verus!
