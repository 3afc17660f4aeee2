//! Changes to the board settings.
use vstd::prelude::*;

use crate::app_group::AppLibraryConfig;

verus! {

/// `value` changed by `change`, kept within `lo..=hi`.
pub open spec fn clamp_step(value: int, change: int, lo: int, hi: int) -> int {
    let v = value + change;
    if v < lo { lo } else if v > hi { hi } else { v }
}

/// `value` changed by `change`, kept within `lo..=hi`.
pub fn step_within(value: u16, change: i16, lo: u16, hi: u16) -> (r: u16)
    requires
        lo <= hi,
    ensures
        r == clamp_step(value as int, change as int, lo as int, hi as int),
{
    let v = value as i32 + change as i32;
    if v < lo as i32 {
        lo
    } else if v > hi as i32 {
        hi
    } else {
        v as u16
    }
}

impl AppLibraryConfig {
    /// Changes the tile size by `change` pixels, within 32 to 128.
    pub fn adjust_icon_size(&mut self, change: i16)
        ensures
            final(self).icon_size == clamp_step(old(self).icon_size as int, change as int, 32, 128),
            *final(self) == (AppLibraryConfig { icon_size: final(self).icon_size, ..*old(self) }),
    {
        self.icon_size = step_within(self.icon_size, change, 32, 128);
    }

    /// Changes the board width by `change` pixels, within 700 to 1800.
    pub fn adjust_board_width(&mut self, change: i16)
        ensures
            final(self).board_width == clamp_step(old(self).board_width as int, change as int, 700, 1800),
            *final(self) == (AppLibraryConfig { board_width: final(self).board_width, ..*old(self) }),
    {
        self.board_width = step_within(self.board_width, change, 700, 1800);
    }

    /// Changes the board height by `change` pixels, within 450 to 1000.
    pub fn adjust_board_height(&mut self, change: i16)
        ensures
            final(self).board_height == clamp_step(old(self).board_height as int, change as int, 450, 1000),
            *final(self) == (AppLibraryConfig { board_height: final(self).board_height, ..*old(self) }),
    {
        self.board_height = step_within(self.board_height, change, 450, 1000);
    }

    /// Changes the tile spacing by `change` pixels, within 0 to 32.
    pub fn adjust_tile_gap(&mut self, change: i16)
        ensures
            final(self).tile_gap == clamp_step(old(self).tile_gap as int, change as int, 0, 32),
            *final(self) == (AppLibraryConfig { tile_gap: final(self).tile_gap, ..*old(self) }),
    {
        self.tile_gap = step_within(self.tile_gap, change, 0, 32);
    }

    /// Changes the momentum strength by `change` percent, within 25 to 300.
    pub fn adjust_momentum_strength(&mut self, change: i16)
        ensures
            final(self).momentum_strength == clamp_step(old(self).momentum_strength as int, change as int, 25, 300),
            *final(self) == (AppLibraryConfig { momentum_strength: final(self).momentum_strength, ..*old(self) }),
    {
        self.momentum_strength = step_within(self.momentum_strength, change, 25, 300);
    }

    /// Changes the scroll glide by `change` percent, within 25 to 300.
    pub fn adjust_scroll_glide(&mut self, change: i16)
        ensures
            final(self).scroll_glide == clamp_step(old(self).scroll_glide as int, change as int, 25, 300),
            *final(self) == (AppLibraryConfig { scroll_glide: final(self).scroll_glide, ..*old(self) }),
    {
        self.scroll_glide = step_within(self.scroll_glide, change, 25, 300);
    }

    /// Changes the release delay by `change` milliseconds, within 4 to 40.
    pub fn adjust_release_delay(&mut self, change: i16)
        ensures
            final(self).release_delay_ms == clamp_step(old(self).release_delay_ms as int, change as int, 4, 40),
            *final(self) == (AppLibraryConfig { release_delay_ms: final(self).release_delay_ms, ..*old(self) }),
    {
        self.release_delay_ms = step_within(self.release_delay_ms, change, 4, 40);
    }

    /// Shows or hides the application labels.
    pub fn toggle_labels(&mut self)
        ensures
            *final(self) == (AppLibraryConfig { show_labels: !old(self).show_labels, ..*old(self) }),
    {
        self.show_labels = !self.show_labels;
    }

    /// Turns the hover name tooltips on or off.
    pub fn toggle_tooltips(&mut self)
        ensures
            *final(self) == (AppLibraryConfig { show_tooltips: !old(self).show_tooltips, ..*old(self) }),
    {
        self.show_tooltips = !self.show_tooltips;
    }

    /// Turns kinetic trackpad scrolling on or off.
    pub fn toggle_kinetic_scrolling(&mut self)
        ensures
            *final(self) == (AppLibraryConfig { kinetic_scrolling: !old(self).kinetic_scrolling, ..*old(self) }),
    {
        self.kinetic_scrolling = !self.kinetic_scrolling;
    }

    /// Shows every hidden application in Other Apps again.
    pub fn restore_hidden_apps(&mut self)
        ensures
            final(self).hidden_apps@.len() == 0,
            *final(self) == (AppLibraryConfig { hidden_apps: final(self).hidden_apps, ..*old(self) }),
    {
        self.hidden_apps.clear();
    }
}

} // verus!
