//! The command line and the requests other launches send.
use vstd::prelude::*;

use crate::launcher::{Hiding, Launcher, SurfaceState};

verus! {

/// A request to the launcher, from its command line or from another launch.
pub enum ApplicationsTasks {
    /// Start the launcher with an input.
    Input { input: Option<String> },
    /// Close the launcher if open.
    Close,
    /// Run a standalone instance (not single-instance).
    Run,
}

/// The launcher's command line.
pub struct Args {
    pub subcommand: Option<ApplicationsTasks>,
}

impl Args {
    /// The request given on the command line, if any.
    pub fn action(&self) -> (r: Option<&ApplicationsTasks>)
        ensures
            r == match &self.subcommand {
                Some(t) => Some(t),
                None => None::<&ApplicationsTasks>,
            },
    {
        match &self.subcommand {
            Some(t) => Some(t),
            None => None,
        }
    }

    /// The launcher runs on its own, rather than as the single instance that
    /// later launches talk to, when asked to with `Run`.
    pub fn runs_standalone(&self) -> (r: bool)
        ensures
            r == (self.subcommand matches Some(ApplicationsTasks::Run)),
    {
        match &self.subcommand {
            Some(ApplicationsTasks::Run) => true,
            _ => false,
        }
    }

    /// The launcher opens when it starts, unless asked to close.
    pub fn opens_on_start(&self) -> (r: bool)
        ensures
            r == !(self.subcommand matches Some(ApplicationsTasks::Close)),
    {
        match &self.subcommand {
            Some(ApplicationsTasks::Close) => false,
            _ => true,
        }
    }
}

/// What a request sent by another launch leads to.
pub enum TaskResponse {
    /// Activate the launcher (see [`Launcher::activate`]).
    Activate,
    /// The launcher was asked to close (see [`Launcher::hide_launcher`]).
    Hidden(Hiding),
    /// Nothing to do.
    Ignore,
}

impl Launcher {
    /// Handles a request sent by another launch: an input is kept for the
    /// search and opens a hidden launcher; `Close` hides it; `Run` only
    /// matters at start.
    pub fn handle_task(&mut self, task: ApplicationsTasks) -> (r: TaskResponse)
        ensures
            match task {
                ApplicationsTasks::Input { input } => {
                    &&& final(self).hand_over@ == match input {
                        Some(s) => old(self).hand_over@ + s@,
                        None => old(self).hand_over@,
                    }
                    &&& *final(self) == (Launcher { hand_over: final(self).hand_over, ..*old(self) })
                    &&& (r matches TaskResponse::Activate) == (old(self).surface_state == SurfaceState::Hidden)
                    &&& (r matches TaskResponse::Ignore) == (old(self).surface_state != SurfaceState::Hidden)
                },
                ApplicationsTasks::Close => r matches TaskResponse::Hidden(h) && {
                    &&& old(self).surface_state != SurfaceState::Visible
                        ==> h == Hiding::Ignore && *final(self) == *old(self)
                    &&& old(self).surface_state == SurfaceState::Visible && old(self).dnd_icon is Some
                        ==> h == Hiding::EndDragFirst && *final(self) == (Launcher { dnd_icon: None, ..*old(self) })
                    &&& old(self).surface_state == SurfaceState::Visible && old(self).dnd_icon is None
                        ==> h == Hiding::Close && final(self).reset_for_hiding(*old(self))
                },
                ApplicationsTasks::Run => r matches TaskResponse::Ignore && *final(self) == *old(self),
            },
    {
        match task {
            ApplicationsTasks::Input { input } => {
                if self.hand_over_input(input) {
                    TaskResponse::Activate
                } else {
                    TaskResponse::Ignore
                }
            },
            ApplicationsTasks::Close => TaskResponse::Hidden(self.hide_launcher()),
            ApplicationsTasks::Run => TaskResponse::Ignore,
        }
    }
}

} // verus!
