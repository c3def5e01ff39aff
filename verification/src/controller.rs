//! The application shell's state machine: hidden behind the tray icon,
//! showing the settings form, waiting for an out-of-process screen
//! snapshot, or running the region selector. Transitions are pure; the
//! surrounding event loop only performs what they decide.

use vstd::prelude::*;

verus! {

/// A message from the tray-icon menu.
#[derive(Clone, Copy, Eq, PartialEq, Debug)]
pub enum AppMessage {
    OpenSettings,
    Exit,
}

/// The four states of the shell.
#[derive(Clone, Copy, Eq, PartialEq, Debug)]
pub enum AppState {
    Hidden,
    Settings,
    WaitingForCapture,
    Selecting,
}

/// One event the shell reacts to.
#[derive(Clone, Copy, Eq, PartialEq, Debug)]
pub enum AppEvent {
    Message(AppMessage),
    /// The user asked to pick a capture region from the settings form.
    RegionPickRequested,
    /// The background snapshot arrived and loaded (`true`), or could not
    /// be read or decoded (`false`).
    SnapshotReady(bool),
    /// The region selector finished, with or without a rectangle.
    SelectionFinished,
    /// The user saved the settings and dismissed the form.
    SaveAndHide,
}

/// The next state of the shell. A region pick is honoured only from the
/// settings form, so a second request while a snapshot is already
/// pending is ignored; a snapshot that fails to load falls back to the
/// settings form; an exit message leaves the state alone (the process
/// ends instead).
pub open spec fn spec_controller_step(st: AppState, ev: AppEvent) -> AppState {
    match ev {
        AppEvent::Message(m) => match m {
            AppMessage::OpenSettings => AppState::Settings,
            AppMessage::Exit => st,
        },
        AppEvent::RegionPickRequested => if st is Settings {
            AppState::WaitingForCapture
        } else {
            st
        },
        AppEvent::SnapshotReady(ok) => if st is WaitingForCapture {
            if ok {
                AppState::Selecting
            } else {
                AppState::Settings
            }
        } else {
            st
        },
        AppEvent::SelectionFinished => if st is Selecting {
            AppState::Settings
        } else {
            st
        },
        AppEvent::SaveAndHide => if st is Settings {
            AppState::Hidden
        } else {
            st
        },
    }
}

/// Schedule polling runs only while the shell is hidden: never during
/// the settings form, never while waiting for a snapshot, never during
/// an active selection.
pub open spec fn polling_allowed(st: AppState) -> bool {
    st is Hidden
}

/// Apply one event to the shell state.
pub fn controller_step(st: &mut AppState, ev: &AppEvent)
    ensures
        *final(st) == spec_controller_step(*old(st), *ev),
{
    match ev {
        AppEvent::Message(m) => match m {
            AppMessage::OpenSettings => {
                *st = AppState::Settings;
            },
            AppMessage::Exit => {},
        },
        AppEvent::RegionPickRequested => {
            match *st {
                AppState::Settings => {
                    *st = AppState::WaitingForCapture;
                },
                _ => {},
            }
        },
        AppEvent::SnapshotReady(ok) => {
            match *st {
                AppState::WaitingForCapture => {
                    *st = if *ok {
                        AppState::Selecting
                    } else {
                        AppState::Settings
                    };
                },
                _ => {},
            }
        },
        AppEvent::SelectionFinished => {
            match *st {
                AppState::Selecting => {
                    *st = AppState::Settings;
                },
                _ => {},
            }
        },
        AppEvent::SaveAndHide => {
            match *st {
                AppState::Settings => {
                    *st = AppState::Hidden;
                },
                _ => {},
            }
        },
    }
}

/// Whether the schedule may be polled in the given state.
pub fn may_poll(st: &AppState) -> (r: bool)
    ensures
        r == polling_allowed(*st),
{
    match st {
        AppState::Hidden => true,
        _ => false,
    }
}

/// A second region-pick request while a snapshot is already pending is
/// ignored: no two interactive capture attempts can be in flight.
pub proof fn lemma_second_pick_ignored()
    ensures
        spec_controller_step(AppState::WaitingForCapture, AppEvent::RegionPickRequested)
            == AppState::WaitingForCapture,
        spec_controller_step(AppState::Selecting, AppEvent::RegionPickRequested)
            == AppState::Selecting,
{
}

} // verus!
