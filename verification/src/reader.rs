//! Decisions of the per-device read loop and of the hotplug watcher. The
//! blocking reads, sleeps and thread plumbing live outside; each observed
//! outcome is brought here and the next step is decided.

use vstd::prelude::*;
use crate::keys::InputEvent;

verus! {

/// Whether the loop is reading normally or draining a kernel resync.
#[derive(PartialEq, Eq, Structural, Clone, Copy, Debug)]
pub enum ReaderMode {
    Normal,
    Draining,
}

/// What one read attempt came back with.
#[derive(PartialEq, Eq, Structural, Clone, Copy, Debug)]
pub enum ReadOutcome {
    Success(InputEvent),
    Sync(InputEvent),
    NoDevice,
    WouldBlock,
    OtherError,
}

/// What the loop does next.
#[derive(PartialEq, Eq, Structural, Clone, Copy, Debug)]
pub enum ReaderAction {
    Handle(InputEvent),
    StartDrain,
    KeepDraining,
    StopDrain,
    Retry,
    Stop,
}

/// The read loop's decision table. An abort request ends the loop. In normal
/// reading: a success is handled; a sync status starts a drain; a missing
/// device or an unexpected error ends the loop; a would-block outcome backs
/// off and retries. While draining, sync events keep the drain going and
/// anything else returns to normal reading, the outcome dropped.
pub open spec fn spec_reader_step(
    mode: ReaderMode,
    outcome: ReadOutcome,
    aborted: bool,
) -> (ReaderMode, ReaderAction) {
    if aborted {
        (mode, ReaderAction::Stop)
    } else {
        match mode {
            ReaderMode::Normal => match outcome {
                ReadOutcome::Success(ev) => (ReaderMode::Normal, ReaderAction::Handle(ev)),
                ReadOutcome::Sync(_) => (ReaderMode::Draining, ReaderAction::StartDrain),
                ReadOutcome::NoDevice => (ReaderMode::Normal, ReaderAction::Stop),
                ReadOutcome::WouldBlock => (ReaderMode::Normal, ReaderAction::Retry),
                ReadOutcome::OtherError => (ReaderMode::Normal, ReaderAction::Stop),
            },
            ReaderMode::Draining => match outcome {
                ReadOutcome::Sync(_) => (ReaderMode::Draining, ReaderAction::KeepDraining),
                _ => (ReaderMode::Normal, ReaderAction::StopDrain),
            },
        }
    }
}

/// Decide the next step of a device read loop.
pub fn reader_step(mode: ReaderMode, outcome: ReadOutcome, aborted: bool) -> (r: (
    ReaderMode,
    ReaderAction,
))
    ensures
        r == spec_reader_step(mode, outcome, aborted),
{
    if aborted {
        return (mode, ReaderAction::Stop);
    }
    match mode {
        ReaderMode::Normal => match outcome {
            ReadOutcome::Success(ev) => (ReaderMode::Normal, ReaderAction::Handle(ev)),
            ReadOutcome::Sync(_) => (ReaderMode::Draining, ReaderAction::StartDrain),
            ReadOutcome::NoDevice => (ReaderMode::Normal, ReaderAction::Stop),
            ReadOutcome::WouldBlock => (ReaderMode::Normal, ReaderAction::Retry),
            ReadOutcome::OtherError => (ReaderMode::Normal, ReaderAction::Stop),
        },
        ReaderMode::Draining => match outcome {
            ReadOutcome::Sync(_) => (ReaderMode::Draining, ReaderAction::KeepDraining),
            _ => (ReaderMode::Normal, ReaderAction::StopDrain),
        },
    }
}

} // verus!
