//! The catalog daemon's loop, as a state machine. One rebuild at a time:
//! changes that arrive while a rebuild runs are coalesced into one more
//! rebuild after it, so no change is lost and no two rebuilds overlap.
use vstd::prelude::*;

verus! {

#[derive(PartialEq, Eq, Structural, Clone, Copy, Debug)]
pub enum WatcherState {
    Idle,
    /// A rebuild runs; `pending` records a change seen since it started.
    Scanning { pending: bool },
}

#[derive(PartialEq, Eq, Structural, Clone, Copy, Debug)]
pub enum WatchEvent {
    /// The watched tree changed.
    Changed,
    /// The change subscription reported an error.
    WatchFailed,
    /// The running rebuild finished, successfully or not.
    ScanFinished,
}

#[derive(PartialEq, Eq, Structural, Clone, Copy, Debug)]
pub enum WatchAction {
    Rebuild,
    /// Log the subscription error and keep waiting.
    Report,
    Wait,
}

pub open spec fn watcher_next(s: WatcherState, e: WatchEvent) -> (WatcherState, WatchAction) {
    match e {
        WatchEvent::WatchFailed => (s, WatchAction::Report),
        WatchEvent::Changed => match s {
            WatcherState::Idle => (WatcherState::Scanning { pending: false }, WatchAction::Rebuild),
            WatcherState::Scanning { .. } => (
                WatcherState::Scanning { pending: true },
                WatchAction::Wait,
            ),
        },
        WatchEvent::ScanFinished => match s {
            WatcherState::Scanning { pending: true } => (
                WatcherState::Scanning { pending: false },
                WatchAction::Rebuild,
            ),
            _ => (WatcherState::Idle, WatchAction::Wait),
        },
    }
}

/// The daemon starts with one unconditional rebuild.
pub fn watcher_start() -> (r: (WatcherState, WatchAction))
    ensures
        r == (WatcherState::Scanning { pending: false }, WatchAction::Rebuild),
{
    (WatcherState::Scanning { pending: false }, WatchAction::Rebuild)
}

pub fn watcher_step(s: WatcherState, e: WatchEvent) -> (r: (WatcherState, WatchAction))
    ensures
        r == watcher_next(s, e),
{
    match e {
        WatchEvent::WatchFailed => (s, WatchAction::Report),
        WatchEvent::Changed => match s {
            WatcherState::Idle => (WatcherState::Scanning { pending: false }, WatchAction::Rebuild),
            WatcherState::Scanning { .. } => (
                WatcherState::Scanning { pending: true },
                WatchAction::Wait,
            ),
        },
        WatchEvent::ScanFinished => match s {
            WatcherState::Scanning { pending: true } => (
                WatcherState::Scanning { pending: false },
                WatchAction::Rebuild,
            ),
            _ => (WatcherState::Idle, WatchAction::Wait),
        },
    }
}

/// Rebuilds never overlap: a rebuild starts only when none runs (the
/// watcher was idle) or as the running one finishes, and the watcher is
/// then scanning. A change is never lost: it either starts a rebuild or is
/// remembered, and a remembered change starts a rebuild when the running
/// one finishes.
pub proof fn lemma_single_flight(s: WatcherState, e: WatchEvent)
    ensures
        watcher_next(s, e).1 == WatchAction::Rebuild ==> (s == WatcherState::Idle
            || e == WatchEvent::ScanFinished) && watcher_next(s, e).0 is Scanning,
        e == WatchEvent::Changed ==> watcher_next(s, e).1 == WatchAction::Rebuild || watcher_next(
            s,
            e,
        ).0 == (WatcherState::Scanning { pending: true }),
        s == (WatcherState::Scanning { pending: true }) && e == WatchEvent::ScanFinished
            ==> watcher_next(s, e).1 == WatchAction::Rebuild,
{
}

} // verus!
