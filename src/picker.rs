//! The picker's decisions, as a state machine. The caller performs each
//! action (a monitor query, a chooser run, reading the catalog, launching
//! the applier) and feeds back what came of it as the next event.
use vstd::prelude::*;
use crate::catalog::{Wallpaper, entries_view};
use crate::chooser::{
    chooser_input, chooser_selection, find_by_name, item_line, joined_lines, resolve,
    selection_of, sort_by_name, sort_keys, stably_sorted, wallpaper_items,
};
use crate::compositor::{CompositorKind, monitor_query, monitor_query_command, token_of};
use crate::process::ProcessCommand;

verus! {

/// Why a picker run ends without launching the applier.
#[derive(PartialEq, Eq, Structural, Clone, Copy, Debug)]
pub enum PickError {
    NoCompositor,
    MonitorQueryFailed,
    NoMonitors,
    Cancelled,
    CatalogMissing,
    CatalogUnreadable,
    NotInCatalog,
    OutOfOrder,
}

/// The message shown to the user for each error.
pub open spec fn error_message(e: PickError) -> Seq<char> {
    match e {
        PickError::NoCompositor => "No supported compositor running."@,
        PickError::MonitorQueryFailed => "The monitor query failed."@,
        PickError::NoMonitors => "Could not detect any active monitors."@,
        PickError::Cancelled => "Selection was cancelled."@,
        PickError::CatalogMissing => "Wallpaper cache missing! Please run the catalog daemon first."@,
        PickError::CatalogUnreadable => "The wallpaper cache could not be parsed."@,
        PickError::NotInCatalog => "Selected wallpaper not found in cache"@,
        PickError::OutOfOrder => "Unexpected event for the current step."@,
    }
}

impl PickError {
    pub fn message(&self) -> (r: &'static str)
        ensures
            r@ == error_message(*self),
    {
        match self {
            PickError::NoCompositor => "No supported compositor running.",
            PickError::MonitorQueryFailed => "The monitor query failed.",
            PickError::NoMonitors => "Could not detect any active monitors.",
            PickError::Cancelled => "Selection was cancelled.",
            PickError::CatalogMissing => "Wallpaper cache missing! Please run the catalog daemon first.",
            PickError::CatalogUnreadable => "The wallpaper cache could not be parsed.",
            PickError::NotInCatalog => "Selected wallpaper not found in cache",
            PickError::OutOfOrder => "Unexpected event for the current step.",
        }
    }
}

pub enum PickerState {
    Start,
    ListingMonitors { kind: CompositorKind },
    ChoosingMonitor { kind: CompositorKind },
    LoadingCatalog { kind: CompositorKind, monitor: String },
    ChoosingWallpaper { kind: CompositorKind, monitor: String, entries: Vec<Wallpaper> },
    Launched,
    Failed { error: PickError },
}

pub enum PickerEvent {
    /// The compositor detected at start.
    Detected { kind: CompositorKind },
    /// The monitor names that the query reported.
    MonitorsListed { names: Vec<String> },
    MonitorQueryFailed,
    /// A chooser run ended with this exit status and output.
    ChooserFinished { success: bool, output: String },
    /// The catalog file was read and parsed.
    CatalogRead { entries: Vec<Wallpaper> },
    CatalogMissing,
    CatalogUnreadable,
}

pub enum PickerAction {
    QueryMonitors { command: ProcessCommand },
    /// Run the chooser over the monitor names.
    ChooseMonitor { input: String },
    ReadCatalog,
    /// Run the chooser, with its configured theme, over the wallpapers.
    ChooseWallpaper { input: String },
    /// Start the applier and do not wait for it.
    Launch { path: String, compositor: String, monitor: String },
    Abort { error: PickError },
}

pub open spec fn fails_with(next: PickerState, action: PickerAction, e: PickError) -> bool {
    next == (PickerState::Failed { error: e }) && action == (PickerAction::Abort { error: e })
}

/// What one step of the picker does with `event` in `state`.
pub open spec fn picker_transition(
    state: PickerState,
    event: PickerEvent,
    next: PickerState,
    action: PickerAction,
) -> bool {
    match state {
        PickerState::Failed { error } => fails_with(next, action, error),
        PickerState::Start => match event {
            PickerEvent::Detected { kind } => if kind == CompositorKind::Unknown {
                fails_with(next, action, PickError::NoCompositor)
            } else {
                next == (PickerState::ListingMonitors { kind }) && (action matches PickerAction::QueryMonitors {
                    command,
                } && monitor_query(kind) == Some(command@))
            },
            _ => fails_with(next, action, PickError::OutOfOrder),
        },
        PickerState::ListingMonitors { kind } => match event {
            PickerEvent::MonitorsListed { names } => if names@.len() == 0 {
                fails_with(next, action, PickError::NoMonitors)
            } else {
                next == (PickerState::ChoosingMonitor { kind }) && (action matches PickerAction::ChooseMonitor {
                    input,
                } && input@ == joined_lines(names@.map_values(|s: String| s@)))
            },
            PickerEvent::MonitorQueryFailed => fails_with(next, action, PickError::MonitorQueryFailed),
            _ => fails_with(next, action, PickError::OutOfOrder),
        },
        PickerState::ChoosingMonitor { kind } => match event {
            PickerEvent::ChooserFinished { success, output } => match selection_of(
                success,
                output@,
            ) {
                None => fails_with(next, action, PickError::Cancelled),
                Some(m) => next matches PickerState::LoadingCatalog { kind: k, monitor } && k == kind
                    && monitor@ == m && action == PickerAction::ReadCatalog,
            },
            _ => fails_with(next, action, PickError::OutOfOrder),
        },
        PickerState::LoadingCatalog { kind, monitor } => match event {
            PickerEvent::CatalogRead { entries } => next matches PickerState::ChoosingWallpaper {
                kind: k,
                monitor: m,
                entries: sorted,
            } && k == kind && m == monitor && stably_sorted(entries@, sort_keys(entries@), sorted@)
                && (action matches PickerAction::ChooseWallpaper { input }
                && input@ == joined_lines(sorted@.map_values(|w: Wallpaper| item_line(w@)))),
            PickerEvent::CatalogMissing => fails_with(next, action, PickError::CatalogMissing),
            PickerEvent::CatalogUnreadable => fails_with(next, action, PickError::CatalogUnreadable),
            _ => fails_with(next, action, PickError::OutOfOrder),
        },
        PickerState::ChoosingWallpaper { kind, monitor, entries } => match event {
            PickerEvent::ChooserFinished { success, output } => match selection_of(
                success,
                output@,
            ) {
                None => fails_with(next, action, PickError::Cancelled),
                Some(sel) => match resolve(entries_view(entries@), sel) {
                    None => fails_with(next, action, PickError::NotInCatalog),
                    Some(i) => next == PickerState::Launched && (action matches PickerAction::Launch {
                        path,
                        compositor,
                        monitor: mon,
                    } && path@ == entries@[i].path@ && compositor@ == token_of(kind) && mon@
                        == monitor@),
                },
            },
            _ => fails_with(next, action, PickError::OutOfOrder),
        },
        PickerState::Launched => fails_with(next, action, PickError::OutOfOrder),
    }
}

fn fail(e: PickError) -> (r: (PickerState, PickerAction))
    ensures
        fails_with(r.0, r.1, e),
{
    (PickerState::Failed { error: e }, PickerAction::Abort { error: e })
}

/// Advances the picker by one event.
pub fn picker_step(state: PickerState, event: PickerEvent) -> (r: (PickerState, PickerAction))
    ensures
        picker_transition(state, event, r.0, r.1),
{
    match state {
        PickerState::Failed { error } => fail(error),
        PickerState::Start => match event {
            PickerEvent::Detected { kind } => {
                match monitor_query_command(kind) {
                    Some(command) => (
                        PickerState::ListingMonitors { kind },
                        PickerAction::QueryMonitors { command },
                    ),
                    None => fail(PickError::NoCompositor),
                }
            },
            _ => fail(PickError::OutOfOrder),
        },
        PickerState::ListingMonitors { kind } => match event {
            PickerEvent::MonitorsListed { names } => {
                if names.len() == 0 {
                    fail(PickError::NoMonitors)
                } else {
                    let input = chooser_input(&names);
                    (PickerState::ChoosingMonitor { kind }, PickerAction::ChooseMonitor { input })
                }
            },
            PickerEvent::MonitorQueryFailed => fail(PickError::MonitorQueryFailed),
            _ => fail(PickError::OutOfOrder),
        },
        PickerState::ChoosingMonitor { kind } => match event {
            PickerEvent::ChooserFinished { success, output } => {
                match chooser_selection(success, output.as_str()) {
                    None => fail(PickError::Cancelled),
                    Some(monitor) => (
                        PickerState::LoadingCatalog { kind, monitor },
                        PickerAction::ReadCatalog,
                    ),
                }
            },
            _ => fail(PickError::OutOfOrder),
        },
        PickerState::LoadingCatalog { kind, monitor } => match event {
            PickerEvent::CatalogRead { entries } => {
                let sorted = sort_by_name(entries);
                let items = wallpaper_items(&sorted);
                let input = chooser_input(&items);
                assert(items@.map_values(|s: String| s@) =~= sorted@.map_values(
                    |w: Wallpaper| item_line(w@),
                ));
                (
                    PickerState::ChoosingWallpaper { kind, monitor, entries: sorted },
                    PickerAction::ChooseWallpaper { input },
                )
            },
            PickerEvent::CatalogMissing => fail(PickError::CatalogMissing),
            PickerEvent::CatalogUnreadable => fail(PickError::CatalogUnreadable),
            _ => fail(PickError::OutOfOrder),
        },
        PickerState::ChoosingWallpaper { kind, monitor, entries } => match event {
            PickerEvent::ChooserFinished { success, output } => {
                match chooser_selection(success, output.as_str()) {
                    None => fail(PickError::Cancelled),
                    Some(sel) => match find_by_name(&entries, sel.as_str()) {
                        None => fail(PickError::NotInCatalog),
                        Some(i) => {
                            let path = entries[i].path.clone();
                            let compositor = kind.token().to_owned();
                            (
                                PickerState::Launched,
                                PickerAction::Launch { path, compositor, monitor },
                            )
                        },
                    },
                }
            },
            _ => fail(PickError::OutOfOrder),
        },
        PickerState::Launched => fail(PickError::OutOfOrder),
    }
}

/// A chooser that exits unsuccessfully while the monitor is being chosen
/// ends the run: the picker aborts as cancelled, and from then on every
/// step aborts again, so the catalog is never read and nothing is launched.
pub proof fn lemma_cancelled_monitor_choice_aborts(
    kind: CompositorKind,
    output: String,
    next: PickerState,
    action: PickerAction,
)
    requires
        picker_transition(
            PickerState::ChoosingMonitor { kind },
            PickerEvent::ChooserFinished { success: false, output },
            next,
            action,
        ),
    ensures
        next == (PickerState::Failed { error: PickError::Cancelled }),
        action == (PickerAction::Abort { error: PickError::Cancelled }),
        forall|e: PickerEvent, n: PickerState, a: PickerAction|
            #[trigger] picker_transition(next, e, n, a) ==> n == next && a == action,
{
}

} // verus!
