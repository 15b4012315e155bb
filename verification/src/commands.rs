//! Multiplexer commands. The engine computes plans — sequences of these
//! commands — from stored topology and live state; an outer layer performs
//! each command as one external invocation, in order.

use vstd::prelude::*;

use crate::model::{NameValue, NameValueV};

verus! {

/// One logical multiplexer operation. Pane and window indexes are 1-based;
/// `Wait` is the settling delay that must pass before deferred layouts are
/// applied.
#[derive(Debug, Clone, PartialEq)]
pub enum MuxCommand {
    /// Create a detached session with its first window, in the first
    /// pane's working directory and environment; a startup command
    /// replaces the default shell.
    NewSession {
        session_name: String,
        window_name: String,
        path: Option<String>,
        environment: Vec<NameValue>,
        startup_command: Option<String>,
    },
    /// Create a window at a 1-based position of an existing session.
    NewWindow {
        session_name: String,
        window_name: String,
        position: usize,
        path: Option<String>,
        environment: Vec<NameValue>,
        startup_command: Option<String>,
    },
    /// Split a pane off the addressed window.
    SplitWindow {
        session_name: String,
        window_name: String,
        horizontal: bool,
        path: String,
        startup_command: Option<String>,
    },
    /// Send a command line as keystrokes to a pane of the addressed window.
    SendKeys { session_name: String, window_name: String, pane_index: usize, keys: String },
    /// Make a window of a session the selected one.
    SelectWindow { session_name: String, index: usize },
    /// Apply a stored layout descriptor verbatim.
    SelectLayout { session_name: String, window_name: String, layout: String },
    /// Switch the client to a session.
    SelectSession { session_name: String },
    /// Block for the given settling delay.
    Wait { millis: u64 },
    /// Split a pane off the currently focused window.
    SplitCurrentWindow { horizontal: bool, path: String, startup_command: Option<String> },
    /// Send a command line as keystrokes to a pane of the focused window.
    SendKeysToCurrentWindow { pane_index: usize, keys: String },
    /// Create a window in the current session, optionally unfocused.
    NewWindowInCurrentSession {
        window_name: String,
        path: String,
        environment: Vec<NameValue>,
        startup_command: Option<String>,
        background: bool,
    },
    /// Move a pane of the named window into the focused window.
    JoinPaneToCurrentWindow { window_name: String, pane_index: usize },
    /// Swap a pane of the focused window with a pane of a named window.
    SwapPanes {
        current_window_pane_index: usize,
        source_window_name: String,
        source_pane_index: usize,
    },
    /// Rename a window of the current session.
    RenameWindowInCurrentSession { old_name: String, new_name: String },
    /// Record the owning-window tag on a pane of the focused window.
    SetPaneOptionForCurrentWindow { pane_index: usize, name: String, value: String },
    /// Show an ephemeral status message.
    DisplayMessage { message: String },
    /// Redraw the status line.
    RefreshClient,
}

/// Mathematical image of a [`MuxCommand`].
pub ghost enum MuxCommandV {
    NewSession {
        session_name: Seq<char>,
        window_name: Seq<char>,
        path: Option<Seq<char>>,
        environment: Seq<NameValueV>,
        startup_command: Option<Seq<char>>,
    },
    NewWindow {
        session_name: Seq<char>,
        window_name: Seq<char>,
        position: usize,
        path: Option<Seq<char>>,
        environment: Seq<NameValueV>,
        startup_command: Option<Seq<char>>,
    },
    SplitWindow {
        session_name: Seq<char>,
        window_name: Seq<char>,
        horizontal: bool,
        path: Seq<char>,
        startup_command: Option<Seq<char>>,
    },
    SendKeys { session_name: Seq<char>, window_name: Seq<char>, pane_index: usize, keys: Seq<char> },
    SelectWindow { session_name: Seq<char>, index: usize },
    SelectLayout { session_name: Seq<char>, window_name: Seq<char>, layout: Seq<char> },
    SelectSession { session_name: Seq<char> },
    Wait { millis: u64 },
    SplitCurrentWindow { horizontal: bool, path: Seq<char>, startup_command: Option<Seq<char>> },
    SendKeysToCurrentWindow { pane_index: usize, keys: Seq<char> },
    NewWindowInCurrentSession {
        window_name: Seq<char>,
        path: Seq<char>,
        environment: Seq<NameValueV>,
        startup_command: Option<Seq<char>>,
        background: bool,
    },
    JoinPaneToCurrentWindow { window_name: Seq<char>, pane_index: usize },
    SwapPanes {
        current_window_pane_index: usize,
        source_window_name: Seq<char>,
        source_pane_index: usize,
    },
    RenameWindowInCurrentSession { old_name: Seq<char>, new_name: Seq<char> },
    SetPaneOptionForCurrentWindow { pane_index: usize, name: Seq<char>, value: Seq<char> },
    DisplayMessage { message: Seq<char> },
    RefreshClient,
}

impl View for MuxCommand {
    type V = MuxCommandV;

    open spec fn view(&self) -> MuxCommandV {
        match self {
            MuxCommand::NewSession {
                session_name,
                window_name,
                path,
                environment,
                startup_command,
            } => MuxCommandV::NewSession {
                session_name: session_name@,
                window_name: window_name@,
                path: path.deep_view(),
                environment: environment.deep_view(),
                startup_command: startup_command.deep_view(),
            },
            MuxCommand::NewWindow {
                session_name,
                window_name,
                position,
                path,
                environment,
                startup_command,
            } => MuxCommandV::NewWindow {
                session_name: session_name@,
                window_name: window_name@,
                position: *position,
                path: path.deep_view(),
                environment: environment.deep_view(),
                startup_command: startup_command.deep_view(),
            },
            MuxCommand::SplitWindow {
                session_name,
                window_name,
                horizontal,
                path,
                startup_command,
            } => MuxCommandV::SplitWindow {
                session_name: session_name@,
                window_name: window_name@,
                horizontal: *horizontal,
                path: path@,
                startup_command: startup_command.deep_view(),
            },
            MuxCommand::SendKeys { session_name, window_name, pane_index, keys } => {
                MuxCommandV::SendKeys {
                    session_name: session_name@,
                    window_name: window_name@,
                    pane_index: *pane_index,
                    keys: keys@,
                }
            },
            MuxCommand::SelectWindow { session_name, index } => {
                MuxCommandV::SelectWindow { session_name: session_name@, index: *index }
            },
            MuxCommand::SelectLayout { session_name, window_name, layout } => {
                MuxCommandV::SelectLayout {
                    session_name: session_name@,
                    window_name: window_name@,
                    layout: layout@,
                }
            },
            MuxCommand::SelectSession { session_name } => {
                MuxCommandV::SelectSession { session_name: session_name@ }
            },
            MuxCommand::Wait { millis } => MuxCommandV::Wait { millis: *millis },
            MuxCommand::SplitCurrentWindow { horizontal, path, startup_command } => {
                MuxCommandV::SplitCurrentWindow {
                    horizontal: *horizontal,
                    path: path@,
                    startup_command: startup_command.deep_view(),
                }
            },
            MuxCommand::SendKeysToCurrentWindow { pane_index, keys } => {
                MuxCommandV::SendKeysToCurrentWindow { pane_index: *pane_index, keys: keys@ }
            },
            MuxCommand::NewWindowInCurrentSession {
                window_name,
                path,
                environment,
                startup_command,
                background,
            } => MuxCommandV::NewWindowInCurrentSession {
                window_name: window_name@,
                path: path@,
                environment: environment.deep_view(),
                startup_command: startup_command.deep_view(),
                background: *background,
            },
            MuxCommand::JoinPaneToCurrentWindow { window_name, pane_index } => {
                MuxCommandV::JoinPaneToCurrentWindow {
                    window_name: window_name@,
                    pane_index: *pane_index,
                }
            },
            MuxCommand::SwapPanes {
                current_window_pane_index,
                source_window_name,
                source_pane_index,
            } => MuxCommandV::SwapPanes {
                current_window_pane_index: *current_window_pane_index,
                source_window_name: source_window_name@,
                source_pane_index: *source_pane_index,
            },
            MuxCommand::RenameWindowInCurrentSession { old_name, new_name } => {
                MuxCommandV::RenameWindowInCurrentSession {
                    old_name: old_name@,
                    new_name: new_name@,
                }
            },
            MuxCommand::SetPaneOptionForCurrentWindow { pane_index, name, value } => {
                MuxCommandV::SetPaneOptionForCurrentWindow {
                    pane_index: *pane_index,
                    name: name@,
                    value: value@,
                }
            },
            MuxCommand::DisplayMessage { message } => {
                MuxCommandV::DisplayMessage { message: message@ }
            },
            MuxCommand::RefreshClient => MuxCommandV::RefreshClient,
        }
    }
}

impl DeepView for MuxCommand {
    type V = MuxCommandV;

    open spec fn deep_view(&self) -> MuxCommandV {
        self@
    }
}

} // verus!
