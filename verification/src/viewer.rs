//! The viewer's reaction to commands and to what its connection delivers: which store and
//! filter changes each brings. Reading lines, parsing them and painting are the caller's.

use vstd::prelude::*;
use crate::command::{CommandSender, SystemCommand, UICommand};
use crate::connection::Connection;
use crate::filter::{all_empty, Filters};
use crate::protocol::InstanceMessage;
use crate::state::{toggled, AppModel, AppState};
use crate::store::model::{apply_message, empty_model, message_ok, StoreModel};
use crate::store::Store;

verus! {

/// What the user interface has to do for a command that the viewer cannot carry out itself.
#[derive(Debug, Copy, Clone, PartialEq, Eq, Structural)]
pub enum UiAction {
    /// Nothing more.
    Nothing,
    /// Let the user pick a file to open.
    OpenFile,
    /// Show the dialog for a WebSocket connection.
    ShowConnectDialog,
    /// Close the application.
    Quit,
}

/// The viewer: the store, the application state, the connection data comes from, and whether
/// that connection has failed (after which its lines are ignored).
pub struct Viewer {
    /// The trace data.
    pub store: Store,
    /// Selection, panels and filters.
    pub state: AppState,
    /// Where the data comes from.
    pub connection: Option<Box<dyn Connection>>,
    /// Whether the connection reported an error or sent a line that could not be read.
    pub connection_error: bool,
}

/// A store that has just been emptied, whatever its continuity.
pub open spec fn emptied(m: StoreModel) -> bool {
    m == (StoreModel { continuous: m.continuous, ..empty_model() })
}

impl Viewer {
    /// A viewer with an empty store, a fresh state and no connection.
    pub fn new(command_sender: CommandSender) -> (r: Self)
        ensures
            r.store.wf(),
            r.store@ == empty_model(),
            all_empty(r.state@.filter),
            !r.connection_error,
            !r.has_connection(),
    {
        Viewer {
            store: Store::default(),
            state: AppState::new(command_sender),
            connection: None,
            connection_error: false,
        }
    }

    /// Whether a connection is set.
    pub open spec fn has_connection(&self) -> bool {
        self.connection is Some
    }

    /// Whether a connection is set and has delivered all its data.
    pub open spec fn connection_finished(&self) -> bool {
        match self.connection {
            Some(c) => c.finished(),
            None => false,
        }
    }

    /// Carries out a system command: a new connection empties the store and clears the error
    /// state, taking the connection's continuity; the filter commands set their filter and
    /// change nothing else.
    pub fn run_system_command(&mut self, command: SystemCommand)
        requires
            old(self).store.wf(),
        ensures
            final(self).store.wf(),
            match command {
                SystemCommand::Connect(c) => {
                    &&& emptied(final(self).store@)
                    &&& final(self).store@.continuous == c.continuous()
                    &&& final(self).store.updated_at() == old(self).store.updated_at()
                    &&& !final(self).connection_error
                    &&& final(self).connection == Some(c)
                    &&& final(self).state@ == old(self).state@
                },
                _ => {
                    &&& final(self).store == old(self).store
                    &&& final(self).connection == old(self).connection
                    &&& final(self).connection_error == old(self).connection_error
                    &&& final(self).state@ == (AppModel { filter: final(self).state@.filter, ..old(self).state@ })
                },
            },
            match command {
                SystemCommand::Connect(_) => true,
                SystemCommand::ClearFilter => all_empty(final(self).state@.filter),
                SystemCommand::SetLevelFilter(s) => final(self).state@.filter.level@ == s@
                    && final(self).state@.filter == (Filters { level: final(self).state@.filter.level, ..old(self).state@.filter }),
                SystemCommand::SetTargetFilter(s) => final(self).state@.filter.target@ == s@
                    && final(self).state@.filter == (Filters { target: final(self).state@.filter.target, ..old(self).state@.filter }),
                SystemCommand::SetFileFilter(s) => final(self).state@.filter.file@ == s@
                    && final(self).state@.filter == (Filters { file: final(self).state@.filter.file, ..old(self).state@.filter }),
                SystemCommand::SetActorFilter(s) => final(self).state@.filter.actor@ == s@
                    && final(self).state@.filter == (Filters { actor: final(self).state@.filter.actor, ..old(self).state@.filter }),
                SystemCommand::SetMessageFilter(s) => final(self).state@.filter.message@ == s@
                    && final(self).state@.filter == (Filters { message: final(self).state@.filter.message, ..old(self).state@.filter }),
                SystemCommand::SetThreadFilter(s) => final(self).state@.filter.thread@ == s@
                    && final(self).state@.filter == (Filters { thread: final(self).state@.filter.thread, ..old(self).state@.filter }),
            },
    {
        match command {
            SystemCommand::Connect(connection) => {
                self.connection_error = false;
                self.store.clear();
                let continuous = connection.is_continuous();
                self.store.set_continuous(continuous);
                // Built apart from the assignment, so that the box is moved as it is.
                let connection = Some(connection);
                self.connection = connection;
            },
            SystemCommand::ClearFilter => {
                self.state.filter_mut().clear();
            },
            SystemCommand::SetLevelFilter(s) => {
                self.state.filter_mut().level.set(s);
            },
            SystemCommand::SetTargetFilter(s) => {
                self.state.filter_mut().target.set(s);
            },
            SystemCommand::SetFileFilter(s) => {
                self.state.filter_mut().file.set(s);
            },
            SystemCommand::SetActorFilter(s) => {
                self.state.filter_mut().actor.set(s);
            },
            SystemCommand::SetMessageFilter(s) => {
                self.state.filter_mut().message.set(s);
            },
            SystemCommand::SetThreadFilter(s) => {
                self.state.filter_mut().thread.set(s);
            },
        }
    }

    /// Carries out a user-interface command: the panel toggles take effect here; opening a
    /// file, the connection dialog and quitting are returned for the interface to do.
    pub fn run_ui_command(&mut self, command: UICommand) -> (r: UiAction)
        ensures
            final(self).store@ == old(self).store@,
            r == match command {
                UICommand::Open => UiAction::OpenFile,
                UICommand::Connect => UiAction::ShowConnectDialog,
                UICommand::Quit => UiAction::Quit,
                _ => UiAction::Nothing,
            },
            final(self).state@ == match command {
                UICommand::ToggleFilterPanel => AppModel {
                    filter_panel: toggled(old(self).state@.filter_panel),
                    ..old(self).state@
                },
                UICommand::ToggleSelectionPanel => AppModel {
                    selection_panel: toggled(old(self).state@.selection_panel),
                    ..old(self).state@
                },
                _ => old(self).state@,
            },
    {
        match command {
            UICommand::Open => UiAction::OpenFile,
            UICommand::Connect => UiAction::ShowConnectDialog,
            UICommand::Quit => UiAction::Quit,
            UICommand::ToggleFilterPanel => {
                self.state.toggle_filter_panel();
                UiAction::Nothing
            },
            UICommand::ToggleSelectionPanel => {
                self.state.toggle_selection_panel();
                UiAction::Nothing
            },
        }
    }

    /// Whether a line just read should be fed to the store: only while the connection has not
    /// failed.
    pub fn takes_lines(&self) -> (r: bool)
        ensures
            r == !self.connection_error,
    {
        !self.connection_error
    }

    /// A line of the connection, read by the caller: a message is processed, a line that
    /// could not be read marks the connection failed. Lines after a failure are ignored.
    pub fn handle_line(&mut self, line: Result<InstanceMessage, String>)
        requires
            old(self).store.wf(),
            !old(self).connection_error && line is Ok ==> message_ok(old(self).store@, line->Ok_0),
        ensures
            final(self).store.wf(),
            final(self).state@ == old(self).state@,
            old(self).connection_error ==> final(self).store@ == old(self).store@
                && final(self).connection_error,
            !old(self).connection_error ==> match line {
                Ok(m) => final(self).store@ == apply_message(old(self).store@, m)
                    && !final(self).connection_error,
                Err(_) => final(self).store@ == old(self).store@ && final(self).connection_error,
            },
            final(self).connection == old(self).connection,
    {
        if self.connection_error {
            return;
        }
        match line {
            Ok(message) => self.store.process_message(message),
            Err(_) => {
                self.connection_error = true;
            },
        }
    }

    /// The connection reported an error: it is marked failed and the data is no longer live.
    pub fn handle_error(&mut self)
        requires
            old(self).store.wf(),
        ensures
            final(self).store.wf(),
            final(self).connection_error,
            final(self).store@ == (StoreModel { continuous: false, ..old(self).store@ }),
            final(self).store.updated_at() == old(self).store.updated_at(),
            final(self).state@ == old(self).state@,
            final(self).connection == old(self).connection,
    {
        self.connection_error = true;
        self.store.set_continuous(false);
    }

    /// The connection is done: the data is no longer live.
    pub fn handle_done(&mut self)
        requires
            old(self).store.wf(),
        ensures
            final(self).store.wf(),
            final(self).connection_error == old(self).connection_error,
            final(self).store@ == (StoreModel { continuous: false, ..old(self).store@ }),
            final(self).store.updated_at() == old(self).store.updated_at(),
            final(self).state@ == old(self).state@,
            final(self).connection == old(self).connection,
    {
        self.store.set_continuous(false);
    }

    /// The connection restarts: the store is emptied, the error state cleared, and the
    /// continuity taken from the connection again.
    pub fn handle_restart(&mut self)
        ensures
            final(self).store.wf(),
            emptied(final(self).store@),
            final(self).store@.continuous == match old(self).connection {
                Some(c) => c.continuous(),
                None => false,
            },
            final(self).store.updated_at() == old(self).store.updated_at(),
            !final(self).connection_error,
            final(self).state@ == old(self).state@,
            final(self).connection == old(self).connection,
    {
        self.connection_error = false;
        self.store.clear();
        let continuous = match &self.connection {
            Some(c) => c.is_continuous(),
            None => false,
        };
        self.store.set_continuous(continuous);
    }

    /// Asks the connection for its next message; `None` without a connection. Only the
    /// connection changes.
    pub fn next_message(&mut self) -> (r: Option<crate::connection::ConnectionMessage>)
        ensures
            !old(self).has_connection() ==> r is None,
            final(self).has_connection() == old(self).has_connection(),
            final(self).store == old(self).store,
            final(self).state == old(self).state,
            final(self).connection_error == old(self).connection_error,
    {
        match &mut self.connection {
            Some(c) => c.try_recv(),
            None => None,
        }
    }

    /// When the connection has delivered everything, the data is no longer live.
    pub fn finish_if_done(&mut self)
        requires
            old(self).store.wf(),
        ensures
            final(self).store.wf(),
            final(self).store@ == (StoreModel {
                continuous: old(self).store@.continuous && !old(self).connection_finished(),
                ..old(self).store@
            }),
            final(self).state@ == old(self).state@,
            final(self).connection_error == old(self).connection_error,
            final(self).connection == old(self).connection,
    {
        let done = match &self.connection {
            Some(c) => c.is_done(),
            None => false,
        };
        if done {
            self.store.set_continuous(false);
        }
    }
}


/// The dialog that asks for the address of a WebSocket to connect to.
#[derive(Debug)]
pub struct WebSocketModal {
    visible: bool,
    url: String,
}

impl View for WebSocketModal {
    type V = (bool, Seq<char>);

    /// Whether the dialog is shown, and the address entered.
    closed spec fn view(&self) -> (bool, Seq<char>) {
        (self.visible, self.url@)
    }
}

impl Default for WebSocketModal {
    /// Hidden, with the local server's address entered.
    fn default() -> (r: Self)
        ensures
            !r@.0,
            r@.1 == "ws://127.0.0.1:9000"@,
    {
        broadcast use vstd::string::to_string_from_display_ensures_for_str;

        WebSocketModal { visible: false, url: "ws://127.0.0.1:9000".to_string() }
    }
}

impl WebSocketModal {
    /// Shows the dialog.
    pub fn show(&mut self)
        ensures
            final(self)@ == (true, old(self)@.1),
    {
        self.visible = true;
    }

    /// Hides the dialog, after connecting or cancelling.
    pub fn close(&mut self)
        ensures
            final(self)@ == (false, old(self)@.1),
    {
        self.visible = false;
    }

    /// Whether the dialog is shown.
    pub fn is_visible(&self) -> (r: bool)
        ensures
            r == self@.0,
    {
        self.visible
    }

    /// The address entered.
    pub fn url(&self) -> (r: &str)
        ensures
            r@ == self@.1,
    {
        self.url.as_str()
    }

    /// The address, for editing.
    pub fn url_mut(&mut self) -> (r: &mut String)
        ensures
            r@ == old(self)@.1,
            final(self)@ == (old(self)@.0, final(r)@),
    {
        &mut self.url
    }
}

} // verus!
