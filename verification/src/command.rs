//! Commands sent between the parts of the viewer, over two channels: one for the user
//! interface and one for the system.

use vstd::prelude::*;
use std::sync::mpsc::{Receiver, Sender};
use crate::connection::{channel, send, try_receive, Connection};
use crate::protocol::ThreadId;
use crate::store::Level;

verus! {

/// Commands for the user interface.
#[derive(Debug, Copy, Clone, Eq, PartialEq, Structural)]
pub enum UICommand {
    /// Open a file.
    Open,
    /// Connect to WebSocket (open modal).
    Connect,
    /// Quit the application.
    Quit,
    /// Show or hide the filter panel.
    ToggleFilterPanel,
    /// Show or hide the selection panel.
    ToggleSelectionPanel,
}

/// Commands for the system.
pub enum SystemCommand {
    /// Switch to a new connection.
    Connect(Box<dyn Connection>),
    /// Reset all filters.
    ClearFilter,
    /// Admit these log levels.
    SetLevelFilter(Vec<Level>),
    /// Filter by target text.
    SetTargetFilter(String),
    /// Filter by file text.
    SetFileFilter(String),
    /// Admit these actors.
    SetActorFilter(Vec<String>),
    /// Filter by message text.
    SetMessageFilter(String),
    /// Admit these threads.
    SetThreadFilter(Vec<ThreadId>),
}

/// The sending ends of the two command channels.
#[derive(Debug, Clone)]
pub struct CommandSender {
    ui_sender: Sender<UICommand>,
    system_sender: Sender<SystemCommand>,
}

/// The receiving ends of the two command channels.
#[derive(Debug)]
pub struct CommandReceiver {
    ui_receiver: Receiver<UICommand>,
    system_receiver: Receiver<SystemCommand>,
}

impl CommandReceiver {
    /// Receive a [`SystemCommand`] to be executed if any is queued.
    ///
    /// `None` when nothing is queued, or when every sender is gone.
    pub fn recv_system(&self) -> Option<SystemCommand> {
        try_receive(&self.system_receiver).ok()
    }

    /// Receive a [`UICommand`] to be executed if any is queued.
    ///
    /// `None` when nothing is queued, or when every sender is gone.
    pub fn recv_ui(&self) -> Option<UICommand> {
        try_receive(&self.ui_receiver).ok()
    }
}

impl CommandSender {
    /// Send a command to be executed; it is dropped if the receiver is gone.
    pub fn send_system(&self, command: SystemCommand) {
        let _ = send(&self.system_sender, command);
    }

    /// Send a command to be executed; it is dropped if the receiver is gone.
    pub fn send_ui(&self, command: UICommand) {
        let _ = send(&self.ui_sender, command);
    }
}

/// Creates the two command channels, returning their sending and receiving ends.
pub fn command_channel() -> (CommandSender, CommandReceiver) {
    let (ui_sender, ui_receiver) = channel();
    let (system_sender, system_receiver) = channel();
    (
        CommandSender { ui_sender, system_sender },
        CommandReceiver { ui_receiver, system_receiver },
    )
}

} // verus!
