//! The global application state: selection, panel visibility, filters, and the command sender.

use vstd::prelude::*;
use crate::command::{CommandSender, SystemCommand, UICommand};
use crate::filter::Filters;
use crate::selection::{
    frame_change, frame_started, selected, SelectionChange, SelectionModel, SelectionState,
};
use crate::selection::Item;

verus! {

/// Whether a panel is shown.
#[derive(Clone, Copy, Debug, Hash, PartialEq, Eq, Structural)]
pub enum PanelState {
    /// The panel is hidden.
    Hidden,
    /// The panel is shown.
    Expanded,
}

impl Default for PanelState {
    /// Panels are shown unless said otherwise.
    fn default() -> (r: Self)
        ensures
            r == PanelState::Expanded,
    {
        PanelState::Expanded
    }
}

/// The other state of a panel.
pub open spec fn toggled(p: PanelState) -> PanelState {
    match p {
        PanelState::Hidden => PanelState::Expanded,
        PanelState::Expanded => PanelState::Hidden,
    }
}

impl PanelState {
    /// Whether the panel is shown.
    pub fn is_expanded(&self) -> (r: bool)
        ensures
            r == (*self == PanelState::Expanded),
    {
        match self {
            PanelState::Expanded => true,
            PanelState::Hidden => false,
        }
    }

    /// The other state.
    pub fn toggle(self) -> (r: Self)
        ensures
            r == toggled(self),
    {
        match self {
            PanelState::Hidden => PanelState::Expanded,
            PanelState::Expanded => PanelState::Hidden,
        }
    }
}

/// The visibility of the side panels.
#[derive(Debug)]
pub struct PanelStates {
    /// The filter panel.
    pub filter_panel: PanelState,
    /// The selection panel.
    pub selection_panel: PanelState,
}

impl Default for PanelStates {
    /// The filter panel shown, the selection panel hidden.
    fn default() -> (r: Self)
        ensures
            r.filter_panel == PanelState::Expanded,
            r.selection_panel == PanelState::Hidden,
    {
        PanelStates { filter_panel: PanelState::Expanded, selection_panel: PanelState::Hidden }
    }
}

/// The mathematical form of an [`AppState`].
pub struct AppModel {
    /// The hover and selection state.
    pub selection: SelectionModel,
    /// The filter panel's visibility.
    pub filter_panel: PanelState,
    /// The selection panel's visibility.
    pub selection_panel: PanelState,
    /// The filters.
    pub filter: Filters,
}

/// The state after a frame start: the selection moves on a frame, and when the selection
/// changed, the selection panel is shown if something is selected and hidden otherwise.
pub open spec fn app_frame_started(m: AppModel) -> AppModel {
    let s = frame_started(m.selection);
    AppModel {
        selection: s,
        selection_panel: if frame_change(m.selection) == SelectionChange::SelectionChanged {
            if s.last_selected is Some {
                PanelState::Expanded
            } else {
                PanelState::Hidden
            }
        } else {
            m.selection_panel
        },
        ..m
    }
}

/// Maintains the global application state.
#[derive(Debug)]
pub struct AppState {
    selection_state: SelectionState,
    panel_states: PanelStates,
    filter: Filters,
    command_sender: CommandSender,
}

impl View for AppState {
    type V = AppModel;

    closed spec fn view(&self) -> AppModel {
        AppModel {
            selection: self.selection_state@,
            filter_panel: self.panel_states.filter_panel,
            selection_panel: self.panel_states.selection_panel,
            filter: self.filter,
        }
    }
}

impl AppState {
    /// A fresh state: nothing hovered or selected, the filter panel shown and the selection
    /// panel hidden, no filters.
    pub fn new(command_sender: CommandSender) -> (r: Self)
        ensures
            r@.selection == (SelectionModel {
                last_hovered: None,
                last_selected: None,
                this_hovered: None,
                this_selected: None,
            }),
            r@.filter_panel == PanelState::Expanded,
            r@.selection_panel == PanelState::Hidden,
            crate::filter::all_empty(r@.filter),
    {
        AppState {
            selection_state: SelectionState::new(),
            panel_states: PanelStates::default(),
            filter: Filters::default(),
            command_sender,
        }
    }

    /// Called at the start of each frame to update selection and hover states; the selection
    /// panel follows a change of selection.
    ///
    /// See [`SelectionState::on_frame_start`].
    pub fn on_frame_start(&mut self)
        ensures
            final(self)@ == app_frame_started(old(self)@),
    {
        let change = self.selection_state.on_frame_start();
        if change == SelectionChange::SelectionChanged {
            if self.selection_state.get_selected().is_some() {
                self.panel_states.selection_panel = PanelState::Expanded;
            } else {
                self.panel_states.selection_panel = PanelState::Hidden;
            }
        }
    }

    /// The hover and selection state.
    pub fn selection(&self) -> (r: &SelectionState)
        ensures
            r@ == self@.selection,
    {
        &self.selection_state
    }

    /// The hover and selection state, for setting the hover or selection.
    pub fn selection_mut(&mut self) -> (r: &mut SelectionState)
        ensures
            r@ == old(self)@.selection,
            final(self)@ == (AppModel { selection: final(r)@, ..old(self)@ }),
    {
        &mut self.selection_state
    }

    /// The panel visibility.
    pub fn panel(&self) -> (r: &PanelStates)
        ensures
            r.filter_panel == self@.filter_panel,
            r.selection_panel == self@.selection_panel,
    {
        &self.panel_states
    }

    /// Shows the filter panel if hidden, hides it if shown.
    pub fn toggle_filter_panel(&mut self)
        ensures
            final(self)@ == (AppModel { filter_panel: toggled(old(self)@.filter_panel), ..old(self)@ }),
    {
        self.panel_states.filter_panel = self.panel_states.filter_panel.toggle();
    }

    /// Shows the selection panel if hidden, hides it if shown.
    pub fn toggle_selection_panel(&mut self)
        ensures
            final(self)@ == (AppModel {
                selection_panel: toggled(old(self)@.selection_panel),
                ..old(self)@
            }),
    {
        self.panel_states.selection_panel = self.panel_states.selection_panel.toggle();
    }

    /// The filters.
    pub fn filter(&self) -> (r: &Filters)
        ensures
            *r == self@.filter,
    {
        &self.filter
    }

    /// The filters, for changing them.
    pub fn filter_mut(&mut self) -> (r: &mut Filters)
        ensures
            *r == old(self)@.filter,
            final(self)@ == (AppModel { filter: *final(r), ..old(self)@ }),
    {
        &mut self.filter
    }

    /// [`CommandSender::send_system`].
    pub fn send_system(&self, command: SystemCommand) {
        self.command_sender.send_system(command);
    }

    /// [`CommandSender::send_ui`].
    pub fn send_ui(&self, command: UICommand) {
        self.command_sender.send_ui(command);
    }
}

/// Selecting an item that was not selected shows the selection panel at the next frame start;
/// clearing a selection that was there hides it.
pub proof fn lemma_selection_drives_panel(m: AppModel, item: Item)
    ensures
        m.selection.last_selected != Some(item) ==> app_frame_started(
            AppModel { selection: selected(m.selection, Some(item)), ..m },
        ).selection_panel == PanelState::Expanded,
        m.selection.last_selected is Some ==> app_frame_started(
            AppModel { selection: selected(m.selection, None), ..m },
        ).selection_panel == PanelState::Hidden,
{
}

/// Toggling a panel twice leaves it as it was.
pub proof fn lemma_toggle_twice(p: PanelState)
    ensures
        toggled(toggled(p)) == p,
{
}

} // verus!
