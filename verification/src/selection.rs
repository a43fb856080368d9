//! Hover and selection state, double buffered: writes go to the current frame, reads see the
//! last frame. See [`SelectionState`].

use vstd::prelude::*;
use crate::id::SpanContext;
use crate::store::{LogId, SpanRef};

verus! {

/// Represents an item that can be interacted with in the application.
#[derive(Debug, Copy, Clone, Ord, PartialOrd, Eq, PartialEq, Structural)]
pub enum Item {
    /// A span item identified by its [`SpanContext`].
    Span(SpanContext),
    /// A log item identified by its [`LogId`].
    Log(LogId),
}

impl From<LogId> for Item {
    fn from(value: LogId) -> (r: Item) {
        Item::Log(value)
    }
}

impl vstd::std_specs::convert::FromSpecImpl<LogId> for Item {
    open spec fn obeys_from_spec() -> bool {
        true
    }

    open spec fn from_spec(v: LogId) -> Item {
        Item::Log(v)
    }
}

impl From<SpanContext> for Item {
    fn from(value: SpanContext) -> (r: Item) {
        Item::Span(value)
    }
}

impl vstd::std_specs::convert::FromSpecImpl<SpanContext> for Item {
    open spec fn obeys_from_spec() -> bool {
        true
    }

    open spec fn from_spec(v: SpanContext) -> Item {
        Item::Span(v)
    }
}

/// Whether two optional items are the same.
fn same_item(a: Option<Item>, b: Option<Item>) -> (r: bool)
    ensures
        r == (a == b),
{
    match (a, b) {
        (None, None) => true,
        (Some(Item::Span(x)), Some(Item::Span(y))) => x == y,
        (Some(Item::Log(x)), Some(Item::Log(y))) => x == y,
        _ => false,
    }
}

/// The hover and selection of one frame.
#[derive(Debug, Default, Copy, Clone)]
struct InnerSelectionState {
    hovered: Option<Item>,
    selected: Option<Item>,
}

/// The mathematical form of a [`SelectionState`]: what the last frame saw and what the current
/// frame has written.
pub struct SelectionModel {
    /// The item hovered in the last frame.
    pub last_hovered: Option<Item>,
    /// The item selected as of the last frame.
    pub last_selected: Option<Item>,
    /// The item hovered so far in this frame.
    pub this_hovered: Option<Item>,
    /// The item selected so far in this frame.
    pub this_selected: Option<Item>,
}

/// Whether a frame start reports a change of selection.
#[derive(Debug, Copy, Clone, Eq, PartialEq, Structural)]
pub enum SelectionChange {
    /// The selection is what it was.
    NoChange,
    /// The selection changed during the frame that ended.
    SelectionChanged,
}

/// The state after a frame start: the current frame becomes the last one; the new frame keeps
/// the selection and forgets the hover.
pub open spec fn frame_started(m: SelectionModel) -> SelectionModel {
    SelectionModel {
        last_hovered: m.this_hovered,
        last_selected: m.this_selected,
        this_hovered: None,
        this_selected: m.this_selected,
    }
}

/// What a frame start reports: a change when the frame's selection differs from the last.
pub open spec fn frame_change(m: SelectionModel) -> SelectionChange {
    if m.this_selected != m.last_selected {
        SelectionChange::SelectionChanged
    } else {
        SelectionChange::NoChange
    }
}

/// The state after hovering `item` in this frame.
pub open spec fn hovered(m: SelectionModel, item: Item) -> SelectionModel {
    SelectionModel { this_hovered: Some(item), ..m }
}

/// The state after selecting `item` (or clearing the selection, for `None`) in this frame.
pub open spec fn selected(m: SelectionModel, item: Option<Item>) -> SelectionModel {
    SelectionModel { this_selected: item, ..m }
}

/// Maintains hover and selection, double buffered: set in the current frame, read from the
/// last frame.
#[derive(Debug, Default)]
pub struct SelectionState {
    last_frame: InnerSelectionState,
    this_frame: InnerSelectionState,
}

impl View for SelectionState {
    type V = SelectionModel;

    closed spec fn view(&self) -> SelectionModel {
        SelectionModel {
            last_hovered: self.last_frame.hovered,
            last_selected: self.last_frame.selected,
            this_hovered: self.this_frame.hovered,
            this_selected: self.this_frame.selected,
        }
    }
}

impl SelectionState {
    /// A state with nothing hovered or selected.
    pub fn new() -> (r: Self)
        ensures
            r@ == (SelectionModel {
                last_hovered: None,
                last_selected: None,
                this_hovered: None,
                this_selected: None,
            }),
    {
        SelectionState {
            last_frame: InnerSelectionState { hovered: None, selected: None },
            this_frame: InnerSelectionState { hovered: None, selected: None },
        }
    }

    /// Called at the start of each frame: the current frame becomes the last one, the hover is
    /// reset and the selection kept. Reports whether the selection changed.
    pub fn on_frame_start(&mut self) -> (r: SelectionChange)
        ensures
            final(self)@ == frame_started(old(self)@),
            r == frame_change(old(self)@),
    {
        let this_frame = self.this_frame;
        let changed = !same_item(this_frame.selected, self.last_frame.selected);
        self.this_frame = InnerSelectionState { hovered: None, selected: this_frame.selected };
        self.last_frame = this_frame;
        if changed {
            SelectionChange::SelectionChanged
        } else {
            SelectionChange::NoChange
        }
    }

    /// Sets the currently hovered item.
    pub fn set_hovered(&mut self, item: Item)
        ensures
            final(self)@ == hovered(old(self)@, item),
    {
        self.this_frame.hovered = Some(item);
    }

    /// Whether `item` was hovered in the last frame.
    pub fn is_hovered(&self, item: Item) -> (r: bool)
        ensures
            r == (self@.last_hovered == Some(item)),
    {
        same_item(self.last_frame.hovered, Some(item))
    }

    /// Whether a span or one of its logs was hovered in the last frame.
    pub fn is_span_hovered(&self, span: SpanRef) -> (r: bool)
        ensures
            r == (self@.last_hovered == Some(Item::Span(span@.context)) || exists|i: int|
                0 <= i < span@.logs.len() && self@.last_hovered == Some(
                    Item::Log(#[trigger] span@.logs[i]),
                )),
    {
        let context = span.span().context;
        if self.is_hovered(Item::Span(context)) {
            return true;
        }
        let logs = &span.span().logs;
        let n = logs.len();
        for i in 0..n
            invariant
                n == span@.logs.len(),
                logs@ == span@.logs,
                forall|j: int| 0 <= j < i ==> self@.last_hovered != Some(Item::Log(#[trigger] span@.logs[j])),
        {
            if self.is_hovered(Item::Log(logs[i])) {
                return true;
            }
        }
        false
    }

    /// Sets the currently selected item.
    pub fn set_selected(&mut self, item: Item)
        ensures
            final(self)@ == selected(old(self)@, Some(item)),
    {
        self.this_frame.selected = Some(item);
    }

    /// Clears the currently selected item.
    pub fn clear_selected(&mut self)
        ensures
            final(self)@ == selected(old(self)@, None),
    {
        self.this_frame.selected = None;
    }

    /// Whether `item` was selected as of the last frame.
    pub fn is_selected(&self, item: Item) -> (r: bool)
        ensures
            r == (self@.last_selected == Some(item)),
    {
        same_item(self.last_frame.selected, Some(item))
    }

    /// The item selected as of the last frame.
    pub fn get_selected(&self) -> (r: Option<Item>)
        ensures
            r == self@.last_selected,
    {
        self.last_frame.selected
    }
}

/// A hover shows in the frame after it was set, and only then: it is not visible before the
/// frame starts, is visible after, and is gone again one frame later unless set anew.
pub proof fn lemma_hover_shows_next_frame(m: SelectionModel, item: Item)
    ensures
        hovered(m, item).last_hovered == m.last_hovered,
        frame_started(hovered(m, item)).last_hovered == Some(item),
        frame_started(frame_started(hovered(m, item))).last_hovered is None,
{
}

/// A selection shows from the frame after it was set and stays until changed; the frame start
/// that makes it visible reports a change exactly when it differs from the previous one.
pub proof fn lemma_selection_persists(m: SelectionModel, item: Item)
    ensures
        frame_started(selected(m, Some(item))).last_selected == Some(item),
        frame_started(frame_started(selected(m, Some(item)))).last_selected == Some(item),
        frame_change(selected(m, Some(item))) == (if m.last_selected == Some(item) {
            SelectionChange::NoChange
        } else {
            SelectionChange::SelectionChanged
        }),
        frame_change(frame_started(selected(m, Some(item)))) == SelectionChange::NoChange,
{
}

} // verus!
