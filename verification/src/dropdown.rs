//! The decisions of a dropdown: a select box that opens a list of items, with
//! pointer and keyboard control.
//!
//! The dropdown's state is whether its list is open, the selected item and
//! the highlighted item. Each input yields the new state and the effects the
//! element has to carry out, in order.

use vstd::prelude::*;

use rustc_hash::FxHashMap;

use crate::element_id::{create_unique_element_id, IdCounter};
use crate::events::{Code, Event, EventKind, PointerButton};
use crate::store::{keeps_all, same_node, DynElement, RetainedElements};

verus! {

/// An effect of a dropdown input, for the element to carry out.
#[derive(Clone, Copy, Debug, PartialEq, Eq, Structural)]
pub enum DropdownAction {
    /// Queue a dropdown-toggled event with the new open state.
    QueueToggled(bool),
    /// Show a copy of the item at this index in the select box.
    ShowSelected(usize),
    /// Queue a dropdown-item-selected event for this index.
    QueueItemSelected(usize),
    /// Release the dropdown's capture of the pointer of the event.
    ReleasePointerCapture,
    /// Capture the pointer of the event for the dropdown.
    SetPointerCapture,
    /// Scroll the list so that the item at this index is visible, and
    /// redraw if that scrolled.
    ScrollIntoView(usize),
    /// Redraw the window.
    RequestRedraw,
    /// Give the dropdown the keyboard focus.
    Focus,
}

/// Where a pointer event is, relative to the dropdown.
#[derive(Clone, Copy, Debug, PartialEq, Eq, Structural)]
pub struct DropdownPointer {
    /// In the select box.
    pub in_select_box: bool,
    /// In the open list.
    pub in_list: bool,
    /// On the list's scrollbar.
    pub in_scrollbar: bool,
    /// The first item whose box holds the pointer.
    pub item_under_pointer: Option<usize>,
}

/// The state of a dropdown.
#[derive(Clone, Copy, Debug, PartialEq, Eq, Structural)]
pub struct DropdownState {
    /// Whether the list is shown.
    pub open: bool,
    /// The index of the selected item.
    pub selected: Option<usize>,
    /// The index of the highlighted item in the open list.
    pub hovered: Option<usize>,
}

/// A state and the effects that lead to it.
pub type DropdownOutcome = (DropdownState, Seq<DropdownAction>);

/// Selecting an item shows a copy of it and redraws.
pub open spec fn select_spec(s: DropdownState, index: usize) -> DropdownOutcome {
    (
        DropdownState { selected: Some(index), ..s },
        seq![DropdownAction::ShowSelected(index), DropdownAction::RequestRedraw],
    )
}

/// Opening the list highlights the selected item, else the first one.
pub open spec fn open_spec(s: DropdownState, count: usize) -> DropdownOutcome {
    (
        DropdownState {
            open: true,
            hovered: if s.selected is Some {
                s.selected
            } else if count > 0 {
                Some(0)
            } else {
                None
            },
            ..s
        },
        seq![DropdownAction::QueueToggled(true), DropdownAction::RequestRedraw],
    )
}

/// Closing the list.
pub open spec fn close_spec(s: DropdownState) -> DropdownOutcome {
    (DropdownState { open: false, ..s }, seq![DropdownAction::QueueToggled(false), DropdownAction::RequestRedraw])
}

/// Moving the keyboard selection to an item: with the list closed, that
/// selects the item (and reports it) unless it is already selected; with the
/// list open, it highlights the item and scrolls it into view.
pub open spec fn keyboard_selection_spec(s: DropdownState, index: usize) -> DropdownOutcome {
    if !s.open {
        if s.selected != Some(index) {
            let (t, a) = select_spec(s, index);
            (t, a.push(DropdownAction::QueueItemSelected(index)))
        } else {
            (s, Seq::empty())
        }
    } else {
        (
            DropdownState { hovered: Some(index), ..s },
            if s.hovered != Some(index) {
                seq![DropdownAction::ScrollIntoView(index), DropdownAction::RequestRedraw]
            } else {
                seq![DropdownAction::ScrollIntoView(index)]
            },
        )
    }
}

/// The item a step of the arrow keys moves to: one down or up from the
/// highlighted item (with the list open) or the selected one, kept within the
/// list; the first item going down or the last going up from none.
pub open spec fn move_target(s: DropdownState, down: bool, count: usize) -> usize
    recommends
        count > 0,
{
    let current = if !s.open {
        s.selected
    } else if s.hovered is Some {
        s.hovered
    } else {
        s.selected
    };
    match current {
        Some(i) => if down {
            if i + 1 < count {
                (i + 1) as usize
            } else {
                (count - 1) as usize
            }
        } else {
            if i == 0 {
                0
            } else if i - 1 < count {
                (i - 1) as usize
            } else {
                (count - 1) as usize
            }
        },
        None => if down {
            0
        } else {
            (count - 1) as usize
        },
    }
}

/// The keys a dropdown reacts to while focused, with the list holding
/// `count` items: whether the key was handled, the new state and the effects.
///
/// Enter, numpad Enter and Space (not repeats) open the list, or, with the
/// list open, select the highlighted item if it exists and close the list.
/// Escape closes an open list. The arrow keys move the selection one step,
/// Home and End to the first and the last item.
pub open spec fn keyboard_spec(
    s: DropdownState,
    focused: bool,
    event: EventKind,
    count: usize,
) -> (bool, DropdownState, Seq<DropdownAction>) {
    if !focused {
        (false, s, Seq::empty())
    } else {
        match event {
            EventKind::KeyDown(k) => if (k.code == Code::Enter || k.code == Code::NumpadEnter || k.code
                == Code::Space) && !k.repeat {
                if !s.open {
                    let (t, a) = open_spec(s, count);
                    (true, t, a)
                } else {
                    let (t1, a1) = match s.hovered {
                        Some(i) => if i < count {
                            let (u, b) = select_spec(s, i);
                            (u, b.push(DropdownAction::QueueItemSelected(i)))
                        } else {
                            (s, Seq::empty())
                        },
                        None => (s, Seq::empty()),
                    };
                    let (t2, a2) = close_spec(t1);
                    (true, t2, a1 + a2)
                }
            } else if k.code == Code::Escape && s.open {
                let (t, a) = close_spec(s);
                (true, t, a)
            } else if k.code == Code::ArrowDown && count > 0 {
                let (t, a) = keyboard_selection_spec(s, move_target(s, true, count));
                (true, t, a)
            } else if k.code == Code::ArrowUp && count > 0 {
                let (t, a) = keyboard_selection_spec(s, move_target(s, false, count));
                (true, t, a)
            } else if k.code == Code::Home && count > 0 {
                let (t, a) = keyboard_selection_spec(s, 0);
                (true, t, a)
            } else if k.code == Code::End && count > 0 {
                let (t, a) = keyboard_selection_spec(s, (count - 1) as usize);
                (true, t, a)
            } else {
                (false, s, Seq::empty())
            },
            _ => (false, s, Seq::empty()),
        }
    }
}

/// The highlighted item after a pointer event: with the list open, a pointer
/// move highlights the item under the pointer when the pointer is in the list
/// and off its scrollbar, and nothing otherwise.
pub open spec fn hover_spec(s: DropdownState, event: EventKind, p: DropdownPointer) -> DropdownState {
    if s.open && event is PointerMoved {
        DropdownState {
            hovered: if p.in_list && !p.in_scrollbar {
                p.item_under_pointer
            } else {
                None
            },
            ..s
        }
    } else {
        s
    }
}

/// A pointer release over the dropdown: on the select box it opens the list,
/// or closes an open one and releases the pointer; on an item of the open
/// list, off the scrollbar, it selects and reports the item and closes the
/// list; elsewhere it closes an open list.
pub open spec fn pointer_up_spec(s: DropdownState, p: DropdownPointer, count: usize) -> DropdownOutcome {
    if p.in_select_box {
        if !s.open {
            open_spec(s, count)
        } else {
            let (t, a) = close_spec(s);
            (t, a.push(DropdownAction::ReleasePointerCapture))
        }
    } else if s.open {
        if p.in_list {
            if p.in_scrollbar {
                (s, Seq::empty())
            } else {
                match p.item_under_pointer {
                    Some(i) => if i < count {
                        let (t, a) = select_spec(s, i);
                        (
                            DropdownState { open: false, ..t },
                            a + seq![
                                DropdownAction::ReleasePointerCapture,
                                DropdownAction::QueueItemSelected(i),
                                DropdownAction::QueueToggled(false),
                                DropdownAction::RequestRedraw,
                            ],
                        )
                    } else {
                        (s, Seq::empty())
                    },
                    None => (s, Seq::empty()),
                }
            }
        } else {
            close_spec(s)
        }
    } else {
        (s, Seq::empty())
    }
}

impl DropdownState {
    /// A closed dropdown with nothing selected.
    pub fn new() -> (r: DropdownState)
        ensures
            r == (DropdownState { open: false, selected: None, hovered: None }),
    {
        DropdownState { open: false, selected: None, hovered: None }
    }

    /// The index of the selected item.
    pub fn selected_item(&self) -> (r: Option<usize>)
        ensures
            r == self.selected,
    {
        self.selected
    }

    /// Selects the item at `index` of `count`.
    pub fn set_selected_item(&mut self, index: usize, count: usize, actions: &mut Vec<DropdownAction>)
        requires
            index < count,
        ensures
            *final(self) == select_spec(*old(self), index).0,
            final(actions)@ == old(actions)@ + select_spec(*old(self), index).1,
    {
        self.selected = Some(index);
        actions.push(DropdownAction::ShowSelected(index));
        actions.push(DropdownAction::RequestRedraw);
        assert(actions@ =~= old(actions)@ + select_spec(*old(self), index).1);
    }

    fn open_menu(&mut self, count: usize, actions: &mut Vec<DropdownAction>)
        ensures
            *final(self) == open_spec(*old(self), count).0,
            final(actions)@ == old(actions)@ + open_spec(*old(self), count).1,
    {
        self.open = true;
        self.hovered = match self.selected {
            Some(i) => Some(i),
            None => if count > 0 {
                Some(0)
            } else {
                None
            },
        };
        actions.push(DropdownAction::QueueToggled(true));
        actions.push(DropdownAction::RequestRedraw);
        assert(actions@ =~= old(actions)@ + open_spec(*old(self), count).1);
    }

    fn close_menu(&mut self, actions: &mut Vec<DropdownAction>)
        ensures
            *final(self) == close_spec(*old(self)).0,
            final(actions)@ == old(actions)@ + close_spec(*old(self)).1,
    {
        self.open = false;
        actions.push(DropdownAction::QueueToggled(false));
        actions.push(DropdownAction::RequestRedraw);
        assert(actions@ =~= old(actions)@ + close_spec(*old(self)).1);
    }

    fn set_keyboard_selection(&mut self, index: usize, actions: &mut Vec<DropdownAction>)
        ensures
            *final(self) == keyboard_selection_spec(*old(self), index).0,
            final(actions)@ == old(actions)@ + keyboard_selection_spec(*old(self), index).1,
    {
        if !self.open {
            if self.selected != Some(index) {
                self.selected = Some(index);
                actions.push(DropdownAction::ShowSelected(index));
                actions.push(DropdownAction::RequestRedraw);
                actions.push(DropdownAction::QueueItemSelected(index));
            }
        } else {
            let highlight_changed = self.hovered != Some(index);
            self.hovered = Some(index);
            actions.push(DropdownAction::ScrollIntoView(index));
            if highlight_changed {
                actions.push(DropdownAction::RequestRedraw);
            }
        }
        assert(actions@ =~= old(actions)@ + keyboard_selection_spec(*old(self), index).1);
    }

    fn move_keyboard_selection(&mut self, down: bool, count: usize, actions: &mut Vec<DropdownAction>)
        requires
            count > 0,
        ensures
            *final(self) == keyboard_selection_spec(*old(self), move_target(*old(self), down, count)).0,
            final(actions)@ == old(actions)@ + keyboard_selection_spec(
                *old(self),
                move_target(*old(self), down, count),
            ).1,
    {
        let current = if !self.open {
            self.selected
        } else if self.hovered.is_some() {
            self.hovered
        } else {
            self.selected
        };
        let next = match current {
            Some(i) => if down {
                if i < count - 1 {
                    i + 1
                } else {
                    count - 1
                }
            } else {
                if i == 0 {
                    0
                } else if i - 1 < count {
                    i - 1
                } else {
                    count - 1
                }
            },
            None => if down {
                0
            } else {
                count - 1
            },
        };
        self.set_keyboard_selection(next, actions);
    }

    /// Handles a key pressed while the dropdown has `count` items; a handled
    /// key stops the event's propagation and prevents its default handling.
    pub fn handle_keyboard_input(
        &mut self,
        focused: bool,
        event: &mut EventKind,
        count: usize,
        actions: &mut Vec<DropdownAction>,
    ) -> (handled: bool)
        ensures
            handled == keyboard_spec(*old(self), focused, *old(event), count).0,
            *final(self) == keyboard_spec(*old(self), focused, *old(event), count).1,
            final(actions)@ == old(actions)@ + keyboard_spec(*old(self), focused, *old(event), count).2,
            handled ==> final(event).base_view().stopped() && final(event).base_view().prevented(),
            handled ==> final(event).base_view().target_of() == old(event).base_view().target_of(),
            !handled ==> *final(event) == *old(event),
    {
        if !focused {
            assert(actions@ =~= old(actions)@ + Seq::<DropdownAction>::empty());
            return false;
        }
        let (code, repeat) = match event {
            EventKind::KeyDown(k) => (k.code, k.repeat),
            _ => {
                assert(actions@ =~= old(actions)@ + Seq::<DropdownAction>::empty());
                return false;
            },
        };
        let handled = if (code == Code::Enter || code == Code::NumpadEnter || code == Code::Space) && !repeat {
            if !self.open {
                self.open_menu(count, actions);
            } else {
                let ghost a0 = actions@;
                match self.hovered {
                    Some(i) => if i < count {
                        self.selected = Some(i);
                        actions.push(DropdownAction::ShowSelected(i));
                        actions.push(DropdownAction::RequestRedraw);
                        actions.push(DropdownAction::QueueItemSelected(i));
                    },
                    None => {},
                }
                let ghost a1 = actions@;
                self.close_menu(actions);
                assert(actions@ =~= a0 + (a1.subrange(a0.len() as int, a1.len() as int) + close_spec(
                    *old(self),
                ).1));
            }
            true
        } else if code == Code::Escape && self.open {
            self.close_menu(actions);
            true
        } else if code == Code::ArrowDown && count > 0 {
            self.move_keyboard_selection(true, count, actions);
            true
        } else if code == Code::ArrowUp && count > 0 {
            self.move_keyboard_selection(false, count, actions);
            true
        } else if code == Code::Home && count > 0 {
            self.set_keyboard_selection(0, actions);
            true
        } else if code == Code::End && count > 0 {
            self.set_keyboard_selection(count - 1, actions);
            true
        } else {
            assert(actions@ =~= old(actions)@ + Seq::<DropdownAction>::empty());
            false
        };
        if handled {
            event.stop_propagation();
            event.prevent_default();
        }
        handled
    }

    /// Updates the highlighted item for a pointer event; whether it changed.
    pub fn update_most_recently_hovered_child(&mut self, event: &EventKind, pointer: &DropdownPointer) -> (changed: bool)
        ensures
            *final(self) == hover_spec(*old(self), *event, *pointer),
            changed == (final(self).hovered != old(self).hovered),
    {
        if !self.open {
            return false;
        }
        let previous = self.hovered;
        if let EventKind::PointerMoved(_) = event {
            if pointer.in_list && !pointer.in_scrollbar {
                self.hovered = pointer.item_under_pointer;
            } else {
                self.hovered = None;
            }
        }
        previous != self.hovered
    }

    /// A pointer release on the dropdown, which holds `count` items.
    pub fn handle_pointer_up(&mut self, pointer: &DropdownPointer, count: usize, actions: &mut Vec<DropdownAction>)
        ensures
            *final(self) == pointer_up_spec(*old(self), *pointer, count).0,
            final(actions)@ == old(actions)@ + pointer_up_spec(*old(self), *pointer, count).1,
    {
        if pointer.in_select_box {
            if !self.open {
                self.open_menu(count, actions);
            } else {
                self.close_menu(actions);
                actions.push(DropdownAction::ReleasePointerCapture);
                assert(actions@ =~= old(actions)@ + pointer_up_spec(*old(self), *pointer, count).1);
            }
        } else if self.open {
            if pointer.in_list {
                if !pointer.in_scrollbar {
                    match pointer.item_under_pointer {
                        Some(i) => if i < count {
                            self.selected = Some(i);
                            actions.push(DropdownAction::ShowSelected(i));
                            actions.push(DropdownAction::RequestRedraw);
                            actions.push(DropdownAction::ReleasePointerCapture);
                            actions.push(DropdownAction::QueueItemSelected(i));
                            self.open = false;
                            actions.push(DropdownAction::QueueToggled(false));
                            actions.push(DropdownAction::RequestRedraw);
                        },
                        None => {},
                    }
                }
                assert(actions@ =~= old(actions)@ + pointer_up_spec(*old(self), *pointer, count).1);
            } else {
                self.close_menu(actions);
            }
        } else {
            assert(actions@ =~= old(actions)@ + pointer_up_spec(*old(self), *pointer, count).1);
        }
    }
}

/// What a dropdown does with an event: a pointer press focuses it (and a
/// left press stops there); a handled key ends the work; a pointer move
/// updates the highlight, redrawing on change; a pointer release that does
/// not end a scrollbar drag acts as [`pointer_up_spec`] says.
pub open spec fn on_event_spec(
    s: DropdownState,
    focused: bool,
    event: EventKind,
    count: usize,
    p: DropdownPointer,
    is_scrolling: bool,
) -> DropdownOutcome {
    let a0: Seq<DropdownAction> = if event is PointerDown {
        seq![DropdownAction::Focus]
    } else {
        Seq::empty()
    };
    let (handled, s1, a1) = keyboard_spec(s, focused, event, count);
    if handled {
        (s1, a0 + a1)
    } else {
        let s2 = hover_spec(s, event, p);
        let a2: Seq<DropdownAction> = if s2.hovered != s.hovered {
            seq![DropdownAction::RequestRedraw]
        } else {
            Seq::empty()
        };
        if event is PointerUp && !is_scrolling {
            let (s3, a3) = pointer_up_spec(s2, p, count);
            (s3, a0 + a2 + a3)
        } else {
            (s2, a0 + a2)
        }
    }
}

/// What the list's scroll logic asks of the pointer capture after an event:
/// a drag of the scrollbar that starts captures the pointer, one that ends
/// releases it; a start wins over an end.
pub fn scroll_capture_action(set_capture: bool, release_capture: bool) -> (r: Option<DropdownAction>)
    ensures
        r == (if set_capture {
            Some(DropdownAction::SetPointerCapture)
        } else if release_capture {
            Some(DropdownAction::ReleasePointerCapture)
        } else {
            None
        }),
{
    if set_capture {
        Some(DropdownAction::SetPointerCapture)
    } else if release_capture {
        Some(DropdownAction::ReleasePointerCapture)
    } else {
        None
    }
}

impl DropdownState {
    /// Handles an event at the dropdown, which holds `count` items; `pointer`
    /// says where a pointer event is, and `is_scrolling` whether a drag of
    /// the list's scrollbar is under way.
    pub fn on_event(
        &mut self,
        focused: bool,
        event: &mut EventKind,
        count: usize,
        pointer: &DropdownPointer,
        is_scrolling: bool,
        actions: &mut Vec<DropdownAction>,
    )
        requires
            (*old(event) is PointerUp && !is_scrolling) ==> old(event).spec_pointer_id() is Some,
        ensures
            *final(self) == on_event_spec(*old(self), focused, *old(event), count, *pointer, is_scrolling).0,
            final(actions)@ == old(actions)@ + on_event_spec(
                *old(self),
                focused,
                *old(event),
                count,
                *pointer,
                is_scrolling,
            ).1,
            (*old(event) matches EventKind::PointerDown(b) && b.button == Some(PointerButton::Left))
                ==> final(event).base_view().stopped(),
            final(event).base_view().target_of() == old(event).base_view().target_of(),
    {
        let ghost s0 = *self;
        let ghost e0 = *event;
        let is_down = match event {
            EventKind::PointerDown(_) => true,
            _ => false,
        };
        if is_down {
            actions.push(DropdownAction::Focus);
            let left = match event {
                EventKind::PointerDown(b) => b.button == Some(PointerButton::Left),
                _ => false,
            };
            if left {
                event.stop_propagation();
            }
        }
        let ghost a0 = actions@;
        let ghost e1 = *event;
        let handled = self.handle_keyboard_input(focused, event, count, actions);
        assert(keyboard_spec(s0, focused, e1, count) == keyboard_spec(s0, focused, e0, count)) by {
            assert(e1 is KeyDown <==> e0 is KeyDown);
            if e0 is KeyDown {
                assert(e1 == e0);
            }
        }
        if handled {
            assert(actions@ =~= old(actions)@ + on_event_spec(s0, focused, e0, count, *pointer, is_scrolling).1);
            return;
        }
        let ghost a1 = actions@;
        assert(hover_spec(s0, *event, *pointer) == hover_spec(s0, e0, *pointer));
        if self.update_most_recently_hovered_child(event, pointer) {
            actions.push(DropdownAction::RequestRedraw);
        }
        let ghost a2 = actions@;
        let is_up = match event {
            EventKind::PointerUp(_) => true,
            _ => false,
        };
        if is_up && !is_scrolling {
            self.handle_pointer_up(pointer, count, actions);
        }
        assert(actions@ =~= old(actions)@ + on_event_spec(s0, focused, e0, count, *pointer, is_scrolling).1);
    }
}

/// A focused dropdown opened with Enter and closed with Escape is closed
/// again, with its selection as it was, having reported opening and then
/// closing.
pub proof fn lemma_enter_then_escape(s: DropdownState, count: usize, enter: EventKind, escape: EventKind)
    requires
        !s.open,
        enter matches EventKind::KeyDown(k) && k.code == Code::Enter && !k.repeat,
        escape matches EventKind::KeyDown(k) && k.code == Code::Escape,
    ensures
        ({
            let (h1, s1, a1) = keyboard_spec(s, true, enter, count);
            let (h2, s2, a2) = keyboard_spec(s1, true, escape, count);
            &&& h1 && h2
            &&& s1.open && !s2.open
            &&& s2.selected == s.selected
            &&& a1[0] == DropdownAction::QueueToggled(true)
            &&& a2[0] == DropdownAction::QueueToggled(false)
        }),
{
}

/// The arrow keys never leave the list: the item they move to is one of the
/// `count` items.
pub proof fn lemma_move_target_in_range(s: DropdownState, down: bool, count: usize)
    requires
        count > 0,
    ensures
        move_target(s, down, count) < count,
{
}

/// Every item a dropdown selects exists: an input that shows an item as
/// selected names one of the `count` items.
pub proof fn lemma_selection_in_range(
    s: DropdownState,
    focused: bool,
    event: EventKind,
    count: usize,
    p: DropdownPointer,
    is_scrolling: bool,
)
    ensures
        forall|j: int|
            0 <= j < on_event_spec(s, focused, event, count, p, is_scrolling).1.len() ==> match #[trigger] on_event_spec(
                s,
                focused,
                event,
                count,
                p,
                is_scrolling,
            ).1[j] {
                DropdownAction::ShowSelected(i) => i < count,
                DropdownAction::QueueItemSelected(i) => i < count,
                _ => true,
            },
{
    if count > 0 {
        lemma_move_target_in_range(s, true, count);
        lemma_move_target_in_range(s, false, count);
    }
}

/// Creates the element of a new dropdown, which holds no items yet: a new
/// element without parent or children; the elements already in the store
/// are left alike. Its state starts as `DropdownState::new()` gives it.
pub fn build_dropdown(
    elements: &mut RetainedElements,
    by_internal_id: &mut FxHashMap<u64, DynElement>,
    ids: &mut IdCounter,
) -> (r: DynElement)
    requires
        old(elements).wf(),
        old(elements).nodes().len() < 0xffff_fffeu64,
    ensures
        final(elements).wf(),
        final(elements).spec_id() == old(elements).spec_id(),
        !old(elements).nodes().dom().contains(r.slot()),
        final(elements).live(r),
        final(elements).child_list(r) == Seq::<DynElement>::empty(),
        final(elements).parent_of(r) is None,
        keeps_all(*old(elements), *final(elements)),
{
    let id = create_unique_element_id(ids);
    let ghost s0 = *elements;
    let r = elements.insert(id, by_internal_id);
    proof {
        assert forall|k: u64| #![trigger elements.nodes()[k]] s0.nodes().dom().contains(k) implies same_node(
            elements.nodes()[k],
            s0.nodes()[k],
        ) by {
            assert(k != r.slot());
        }
    }
    r
}

/// Home and End reach the ends of the list: on a focused dropdown with
/// items, Home makes the first item the keyboard selection and End the last
/// one; the selected item when the list is closed, the highlighted one when
/// it is open. The key is handled and the list stays open or closed.
pub proof fn lemma_home_end_reach_the_ends(s: DropdownState, event: EventKind, count: usize)
    requires
        count > 0,
        event matches EventKind::KeyDown(k) && (k.code == Code::Home || k.code == Code::End),
    ensures
        ({
            let (handled, t, _) = keyboard_spec(s, true, event, count);
            let end = if event->KeyDown_0.code == Code::Home {
                0usize
            } else {
                (count - 1) as usize
            };
            &&& handled
            &&& t.open == s.open
            &&& (if s.open {
                t.hovered == Some(end)
            } else {
                t.selected == Some(end)
            })
        }),
{
}

/// The arrow keys step through the list one item at a time: on a focused
/// dropdown whose keyboard selection (the selected item with the list
/// closed, the highlighted one, else the selected one, with it open) is item
/// `i`, ArrowDown moves it to `i + 1` and ArrowUp to `i - 1`, staying on the
/// last and the first item at the ends; with no such item, ArrowDown starts
/// at the first item and ArrowUp at the last. The list stays open or
/// closed.
pub proof fn lemma_arrows_step_by_one(s: DropdownState, event: EventKind, count: usize)
    requires
        count > 0,
        event matches EventKind::KeyDown(k) && (k.code == Code::ArrowDown || k.code == Code::ArrowUp),
        s.selected matches Some(i) ==> i < count,
        s.hovered matches Some(i) ==> i < count,
    ensures
        ({
            let (handled, t, _) = keyboard_spec(s, true, event, count);
            let down = event->KeyDown_0.code == Code::ArrowDown;
            let current = if s.open && s.hovered is Some {
                s.hovered
            } else {
                s.selected
            };
            let target: usize = match current {
                Some(i) => if down {
                    if i + 1 < count {
                        (i + 1) as usize
                    } else {
                        i
                    }
                } else {
                    if i > 0 {
                        (i - 1) as usize
                    } else {
                        0
                    }
                },
                None => if down {
                    0
                } else {
                    (count - 1) as usize
                },
            };
            &&& handled
            &&& t.open == s.open
            &&& (if s.open {
                t.hovered == Some(target)
            } else {
                t.selected == Some(target)
            })
        }),
{
}

/// Enter on a focused dropdown with its list open picks the highlighted
/// item: it becomes the selected item, is reported, and the list closes.
pub proof fn lemma_enter_picks_highlighted(s: DropdownState, event: EventKind, count: usize)
    requires
        s.open,
        s.hovered matches Some(i) && i < count,
        event matches EventKind::KeyDown(k) && k.code == Code::Enter && !k.repeat,
    ensures
        ({
            let (handled, t, a) = keyboard_spec(s, true, event, count);
            &&& handled
            &&& !t.open
            &&& t.selected == s.hovered
            &&& a.contains(DropdownAction::QueueItemSelected(s.hovered->0))
        }),
{
    let (handled, t, a) = keyboard_spec(s, true, event, count);
    let i = s.hovered->0;
    let (u, b) = select_spec(s, i);
    assert(b.push(DropdownAction::QueueItemSelected(i))[2] == DropdownAction::QueueItemSelected(i));
    let (t2, a2) = close_spec(u);
    assert(a[2] == DropdownAction::QueueItemSelected(i));
}

} // verus!
