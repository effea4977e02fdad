use rustc_hash::FxHashMap;

use retgui::dropdown::{build_dropdown, scroll_capture_action, DropdownAction, DropdownPointer, DropdownState};
use retgui::element_id::IdCounter;
use retgui::events::{
    Code, ElementState, Event, EventKind, Key, KeyboardEvent, KeyboardModifiers, Location, NamedKey, PointerButton,
    PointerButtonEvent, PointerId, PointerInfo,
};
use retgui::store::{DynElement, RetainedElements};

fn target() -> DynElement {
    let mut ids = IdCounter::new(0);
    let mut elements = RetainedElements::new(&mut ids);
    let mut by_id = FxHashMap::default();
    elements.insert(1, &mut by_id)
}

fn key(t: DynElement, code: Code, repeat: bool) -> EventKind {
    EventKind::KeyDown(KeyboardEvent::new(
        t,
        ElementState::Pressed,
        Key::Named(NamedKey::Other),
        code,
        Location::Standard,
        KeyboardModifiers::default(),
        repeat,
        false,
    ))
}

fn nowhere() -> DropdownPointer {
    DropdownPointer { in_select_box: false, in_list: false, in_scrollbar: false, item_under_pointer: None }
}

#[test]
fn enter_opens_and_escape_closes() {
    let t = target();
    let mut s = DropdownState::new();
    let mut actions = Vec::new();
    let mut ev = key(t, Code::Enter, false);
    assert!(s.handle_keyboard_input(true, &mut ev, 3, &mut actions));
    assert!(ev.is_propagation_stopped() && ev.is_default_prevented());
    assert!(s.open);
    assert_eq!(s.hovered, Some(0));
    assert_eq!(actions, vec![DropdownAction::QueueToggled(true), DropdownAction::RequestRedraw]);

    actions.clear();
    let mut esc = key(t, Code::Escape, false);
    assert!(s.handle_keyboard_input(true, &mut esc, 3, &mut actions));
    assert!(!s.open);
    assert_eq!(actions, vec![DropdownAction::QueueToggled(false), DropdownAction::RequestRedraw]);
}

#[test]
fn keys_do_nothing_unfocused_or_repeated() {
    let t = target();
    let mut s = DropdownState::new();
    let mut actions = Vec::new();
    let mut ev = key(t, Code::Enter, false);
    assert!(!s.handle_keyboard_input(false, &mut ev, 3, &mut actions));
    let mut rep = key(t, Code::Enter, true);
    assert!(!s.handle_keyboard_input(true, &mut rep, 3, &mut actions));
    assert!(!rep.is_propagation_stopped());
    assert!(actions.is_empty());
    let mut esc = key(t, Code::Escape, false);
    assert!(!s.handle_keyboard_input(true, &mut esc, 3, &mut actions));
}

#[test]
fn arrows_select_directly_when_closed() {
    let t = target();
    let mut s = DropdownState::new();
    let mut actions = Vec::new();
    let mut down = key(t, Code::ArrowDown, false);
    assert!(s.handle_keyboard_input(true, &mut down, 3, &mut actions));
    assert_eq!(s.selected, Some(0));
    assert_eq!(
        actions,
        vec![DropdownAction::ShowSelected(0), DropdownAction::RequestRedraw, DropdownAction::QueueItemSelected(0)]
    );
    actions.clear();
    let mut end = key(t, Code::End, false);
    s.handle_keyboard_input(true, &mut end, 3, &mut actions);
    assert_eq!(s.selected, Some(2));
    actions.clear();
    let mut down_again = key(t, Code::ArrowDown, false);
    s.handle_keyboard_input(true, &mut down_again, 3, &mut actions);
    assert_eq!(s.selected, Some(2));
    assert!(actions.is_empty());
    let mut up = key(t, Code::ArrowUp, false);
    s.handle_keyboard_input(true, &mut up, 3, &mut actions);
    assert_eq!(s.selected, Some(1));
    let mut none = key(t, Code::ArrowUp, false);
    assert!(!s.handle_keyboard_input(true, &mut none, 0, &mut actions));
}

#[test]
fn arrows_highlight_when_open_and_enter_selects() {
    let t = target();
    let mut s = DropdownState::new();
    let mut actions = Vec::new();
    s.handle_keyboard_input(true, &mut key(t, Code::Space, false), 4, &mut actions);
    actions.clear();
    s.handle_keyboard_input(true, &mut key(t, Code::ArrowDown, false), 4, &mut actions);
    assert_eq!(s.hovered, Some(1));
    assert_eq!(s.selected, None);
    assert_eq!(actions, vec![DropdownAction::ScrollIntoView(1), DropdownAction::RequestRedraw]);
    actions.clear();
    s.handle_keyboard_input(true, &mut key(t, Code::NumpadEnter, false), 4, &mut actions);
    assert!(!s.open);
    assert_eq!(s.selected, Some(1));
    assert_eq!(
        actions,
        vec![
            DropdownAction::ShowSelected(1),
            DropdownAction::RequestRedraw,
            DropdownAction::QueueItemSelected(1),
            DropdownAction::QueueToggled(false),
            DropdownAction::RequestRedraw,
        ]
    );
}

#[test]
fn pointer_opens_highlights_and_picks() {
    let t = target();
    let mut s = DropdownState::new();
    let mut actions = Vec::new();
    let info = PointerInfo::new(PointerId::Mouse, true);
    let box_hit = DropdownPointer { in_select_box: true, ..nowhere() };
    let mut down = EventKind::PointerDown(PointerButtonEvent::new(t, Some(PointerButton::Left), info));
    s.on_event(false, &mut down, 3, &box_hit, false, &mut actions);
    assert!(down.is_propagation_stopped());
    assert_eq!(actions, vec![DropdownAction::Focus]);
    actions.clear();
    let mut up = EventKind::PointerUp(PointerButtonEvent::new(t, Some(PointerButton::Left), info));
    s.on_event(true, &mut up, 3, &box_hit, false, &mut actions);
    assert!(s.open);

    actions.clear();
    let over_item = DropdownPointer { in_list: true, item_under_pointer: Some(2), ..nowhere() };
    let mut moved = EventKind::PointerMoved(retgui::events::PointerMovedEvent::new(t, info));
    s.on_event(true, &mut moved, 3, &over_item, false, &mut actions);
    assert_eq!(s.hovered, Some(2));
    assert_eq!(actions, vec![DropdownAction::RequestRedraw]);

    actions.clear();
    let mut up2 = EventKind::PointerUp(PointerButtonEvent::new(t, Some(PointerButton::Left), info));
    s.on_event(true, &mut up2, 3, &over_item, false, &mut actions);
    assert!(!s.open);
    assert_eq!(s.selected_item(), Some(2));
    assert_eq!(
        actions,
        vec![
            DropdownAction::ShowSelected(2),
            DropdownAction::RequestRedraw,
            DropdownAction::ReleasePointerCapture,
            DropdownAction::QueueItemSelected(2),
            DropdownAction::QueueToggled(false),
            DropdownAction::RequestRedraw,
        ]
    );
}

#[test]
fn release_outside_closes_open_list() {
    let t = target();
    let mut s = DropdownState::new();
    let mut actions = Vec::new();
    s.set_selected_item(1, 3, &mut actions);
    assert_eq!(s.selected_item(), Some(1));
    actions.clear();
    s.handle_pointer_up(&DropdownPointer { in_select_box: true, ..nowhere() }, 3, &mut actions);
    assert_eq!(s.hovered, Some(1));
    actions.clear();
    s.handle_pointer_up(&nowhere(), 3, &mut actions);
    assert!(!s.open);
    assert_eq!(actions, vec![DropdownAction::QueueToggled(false), DropdownAction::RequestRedraw]);
    let _ = t;
}

#[test]
fn scroll_drag_sets_or_releases_capture() {
    assert_eq!(scroll_capture_action(true, true), Some(DropdownAction::SetPointerCapture));
    assert_eq!(scroll_capture_action(false, true), Some(DropdownAction::ReleasePointerCapture));
    assert_eq!(scroll_capture_action(false, false), None);
}

#[test]
fn a_new_dropdown_element_is_empty_and_closed() {
    let mut ids = IdCounter::new(0);
    let mut elements = RetainedElements::new(&mut ids);
    let mut by_id = FxHashMap::default();
    let other = elements.insert(1, &mut by_id);
    let d = build_dropdown(&mut elements, &mut by_id, &mut ids);
    assert!(elements.contains(d) && d != other);
    assert!(elements.children(d).is_empty());
    assert!(elements.parent(d).is_err());
    let state = DropdownState::new();
    assert_eq!(state.selected_item(), None);
}
