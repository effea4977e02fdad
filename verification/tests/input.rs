use rustc_hash::FxHashMap;

use retgui::element_id::IdCounter;
use retgui::events::{Code, ElementState, Key, KeyboardEvent, KeyboardModifiers, Location, NamedKey};
use retgui::events::Ime;
use retgui::animation::AnimationScheduler;
use retgui::input::{apply_window_event, navigation_list, composing_after, outline_after_pointer_button, WindowList,
    close_ends_application, focus_after_dispatch, key_preamble, key_shows_focus_outline, on_window_event,
    tab_navigation_index, tab_navigation_target, KeyPreamble, WindowEventResult, WindowEventRoute, WindowInput,
    ZoomStep,
};
use retgui::store::{DynElement, RetainedElements};

fn handles(n: u64) -> Vec<DynElement> {
    let mut ids = IdCounter::new(0);
    let mut elements = RetainedElements::new(&mut ids);
    let mut by_id = FxHashMap::default();
    (0..n).map(|i| elements.insert(i, &mut by_id)).collect()
}

fn key_event(t: DynElement, key: Key, modifiers: KeyboardModifiers, repeat: bool) -> KeyboardEvent {
    KeyboardEvent::new(t, ElementState::Pressed, key, Code::Other, Location::Standard, modifiers, repeat, false)
}

#[test]
fn window_events_route_and_continue() {
    assert_eq!(
        on_window_event(WindowInput::KeyboardInput { is_synthetic: true }),
        (WindowEventRoute::Ignore, WindowEventResult::Continue)
    );
    assert_eq!(on_window_event(WindowInput::KeyboardInput { is_synthetic: false }).0, WindowEventRoute::Keyboard);
    assert_eq!(
        on_window_event(WindowInput::Focused(false)).0,
        WindowEventRoute::Focus { focused: false, end_composition: true }
    );
    assert_eq!(
        on_window_event(WindowInput::PointerButton { released: true }).0,
        WindowEventRoute::PointerButton { is_up: true }
    );
    assert!(close_ends_application(0));
    assert!(!close_ends_application(1));
}

#[test]
fn function_keys_and_zoom_come_first() {
    let h = handles(1);
    let f3 = key_event(h[0], Key::Named(NamedKey::F3), KeyboardModifiers::default(), false);
    assert_eq!(key_preamble(&f3), KeyPreamble::TogglePerfStats);
    let f3_repeat = key_event(h[0], Key::Named(NamedKey::F3), KeyboardModifiers::default(), true);
    assert_eq!(key_preamble(&f3_repeat), KeyPreamble::Dispatch);
    let ctrl = KeyboardModifiers { control: true, ..KeyboardModifiers::default() };
    let plus = key_event(h[0], Key::Character("=".to_string()), ctrl, false);
    assert_eq!(key_preamble(&plus), KeyPreamble::Zoom(ZoomStep::In));
    let minus = key_event(h[0], Key::Character("-".to_string()), ctrl, false);
    assert_eq!(key_preamble(&minus), KeyPreamble::Zoom(ZoomStep::Out));
    assert!(!key_shows_focus_outline(&minus));
    let a = key_event(h[0], Key::Character("a".to_string()), KeyboardModifiers::default(), false);
    assert!(key_shows_focus_outline(&a));
    assert_eq!(key_preamble(&a), KeyPreamble::Dispatch);
}

#[test]
fn tab_cycles_through_focusable_elements() {
    let h = handles(4);
    let nav = vec![(h[0], true), (h[1], false), (h[2], true), (h[3], false)];
    assert_eq!(tab_navigation_index(&nav, None, false), Some(0));
    assert_eq!(tab_navigation_index(&nav, None, true), Some(2));
    assert_eq!(tab_navigation_index(&nav, Some(h[0]), false), Some(2));
    assert_eq!(tab_navigation_index(&nav, Some(h[2]), false), Some(0));
    assert_eq!(tab_navigation_index(&nav, Some(h[0]), true), Some(2));
    assert_eq!(tab_navigation_index(&nav, Some(h[1]), true), Some(0));
    let none = vec![(h[0], false)];
    assert_eq!(tab_navigation_index(&none, Some(h[0]), false), None);

    let tab = key_event(h[0], Key::Named(NamedKey::Tab), KeyboardModifiers::default(), false);
    assert_eq!(tab_navigation_target(&nav, Some(h[2]), &tab), Some(h[0]));
    let shift_tab = key_event(
        h[0],
        Key::Named(NamedKey::Tab),
        KeyboardModifiers { shift: true, ..KeyboardModifiers::default() },
        false,
    );
    assert_eq!(tab_navigation_target(&nav, Some(h[0]), &shift_tab), Some(h[2]));
    let ctrl_tab = key_event(
        h[0],
        Key::Named(NamedKey::Tab),
        KeyboardModifiers { control: true, ..KeyboardModifiers::default() },
        false,
    );
    assert_eq!(tab_navigation_target(&nav, Some(h[0]), &ctrl_tab), None);
    assert_eq!(focus_after_dispatch(true, Some(h[0])), None);
    assert_eq!(focus_after_dispatch(false, Some(h[0])), Some(h[0]));
}

#[test]
fn ime_composition_and_outline() {
    assert_eq!(composing_after(&Ime::Preedit("ka".to_string(), None)), Some(true));
    assert_eq!(composing_after(&Ime::Preedit(String::new(), Some((0, 0)))), Some(false));
    assert_eq!(composing_after(&Ime::Commit("か".to_string())), Some(false));
    assert_eq!(composing_after(&Ime::Enabled), Some(false));
    assert_eq!(composing_after(&Ime::DeleteSurrounding { before_bytes: 1, after_bytes: 0 }), None);
    assert!(outline_after_pointer_button(true, true));
    assert!(!outline_after_pointer_button(true, false));
    assert!(!outline_after_pointer_button(false, true));
}

#[test]
fn closing_the_last_window_ends_the_application() {
    let h = handles(2);
    let mut windows = WindowList::new();
    windows.add_window(h[0]);
    windows.add_window(h[1]);
    assert!(windows.close_window(h[0]));
    assert!(!windows.close_window(h[0]));
    assert_eq!(windows.windows(), &vec![h[1]]);
    assert!(!close_ends_application(windows.windows().len()));
    assert!(windows.close_window(h[1]));
    assert!(windows.is_empty());
    assert!(close_ends_application(windows.windows().len()));
}

#[test]
fn close_request_closes_the_window_and_the_last_ends_the_app() {
    let mut ids = IdCounter::new(0);
    let mut elements = RetainedElements::new(&mut ids);
    let mut by_id = FxHashMap::default();
    let w1 = elements.insert(1, &mut by_id);
    let w2 = elements.insert(2, &mut by_id);
    let child = elements.insert(3, &mut by_id);
    elements.push_child(w1, child);
    elements.mark_window(w1);
    let mut windows = WindowList::new();
    windows.add_window(w1);
    windows.add_window(w2);
    let mut scheduler = AnimationScheduler::new();
    scheduler.request_update(child, true, 5);
    let mut requested = false;

    let r = apply_window_event(WindowInput::Moved, w1, &mut windows, &mut scheduler, &elements, &mut requested);
    assert_eq!(r, (WindowEventRoute::Move, WindowEventResult::Continue));
    assert_eq!(windows.windows(), &vec![w1, w2]);
    assert_eq!(scheduler.scheduled().len(), 1);

    let r = apply_window_event(WindowInput::CloseRequested, w1, &mut windows, &mut scheduler, &elements, &mut requested);
    assert_eq!(r, (WindowEventRoute::CloseWindow, WindowEventResult::Continue));
    assert_eq!(windows.windows(), &vec![w2]);
    assert!(scheduler.scheduled().is_empty());
    assert!(!requested);

    apply_window_event(WindowInput::CloseRequested, w2, &mut windows, &mut scheduler, &elements, &mut requested);
    assert!(windows.is_empty());
    assert!(requested);
}

#[test]
fn navigation_list_is_the_preorder_of_visible_elements() {
    let mut ids = IdCounter::new(0);
    let mut elements = RetainedElements::new(&mut ids);
    let mut by_id = FxHashMap::default();
    let root = elements.insert(1, &mut by_id);
    let a = elements.insert(2, &mut by_id);
    let a1 = elements.insert(3, &mut by_id);
    let b = elements.insert(4, &mut by_id);
    let b1 = elements.insert(5, &mut by_id);
    let c = elements.insert(6, &mut by_id);
    elements.push_child(root, a);
    elements.push_child(a, a1);
    elements.push_child(root, b);
    elements.push_child(b, b1);
    elements.push_child(root, c);
    let flags = vec![(a, true, true), (a1, true, false), (b, false, true), (b1, true, true), (c, true, true)];
    assert_eq!(navigation_list(&elements, &flags, root), vec![(a, true), (a1, false), (c, true)]);
}
