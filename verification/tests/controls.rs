use retgui::controls::{slider_on_event, SliderStep};
use rustc_hash::FxHashMap;

use retgui::controls::{
    button_on_access_event, button_on_event, radio_group_on_event, radio_is_selected, radio_on_event,
    select_radio_value, AccessRequest, CheckboxState, RadioResponse, SliderDirection,
};
use retgui::element_id::IdCounter;
use retgui::events::{
    ClickEvent, ClickTrigger, Code, ElementState, Event, EventKind, Key, KeyboardEvent, KeyboardModifiers, Location,
    NamedKey, PointerButton, PointerButtonEvent, PointerId, PointerInfo,
};
use retgui::store::{DynElement, RetainedElements};

fn target() -> DynElement {
    let mut ids = IdCounter::new(0);
    let mut elements = RetainedElements::new(&mut ids);
    let mut by_id = FxHashMap::default();
    elements.insert(1, &mut by_id)
}

fn key(t: DynElement, code: Code, k: Key, repeat: bool) -> EventKind {
    EventKind::KeyDown(KeyboardEvent::new(
        t,
        ElementState::Pressed,
        k,
        code,
        Location::Standard,
        KeyboardModifiers::default(),
        repeat,
        false,
    ))
}

#[test]
fn button_clicks_from_keys() {
    let t = target();
    let ev = key(t, Code::Space, Key::Character(" ".to_string()), false);
    let (focus, queued) = button_on_event(true, &ev, t);
    assert!(!focus);
    match queued {
        Some(EventKind::Click(ClickEvent { trigger: ClickTrigger::Keyboard { key }, .. })) => {
            assert_eq!(key, Key::Character(" ".to_string()))
        }
        _ => panic!("expected a keyboard click"),
    }
    let (_, none) = button_on_event(false, &ev, t);
    assert!(none.is_none());
    let rep = key(t, Code::Enter, Key::Named(NamedKey::Enter), true);
    assert!(button_on_event(true, &rep, t).1.is_none());
    let click = EventKind::Click(ClickEvent::new(t, ClickTrigger::Programmatic));
    assert_eq!(button_on_event(false, &click, t).0, true);
    assert!(matches!(
        button_on_access_event(AccessRequest::Invoke, t),
        Some(EventKind::Click(ClickEvent { trigger: ClickTrigger::Accessibility, .. }))
    ));
    assert!(button_on_access_event(AccessRequest::Toggle, t).is_none());
}

#[test]
fn checkbox_toggles_and_reports() {
    let t = target();
    let mut c = CheckboxState::new("Accept".to_string(), false);
    let e = c.toggle(t);
    assert!(c.checked);
    assert_eq!(e.label, "Accept");
    assert!(e.status);
    assert!(e.target() == t);
    let e2 = c.toggle(t);
    assert!(!e2.status && !c.checked);
    let space = key(t, Code::Space, Key::Named(NamedKey::Space), false);
    assert_eq!(CheckboxState::event_toggles(true, &space), (true, false));
    assert_eq!(CheckboxState::event_toggles(false, &space), (false, false));
    let click = EventKind::Click(ClickEvent::new(t, ClickTrigger::Programmatic));
    assert_eq!(CheckboxState::event_toggles(false, &click), (true, true));
}

#[test]
fn radio_selects_on_release_and_space() {
    let t = target();
    let info = PointerInfo::new(PointerId::Mouse, true);
    let mut up = EventKind::PointerUp(PointerButtonEvent::new(t, Some(PointerButton::Left), info));
    assert_eq!(radio_on_event(false, &mut up), RadioResponse::FocusAndSelect);
    assert!(!up.is_propagation_stopped());
    let mut space = key(t, Code::Space, Key::Named(NamedKey::Space), false);
    assert_eq!(radio_on_event(true, &mut space), RadioResponse::Select);
    assert!(space.is_propagation_stopped() && space.is_default_prevented());
    let mut unfocused = key(t, Code::Space, Key::Named(NamedKey::Space), false);
    assert_eq!(radio_on_event(false, &mut unfocused), RadioResponse::Nothing);

    let mut active = "red".to_string();
    let (changed, event) = select_radio_value(&mut active, &"green".to_string(), t);
    assert!(changed);
    assert_eq!(active, "green");
    assert_eq!(event.value, "green");
    assert!(radio_is_selected(&active, &"green".to_string()));
    let (again, _) = select_radio_value(&mut active, &"green".to_string(), t);
    assert!(!again);
}

#[test]
fn radio_group_moves_cyclically() {
    let t = target();
    let mut down = key(t, Code::ArrowDown, Key::Named(NamedKey::ArrowDown), false);
    assert_eq!(radio_group_on_event(&mut down, 3, Some(2)), Some(0));
    assert!(down.is_default_prevented());
    let mut left = key(t, Code::ArrowLeft, Key::Named(NamedKey::ArrowLeft), false);
    assert_eq!(radio_group_on_event(&mut left, 3, Some(0)), Some(2));
    let mut right = key(t, Code::ArrowRight, Key::Named(NamedKey::ArrowRight), false);
    assert_eq!(radio_group_on_event(&mut right, 3, Some(0)), Some(1));
    let mut none = key(t, Code::ArrowDown, Key::Named(NamedKey::ArrowDown), false);
    assert_eq!(radio_group_on_event(&mut none, 3, None), None);
    assert!(!none.is_default_prevented());
    assert_eq!(SliderDirection::default(), SliderDirection::Horizontal);
}

#[test]
fn slider_keys_and_drags() {
    let t = target();
    let mut dragging = false;
    let mut up = key(t, Code::ArrowUp, Key::Named(NamedKey::ArrowUp), false);
    assert_eq!(slider_on_event(true, &mut dragging, &mut up), SliderStep::By(1));
    assert!(up.is_propagation_stopped() && up.is_default_prevented());
    let mut page_down = key(t, Code::PageDown, Key::Named(NamedKey::PageDown), false);
    assert_eq!(slider_on_event(true, &mut dragging, &mut page_down), SliderStep::By(-10));
    let mut home = key(t, Code::Home, Key::Named(NamedKey::Home), false);
    assert_eq!(slider_on_event(false, &mut dragging, &mut home), SliderStep::Nothing);
    assert!(!home.is_default_prevented());
    let info = PointerInfo::new(PointerId::Mouse, true);
    let mut moved = EventKind::PointerMoved(retgui::events::PointerMovedEvent::new(t, info));
    assert_eq!(slider_on_event(false, &mut dragging, &mut moved), SliderStep::Nothing);
    let mut down = EventKind::PointerDown(PointerButtonEvent::new(t, Some(PointerButton::Left), info));
    assert_eq!(slider_on_event(false, &mut dragging, &mut down), SliderStep::Press);
    assert!(dragging);
    assert_eq!(slider_on_event(false, &mut dragging, &mut moved), SliderStep::Drag);
    let mut release = EventKind::PointerUp(PointerButtonEvent::new(t, Some(PointerButton::Left), info));
    assert_eq!(slider_on_event(false, &mut dragging, &mut release), SliderStep::Release);
    assert!(!dragging);
}
