use rustc_hash::FxHashMap;

use retgui::element_id::IdCounter;
use retgui::events::{
    ButtonSource, ClickEvent, ClickTrigger, Event, EventKind, FocusEvent, PointerButton, PointerId, PointerInfo,
    PointerSource, PointerType, TabletToolKind,
};
use retgui::store::{DynElement, RetainedElements};

fn two_targets() -> (RetainedElements, DynElement, DynElement) {
    let mut ids = IdCounter::new(0);
    let mut elements = RetainedElements::new(&mut ids);
    let mut by_id = FxHashMap::default();
    let a = elements.insert(1, &mut by_id);
    let b = elements.insert(2, &mut by_id);
    (elements, a, b)
}

#[test]
fn event_controls_track_dispatch_state() {
    let (_elements, target, _) = two_targets();
    let mut event = FocusEvent::new(target);

    assert!(event.target() == target);
    assert!(event.current_target() == target);
    assert!(!event.is_propagation_stopped());
    assert!(!event.is_default_prevented());

    event.stop_propagation();
    event.prevent_default();

    assert!(event.is_propagation_stopped());
    assert!(event.is_default_prevented());
}

#[test]
fn retarget_updates_both_targets() {
    let (_elements, initial, replacement) = two_targets();
    assert!(initial != replacement);
    let mut event = EventKind::Focus(FocusEvent::new(initial));

    event.retarget(replacement);

    assert!(event.target() == replacement);
    assert!(event.current_target() == replacement);
}

#[test]
fn retarget_keeps_flags_and_payload() {
    let (_elements, a, b) = two_targets();
    let mut event = EventKind::Click(ClickEvent::new(a, ClickTrigger::Programmatic));
    event.stop_propagation();
    event.retarget(b);
    assert!(event.is_propagation_stopped());
    assert!(!event.is_default_prevented());
    assert!(matches!(event, EventKind::Click(ClickEvent { trigger: ClickTrigger::Programmatic, .. })));
}

#[test]
fn pointer_info_from_sources() {
    let touch = PointerInfo::from_source(&PointerSource::Touch { finger_id: 7 }, false);
    assert_eq!(touch.pointer_id, Some(PointerId::Touch(7)));
    assert_eq!(touch.pointer_type, PointerType::Touch);
    assert!(!touch.is_primary_pointer());

    let pen = PointerInfo::from_button(&ButtonSource::TabletTool { kind: TabletToolKind::Pen }, true);
    assert_eq!(pen.pointer_id, Some(PointerId::TabletTool(TabletToolKind::Pen)));
    assert_eq!(pen.pointer_type, PointerType::Pen);
    assert!(pen.is_primary_pointer());

    let mouse = PointerInfo::from_button(&ButtonSource::Mouse(PointerButton::Right), true);
    assert_eq!(mouse.pointer_type, PointerType::Mouse);
    let unknown = PointerInfo::new(PointerId::Unknown, false);
    assert_eq!(unknown.pointer_type, PointerType::Unknown);
    assert_eq!(PointerType::default(), PointerType::Unknown);
}

#[test]
fn event_kind_classification() {
    let (_elements, a, _) = two_targets();
    let info = PointerInfo::new(PointerId::Mouse, true);
    let down = EventKind::PointerDown(retgui::events::PointerButtonEvent::new(a, Some(PointerButton::Left), info));
    assert!(down.is_system_pointer_event());
    assert_eq!(down.pointer_id(), Some(PointerId::Mouse));
    assert!(!down.is_keyboard_event());
    let focus = EventKind::Focus(FocusEvent::new(a));
    assert!(!focus.is_system_pointer_event());
    assert_eq!(focus.pointer_id(), None);
}
