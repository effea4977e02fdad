use rustc_hash::FxHashMap;

use retgui::element_id::IdCounter;
use retgui::events::{EventKind, FocusEvent, PointerButton, PointerButtonEvent, PointerCaptureEvent, PointerId, PointerInfo};
use retgui::pointer_capture::{capture_change_events, CaptureChange, PointerCapture};
use retgui::store::{DynElement, RetainedElements};

fn handles() -> (RetainedElements, DynElement, DynElement) {
    let mut ids = IdCounter::new(0);
    let mut elements = RetainedElements::new(&mut ids);
    let mut by_id = FxHashMap::default();
    let a = elements.insert(1, &mut by_id);
    let b = elements.insert(2, &mut by_id);
    (elements, a, b)
}

#[test]
fn capture_takes_effect_when_processed() {
    let (_e, a, _b) = handles();
    let mut pc = PointerCapture::new();
    let id = PointerId::Mouse;
    pc.set_pointer_capture(id, a);
    assert!(pc.has_pointer_capture(id, a));
    let moved = EventKind::Focus(FocusEvent::new(a));
    assert_eq!(pc.find_pointer_capture_target(&moved, &id), None);
    let got = EventKind::GotPointerCapture(PointerCaptureEvent::new(a, id));
    assert_eq!(pc.find_pointer_capture_target(&got, &id), Some(a));

    let change = pc.process_pending_pointer_capture(&id);
    assert_eq!(change.lost, None);
    assert_eq!(change.got, Some(a));
    assert!(change.changed());
    pc.commit_pointer_capture(&id, &change);
    assert_eq!(pc.find_pointer_capture_target(&moved, &id), Some(a));

    let again = pc.process_pending_pointer_capture(&id);
    assert!(!again.changed());
}

#[test]
fn switching_capture_fires_lost_then_got() {
    let (_e, a, b) = handles();
    let mut pc = PointerCapture::new();
    let id = PointerId::Touch(3);
    pc.set_pointer_capture(id, a);
    let c = pc.process_pending_pointer_capture(&id);
    pc.commit_pointer_capture(&id, &c);
    pc.set_pointer_capture(id, b);
    let c = pc.process_pending_pointer_capture(&id);
    assert_eq!(c.lost, Some(a));
    assert_eq!(c.got, Some(b));
    assert_eq!(c.next, Some(b));
}

#[test]
fn pointer_up_releases_capture() {
    let (_e, a, _b) = handles();
    let mut pc = PointerCapture::new();
    let id = PointerId::Mouse;
    pc.set_pointer_capture(id, a);
    let c = pc.process_pending_pointer_capture(&id);
    pc.commit_pointer_capture(&id, &c);
    let up = EventKind::PointerUp(PointerButtonEvent::new(a, Some(PointerButton::Left), PointerInfo::new(id, true)));
    let change = pc.maybe_handle_implicit_pointer_capture_release(&up, &id).unwrap();
    assert_eq!(change.lost, Some(a));
    assert_eq!(change.got, None);
    pc.commit_pointer_capture(&id, &change);
    let probe = EventKind::Focus(FocusEvent::new(a));
    assert_eq!(pc.find_pointer_capture_target(&probe, &id), None);
    assert!(pc.maybe_handle_implicit_pointer_capture_release(&probe, &id).is_none());
}

#[test]
fn release_only_by_holder_and_remove_element() {
    let (_e, a, b) = handles();
    let mut pc = PointerCapture::default();
    pc.set_pointer_capture(PointerId::Mouse, a);
    pc.set_pointer_capture(PointerId::Touch(1), b);
    pc.release_pointer_capture(PointerId::Mouse, b);
    assert!(pc.has_pointer_capture(PointerId::Mouse, a));
    pc.release_pointer_capture(PointerId::Mouse, a);
    assert!(!pc.has_pointer_capture(PointerId::Mouse, a));
    pc.remove_element(b);
    assert!(!pc.has_pointer_capture(PointerId::Touch(1), b));
}

#[test]
fn deleting_a_subtree_clears_its_captures() {
    let (mut elements, a, b) = handles();
    let mut by_id = FxHashMap::default();
    let parent = elements.insert(7, &mut by_id);
    elements.push_child(parent, a);
    let mut pc = PointerCapture::new();
    pc.set_pointer_capture(PointerId::Mouse, a);
    let c = pc.process_pending_pointer_capture(&PointerId::Mouse);
    pc.commit_pointer_capture(&PointerId::Mouse, &c);
    pc.set_pointer_capture(PointerId::Touch(2), b);
    let mut focus = None;
    let deleted = elements.delete_all_children(parent, &mut focus, &mut by_id);
    pc.remove_elements(&deleted.elements);
    let probe = EventKind::Focus(FocusEvent::new(b));
    assert_eq!(pc.find_pointer_capture_target(&probe, &PointerId::Mouse), None);
    assert!(!pc.has_pointer_capture(PointerId::Mouse, a));
    assert!(pc.has_pointer_capture(PointerId::Touch(2), b));
}

#[test]
fn capture_change_events_tell_the_loser_first() {
    let (_elements, a, b) = handles();
    let id = PointerId::Mouse;
    let change = CaptureChange { lost: Some(a), got: Some(b), next: Some(b) };
    let events = capture_change_events(&change, id);
    assert_eq!(events.len(), 2);
    assert!(matches!(&events[0], EventKind::LostPointerCapture(e) if e.pointer_id == id && e.base.target() == a));
    assert!(matches!(&events[1], EventKind::GotPointerCapture(e) if e.pointer_id == id && e.base.target() == b));
    let none = CaptureChange { lost: None, got: None, next: None };
    assert!(capture_change_events(&none, id).is_empty());
}
