use retgui::dispatch::{listeners_to_run, ListenerKind};
use retgui::dispatch::EventQueue;
use rustc_hash::FxHashMap;

use retgui::dispatch::{
    dispatch_follow_up, dispatch_targets, find_target, pointer_leave_due, DispatchCursor, DispatchPhase, DispatchStep, EventDispatcher,
};
use retgui::element_id::IdCounter;
use retgui::events::{
    ClickEvent, ClickTrigger, Event, EventKind, FocusEvent, PointerButton, PointerButtonEvent, PointerId, PointerInfo,
};
use retgui::pointer_capture::PointerCapture;
use retgui::store::{DynElement, RetainedElements};

fn tree() -> (RetainedElements, FxHashMap<u64, DynElement>, DynElement, DynElement, DynElement) {
    let mut ids = IdCounter::new(0);
    let mut elements = RetainedElements::new(&mut ids);
    let mut by_id = FxHashMap::default();
    let root = elements.insert(1, &mut by_id);
    let left = elements.insert(2, &mut by_id);
    let right = elements.insert(3, &mut by_id);
    elements.push_child(root, left);
    elements.push_child(root, right);
    (elements, by_id, root, left, right)
}

fn step(phase: DispatchPhase, index: usize) -> Option<DispatchStep> {
    Some(DispatchStep { phase, index })
}

#[test]
fn undisturbed_dispatch_visits_capture_bubble_default() {
    let (_e, _m, root, _l, _r) = tree();
    let event = FocusEvent::new(root);
    let mut cursor = DispatchCursor::new(2);
    let mut seen = Vec::new();
    while let Some(s) = cursor.next(event.base()) {
        seen.push(s);
    }
    assert_eq!(
        seen.into_iter().map(Some).collect::<Vec<_>>(),
        vec![
            step(DispatchPhase::Capture, 1),
            step(DispatchPhase::Capture, 0),
            step(DispatchPhase::Bubble, 0),
            step(DispatchPhase::Bubble, 1),
            step(DispatchPhase::Default, 0),
            step(DispatchPhase::Default, 1),
        ]
    );
    assert_eq!(cursor.next(event.base()), None);
}

#[test]
fn stopping_in_capture_skips_bubble_but_not_default() {
    let (_e, _m, root, _l, _r) = tree();
    let mut event = FocusEvent::new(root);
    let mut cursor = DispatchCursor::new(3);
    assert_eq!(cursor.next(event.base()), step(DispatchPhase::Capture, 2));
    event.stop_propagation();
    assert_eq!(cursor.next(event.base()), step(DispatchPhase::Default, 0));
    assert_eq!(cursor.next(event.base()), None);
}

#[test]
fn preventing_default_skips_default_phase() {
    let (_e, _m, root, _l, _r) = tree();
    let mut event = FocusEvent::new(root);
    let mut cursor = DispatchCursor::new(1);
    assert_eq!(cursor.next(event.base()), step(DispatchPhase::Capture, 0));
    event.prevent_default();
    assert_eq!(cursor.next(event.base()), step(DispatchPhase::Bubble, 0));
    assert_eq!(cursor.next(event.base()), None);
    let empty = DispatchCursor::new(0).next(event.base());
    assert_eq!(empty, None);
}

#[test]
fn deleting_an_event_target_during_dispatch_is_safe() {
    let (mut elements, mut by_id, parent, child, _r) = tree();
    let targets = elements.freeze_target_list(child);
    let mut event = EventKind::Click(ClickEvent::new(child, ClickTrigger::Programmatic));
    let mut cursor = DispatchCursor::new(targets.len());
    let mut focus = None;
    let mut default_runs = 0;
    while let Some(s) = cursor.next(event.base()) {
        let mut base = *event.base();
        base.set_current_target(targets[s.index]);
        event.set_base(base);
        match s.phase {
            DispatchPhase::Bubble if targets[s.index] == child => {
                elements.delete_all_children(parent, &mut focus, &mut by_id);
            }
            DispatchPhase::Default => {
                if elements.contains(targets[s.index]) {
                    default_runs += 1;
                }
            }
            _ => {}
        }
    }
    assert!(!elements.contains(child));
    assert_eq!(default_runs, 1);
}

#[test]
fn click_lands_on_common_ancestor_or_captured_target() {
    let (elements, _m, root, left, right) = tree();
    let mut d = EventDispatcher::new();
    let info = PointerInfo::new(PointerId::Mouse, true);
    let down = EventKind::PointerDown(PointerButtonEvent::new(left, Some(PointerButton::Left), info));
    let up = EventKind::PointerUp(PointerButtonEvent::new(right, Some(PointerButton::Left), info));
    assert_eq!(d.pointer_click_target(&elements, &down, Some(left), false), None);
    assert_eq!(d.pointer_click_target(&elements, &up, Some(right), false), Some(root));
    // The press record is gone after the release.
    assert_eq!(d.pointer_click_target(&elements, &up, Some(right), false), None);

    assert_eq!(d.pointer_click_target(&elements, &down, Some(left), false), None);
    assert_eq!(d.pointer_click_target(&elements, &up, Some(right), true), Some(right));

    let right_button = EventKind::PointerDown(PointerButtonEvent::new(left, Some(PointerButton::Right), info));
    assert_eq!(d.pointer_click_target(&elements, &right_button, Some(left), false), None);
    assert_eq!(d.pointer_click_target(&elements, &up, Some(right), false), None);
}

#[test]
fn enter_and_leave_lists() {
    let (elements, _m, root, left, right) = tree();
    let mut d = EventDispatcher::new();
    let first = elements.freeze_target_list(left);
    assert_eq!(first, vec![left, root]);
    assert_eq!(d.pointer_enter_targets(&first), vec![root, left]);
    d.set_previous_targets(first.clone());
    let second = elements.freeze_target_list(right);
    assert_eq!(d.pointer_leave_candidates(&second), vec![left]);
    assert_eq!(d.pointer_enter_targets(&second), vec![right]);
    assert!(pointer_leave_due(&elements, left, &second));
    assert!(!pointer_leave_due(&elements, root, &second));
}

#[test]
fn targets_follow_pointer_capture_and_focus() {
    let (elements, _m, root, left, right) = tree();
    let info = PointerInfo::new(PointerId::Mouse, true);
    let moved = EventKind::PointerMoved(retgui::events::PointerMovedEvent::new(root, info));
    let mut pc = PointerCapture::new();
    assert_eq!(find_target(&pc, &moved, &PointerId::Mouse, Some(left), root), left);
    assert_eq!(find_target(&pc, &moved, &PointerId::Mouse, None, root), root);
    pc.set_pointer_capture(PointerId::Mouse, right);
    let c = pc.process_pending_pointer_capture(&PointerId::Mouse);
    pc.commit_pointer_capture(&PointerId::Mouse, &c);
    assert_eq!(find_target(&pc, &moved, &PointerId::Mouse, Some(left), root), right);

    assert_eq!(dispatch_targets(&elements, &moved, left, None, root), vec![left, root]);
    let focus = EventKind::Focus(FocusEvent::new(root));
    assert_eq!(dispatch_targets(&elements, &focus, left, Some(right), root), vec![root]);
}

#[test]
fn listeners_run_by_kind_and_phase() {
    let (_e, _m, root, _l, _r) = tree();
    let click = EventKind::Click(ClickEvent::new(root, ClickTrigger::Programmatic));
    let listeners = vec![
        (ListenerKind::Click, false),
        (ListenerKind::Focus, false),
        (ListenerKind::Click, true),
        (ListenerKind::Click, false),
    ];
    assert_eq!(listeners_to_run(&listeners, &click, false), vec![0, 3]);
    assert_eq!(listeners_to_run(&listeners, &click, true), vec![2]);
    let info = PointerInfo::new(PointerId::Mouse, true);
    let key_up = EventKind::PointerUp(PointerButtonEvent::new(root, Some(PointerButton::Left), info));
    assert!(listeners_to_run(&listeners, &key_up, false).is_empty());
}

#[test]
fn queue_drops_events_for_deleted_targets() {
    let (mut elements, mut by_id, root, left, right) = tree();
    let mut q = EventQueue::new();
    q.queue_event(EventKind::Focus(FocusEvent::new(left)));
    q.queue_event(EventKind::Focus(FocusEvent::new(right)));
    q.queue_event(EventKind::Focus(FocusEvent::new(left)));
    let mut focus = None;
    elements.remove_child(root, left).unwrap();
    let parent = elements.insert(9, &mut by_id);
    elements.push_child(parent, left);
    elements.delete_all_children(parent, &mut focus, &mut by_id);
    assert_eq!(q.len(), 3);
    let first = q.next_event(&elements).unwrap();
    assert!(first.target() == right);
    assert!(q.next_event(&elements).is_none());
    assert_eq!(q.len(), 0);
}

#[test]
fn follow_up_commits_capture_retargets_and_clicks() {
    let (elements, _m, root, left, right) = tree();
    let mut dispatcher = EventDispatcher::new();
    let mut capture = PointerCapture::new();
    let info = PointerInfo::new(PointerId::Mouse, true);
    let down = EventKind::PointerDown(PointerButtonEvent::new(left, Some(PointerButton::Left), info));
    capture.set_pointer_capture(PointerId::Mouse, right);
    let targets = vec![left, root];
    let f = dispatch_follow_up(&mut dispatcher, &mut capture, &elements, &down, Some(left), root, targets, Some(left), false);
    assert_eq!(f.capture_events.len(), 1);
    assert!(matches!(&f.capture_events[0], EventKind::GotPointerCapture(e) if e.base.target() == right));
    assert_eq!(f.retargeted, Some(vec![right, root]));
    assert_eq!(f.click, None);
    assert_eq!(f.previous_targets, Some(vec![right, root]));
    assert!(capture.has_pointer_capture(PointerId::Mouse, right));

    // The release clicks on the captured target and ends the capture.
    let up = EventKind::PointerUp(PointerButtonEvent::new(right, Some(PointerButton::Left), info));
    let f = dispatch_follow_up(&mut dispatcher, &mut capture, &elements, &up, Some(left), root, vec![right, root], Some(right), true);
    assert!(matches!(&f.capture_events[0], EventKind::LostPointerCapture(e) if e.base.target() == right));
    assert_eq!(f.retargeted, Some(vec![left, root]));
    assert_eq!(f.click, Some(right));
    assert!(!capture.has_pointer_capture(PointerId::Mouse, right));

    // A focus event changes no capture and no previous targets.
    let focus = EventKind::Focus(FocusEvent::new(root));
    let f = dispatch_follow_up(&mut dispatcher, &mut capture, &elements, &focus, None, root, vec![root], None, false);
    assert!(f.capture_events.is_empty());
    assert_eq!(f.retargeted, None);
    assert_eq!(f.previous_targets, None);
}
