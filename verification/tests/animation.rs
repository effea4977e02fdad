use retgui::animation::{after_tick, tick_entry, ScheduledAnimation};
use rustc_hash::FxHashMap;

use retgui::animation::{window_schedule, AnimationClock, AnimationSchedule, AnimationScheduler, Repeat};
use retgui::element_id::IdCounter;
use retgui::store::RetainedElements;

#[test]
fn clock_counts_loops_and_keeps_remainder() {
    let mut c = AnimationClock::new(100, Repeat::Forever);
    c.tick(50);
    assert_eq!((c.current_nanos(), c.completed_loops()), (50, 0));
    c.tick(275);
    assert_eq!((c.current_nanos(), c.completed_loops()), (25, 3));
    assert!(!c.is_finished());
}

#[test]
fn fixed_repeat_stops_at_the_end() {
    let mut c = AnimationClock::new(100, Repeat::Fixed(2));
    c.tick(150);
    assert_eq!((c.current_nanos(), c.completed_loops()), (50, 1));
    c.tick(1000);
    assert!(c.is_finished());
    assert_eq!((c.current_nanos(), c.completed_loops()), (100, 2));
    c.tick(1000);
    assert_eq!((c.current_nanos(), c.completed_loops()), (100, 2));
    assert!(AnimationClock::new(0, Repeat::Forever).is_finished());
}

#[test]
fn schedules_merge_to_the_earliest() {
    let a = AnimationSchedule::At(10);
    let b = AnimationSchedule::At(5);
    assert_eq!(a.merge(b), AnimationSchedule::At(5));
    assert_eq!(a.merge(AnimationSchedule::Never), a);
    assert_eq!(a.merge(AnimationSchedule::NextFrame), AnimationSchedule::NextFrame);
    assert!(AnimationSchedule::At(3).is_due(3));
    assert!(!AnimationSchedule::At(4).is_due(3));
    assert_eq!(window_schedule(&vec![AnimationSchedule::At(20), AnimationSchedule::At(30)], 10), AnimationSchedule::At(20));
    assert_eq!(window_schedule(&vec![AnimationSchedule::At(20), AnimationSchedule::At(5)], 10), AnimationSchedule::NextFrame);
    assert_eq!(window_schedule(&vec![], 10), AnimationSchedule::Never);
}

#[test]
fn scheduler_lists_each_element_once() {
    let mut ids = IdCounter::new(0);
    let mut elements = RetainedElements::new(&mut ids);
    let mut by_id = FxHashMap::default();
    let a = elements.insert(1, &mut by_id);
    let b = elements.insert(2, &mut by_id);
    let mut s = AnimationScheduler::new();
    s.request_update(a, false, 10);
    s.request_update(b, false, 11);
    s.request_update(a, true, 20);
    let list = s.scheduled();
    assert_eq!(list.len(), 2);
    assert_eq!(list[0].element, a);
    assert_eq!(list[0].last_tick, 20);
    assert_eq!(list[0].deadline, AnimationSchedule::NextFrame);
    let mut focus = None;
    let parent = elements.insert(3, &mut by_id);
    elements.push_child(parent, b);
    elements.delete_all_children(parent, &mut focus, &mut by_id);
    s.retain_live(&elements);
    assert_eq!(s.scheduled().len(), 1);
}

#[test]
fn pending_updates_skip_gone_elements_and_foreign_windows() {
    let mut ids = IdCounter::new(0);
    let mut elements = RetainedElements::new(&mut ids);
    let mut by_id = FxHashMap::default();
    let window = elements.insert(1, &mut by_id);
    let other_window = elements.insert(2, &mut by_id);
    let a = elements.insert(3, &mut by_id);
    let b = elements.insert(4, &mut by_id);
    elements.push_child(window, a);
    elements.push_child(other_window, b);
    elements.mark_window(window);
    elements.mark_window(other_window);
    let mut s = AnimationScheduler::new();
    let mut pending = vec![(a, false), (b, false), (a, true)];
    s.apply_pending_animation_updates(&elements, &vec![window], &mut pending, 50);
    assert!(pending.is_empty());
    let list = s.scheduled();
    assert_eq!(list.len(), 1);
    assert_eq!(list[0].element, a);
    s.close_window(&elements, window);
    assert!(s.scheduled().is_empty());

    let entry = ScheduledAnimation { element: a, deadline: AnimationSchedule::At(100), last_tick: 40, dormant: false };
    assert_eq!(tick_entry(entry, true, 90), (entry, None));
    let (ticked, delta) = tick_entry(entry, true, 120);
    assert_eq!(delta, Some(80));
    assert_eq!(ticked.last_tick, 120);
    let (hidden, none) = tick_entry(entry, false, 120);
    assert!(hidden.dormant && none.is_none());
    let (woken, d) = tick_entry(hidden, true, 130);
    assert_eq!(d, Some(0));
    assert!(!woken.dormant);
    assert_eq!(after_tick(entry, AnimationSchedule::Never), None);
    assert_eq!(after_tick(entry, AnimationSchedule::At(7)).unwrap().deadline, AnimationSchedule::At(7));
}
