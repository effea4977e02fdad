use retgui::animation::AnimationSchedule;
use retgui::audio::{toggle_actions, PlayerAction, ProgressTimer, AUDIO_UI_UPDATE_INTERVAL_NANOS};
use retgui::audio::{build_audio_player, format_time};
use retgui::element_id::IdCounter;
use retgui::store::RetainedElements;
use rustc_hash::FxHashMap;

#[test]
fn short_times_show_minutes_and_seconds() {
    assert_eq!(format_time(0, 0), "00:00/00:00");
    assert_eq!(format_time(65, 3599), "01:05/59:59");
}

#[test]
fn long_totals_show_hours() {
    assert_eq!(format_time(3661, 7322), "01:01:01/02:02:02");
    assert_eq!(format_time(5, 360_000), "00:00:05/100:00:00");
}

#[test]
fn elapsed_past_an_hour_wraps_into_minutes_when_total_is_short() {
    assert_eq!(format_time(3725, 10), "02:05/00:10");
}

#[test]
fn play_button_toggles_and_progress_refreshes() {
    assert_eq!(
        toggle_actions(false, true),
        vec![
            PlayerAction::LabelPause(true),
            PlayerAction::ShowPauseIcon(true),
            PlayerAction::PlaySound,
            PlayerAction::StartProgress
        ]
    );
    assert_eq!(
        toggle_actions(true, false),
        vec![PlayerAction::LabelPause(false), PlayerAction::ShowPauseIcon(false), PlayerAction::StopProgress]
    );
    let mut timer = ProgressTimer { next_ui_update: None };
    assert!(!timer.is_due(10));
    timer.start(10);
    assert!(timer.is_due(10));
    timer.after_refresh(10, false);
    assert_eq!(timer.next_ui_update, Some(10 + AUDIO_UI_UPDATE_INTERVAL_NANOS));
    assert_eq!(timer.schedule(AnimationSchedule::Never), AnimationSchedule::At(10 + AUDIO_UI_UPDATE_INTERVAL_NANOS));
    assert_eq!(timer.schedule(AnimationSchedule::NextFrame), AnimationSchedule::NextFrame);
    timer.after_refresh(20, true);
    assert_eq!(timer.next_ui_update, None);
    timer.stop();
    assert_eq!(timer.schedule(AnimationSchedule::At(3)), AnimationSchedule::At(3));
}

#[test]
fn audio_player_children_are_in_order() {
    let mut ids = IdCounter::new(0);
    let mut elements = RetainedElements::new(&mut ids);
    let mut by_id = FxHashMap::default();
    let p = build_audio_player(&mut elements, &mut by_id, &mut ids, 125);
    assert!(!p.playing);
    assert!(p.controls);
    assert_eq!(p.label, "00:00/02:05");
    assert_eq!(elements.children(p.root), vec![p.play_button, p.track, p.time_label, p.volume_icon, p.volume_track]);
    assert_eq!(elements.children(p.play_button), vec![p.play_icon]);
    assert!(elements.children(p.track).is_empty());
    assert_eq!(elements.parent(p.track).ok(), Some(p.root));
    assert_eq!(elements.parent(p.play_icon).ok(), Some(p.play_button));
    assert_eq!(elements.len(), 7);
}
