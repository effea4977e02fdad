use retgui::layout::{AvailableSpaceKey, TextHashKey};
use retgui::options::{SettleOutcome, SettleState, MAX_SETTLE_PASSES};
use retgui::options::{DriverKind, RetGuiOptions};

#[test]
fn default_options_name_the_app_retgui() {
    assert_eq!(RetGuiOptions::default().app_name, "retgui");
    assert_eq!(RetGuiOptions::basic("Counter").app_name, "Counter");
    assert!(matches!(DriverKind::default(), DriverKind::Winit));
}

#[test]
fn text_keys_compare_by_constraints() {
    let a = TextHashKey {
        width_constraint: Some(100),
        height_constraint: None,
        available_space_width: AvailableSpaceKey::Definite(100),
        available_space_height: AvailableSpaceKey::MaxContent,
    };
    let mut b = a;
    assert_eq!(a, b);
    b.available_space_height = AvailableSpaceKey::MinContent;
    assert_ne!(a, b);
}

#[test]
fn two_idle_passes_settle_and_busy_passes_run_out() {
    let mut st = SettleState::new();
    assert_eq!(st.after_pass(3, 0), SettleOutcome::Again);
    assert_eq!(st.after_pass(0, 0), SettleOutcome::Again);
    assert_eq!(st.after_pass(0, 1), SettleOutcome::Again);
    assert_eq!(st.after_pass(0, 0), SettleOutcome::Again);
    assert_eq!(st.after_pass(0, 0), SettleOutcome::Settled);
    let mut busy = SettleState::new();
    for _ in 0..MAX_SETTLE_PASSES - 1 {
        assert_eq!(busy.after_pass(1, 0), SettleOutcome::Again);
    }
    assert_eq!(busy.after_pass(1, 0), SettleOutcome::Unsettled);
}
