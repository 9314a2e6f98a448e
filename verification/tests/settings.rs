use nte_dps_core::settings::{ui_config_save_plan, UiConfigSavePlan, UI_CONFIG_SAVE_DELAY_MILLIS};

#[test]
fn ui_config_save_plan_debounces_first_dirty_state() {
    let now = 10_000u64;
    match ui_config_save_plan(false, None, now) {
        UiConfigSavePlan::SetPending { save_at } => {
            assert!(save_at > now + 300);
            assert_eq!(save_at, now + UI_CONFIG_SAVE_DELAY_MILLIS);
        }
        _ => panic!("expected set-pending schedule"),
    }
}

#[test]
fn ui_config_save_plan_retries_when_unmodified_pending_expires() {
    let now = 10_000u64;
    let future = now + 500;
    let pending = Some((true, future));
    match ui_config_save_plan(false, pending, now) {
        UiConfigSavePlan::KeepPending { save_at } => assert_eq!(save_at, future),
        _ => panic!("expected keep-pending state"),
    }
    let expired = now + 1000;
    match ui_config_save_plan(false, pending, expired) {
        UiConfigSavePlan::Save => {}
        _ => panic!("expected save attempt"),
    }
}

#[test]
fn ui_config_save_plan_restarts_on_a_new_change_and_stops_when_saved() {
    assert_eq!(ui_config_save_plan(true, Some((true, 5)), 10), UiConfigSavePlan::NoChange);
    assert_eq!(
        ui_config_save_plan(false, Some((false, 5)), 10),
        UiConfigSavePlan::SetPending { save_at: 360 }
    );
    assert_eq!(ui_config_save_plan(false, Some((true, 10)), 10), UiConfigSavePlan::Save);
}
