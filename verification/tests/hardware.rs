use rsetup::base64::encode_base64;
use rsetup::hardware::{
    validate_overlay_id, validate_policy, valid_video_id, verify_overlay_plan, HardwareError,
    HardwareManager,
};

#[test]
fn demo_overlay_plan_is_exact_and_rejects_stale_token() {
    let manager = HardwareManager::new(true);
    let selected = vec!["rk3588-can1-m0.dtbo".to_owned()];
    let plan = manager.plan_overlays(&selected).unwrap();
    assert!(plan.reboot_required);
    assert!(verify_overlay_plan(&plan, "stale").is_err());
    assert!(verify_overlay_plan(&plan, &plan.plan_token).is_ok());
}

#[test]
fn overlay_ids_cannot_escape_the_managed_directory() {
    assert!(validate_overlay_id("../evil.dtbo").is_err());
    assert!(validate_overlay_id("rk3588-uart.dtbo").is_ok());
}

#[test]
fn base64_encoder_handles_padding() {
    assert_eq!(encode_base64(b"f"), "Zg==");
    assert_eq!(encode_base64(b"fo"), "Zm8=");
    assert_eq!(encode_base64(b"foo"), "Zm9v");
}

#[test]
fn demo_plan_lists_every_switch_and_sorts_the_selection() {
    let manager = HardwareManager::new(true);
    let selected = vec![
        "rk3588-can1-m0.dtbo".to_owned(),
        "rk3588-uart2-m0.dtbo".to_owned(),
        "rk3588-can1-m0.dtbo".to_owned(),
    ];
    let plan = manager.plan_overlays(&selected).unwrap();
    assert_eq!(
        plan.selected_ids,
        vec!["rk3588-can1-m0.dtbo".to_string(), "rk3588-uart2-m0.dtbo".to_string()]
    );
    let switched: Vec<(&str, bool)> = plan
        .changes
        .iter()
        .map(|change| (change.id.as_str(), change.after_enabled))
        .collect();
    assert_eq!(switched, vec![("rk3588-i2c3-m0.dtbo", false), ("rk3588-can1-m0.dtbo", true)]);
    assert_eq!(
        plan.warnings,
        vec!["applies_after_reboot".to_string(), "kernel_update_reset".to_string()]
    );
    assert!(plan.plan_token.starts_with("overlay-plan-v1-"));
}

#[test]
fn selecting_the_current_overlays_changes_nothing() {
    let manager = HardwareManager::new(true);
    let selected = vec!["rk3588-uart2-m0.dtbo".to_owned(), "rk3588-i2c3-m0.dtbo".to_owned()];
    let plan = manager.plan_overlays(&selected).unwrap();
    assert!(plan.changes.is_empty());
    assert!(!plan.reboot_required);
}

#[test]
fn unknown_overlays_and_live_boards_without_overlays_are_refused() {
    let manager = HardwareManager::new(true);
    match manager.plan_overlays(&vec!["rk3588-missing.dtbo".to_owned()]) {
        Err(HardwareError::InvalidInput(m)) => assert_eq!(m, "unknown overlay rk3588-missing.dtbo"),
        other => panic!("unexpected {other:?}"),
    }
    match manager.plan_overlays(&vec!["../x.dtbo".to_owned()]) {
        Err(HardwareError::InvalidInput(m)) => assert_eq!(m, "invalid overlay id ../x.dtbo"),
        other => panic!("unexpected {other:?}"),
    }
    let live = HardwareManager::new(false);
    match live.plan_overlays(&Vec::new()) {
        Err(HardwareError::Unsupported(m)) => {
            assert_eq!(m, "No managed overlay directory was detected.")
        }
        other => panic!("unexpected {other:?}"),
    }
}

#[test]
fn names_of_policies_and_video_devices() {
    assert!(validate_policy("step_wise").is_ok());
    assert!(validate_policy("").is_err());
    assert!(validate_policy("step wise").is_err());
    assert!(valid_video_id("video0"));
    assert!(valid_video_id("video12"));
    assert!(!valid_video_id("video"));
    assert!(!valid_video_id("video1a"));
    assert_eq!(
        HardwareError::StalePlan.message(),
        "the overlay directory changed after preview; create a fresh plan"
    );
}

#[test]
fn the_demo_board_has_its_fixed_overlay_status() {
    let manager = HardwareManager::new(true);
    let status = manager.overlay_status();
    assert!(status.mutable);
    assert_eq!(status.bootloader, "u-boot");
    assert_eq!(status.directory.as_deref(), Some("/boot/dtbo"));
    let ids: Vec<&str> = status.overlays.iter().map(|o| o.id.as_str()).collect();
    assert_eq!(
        ids,
        vec![
            "rk3588-uart2-m0.dtbo",
            "rk3588-i2c3-m0.dtbo",
            "rk3588-spi0-m2-cs0-spidev.dtbo",
            "rk3588-can1-m0.dtbo",
            "rk3588-pwm12-m0.dtbo",
            "rk3588-disable-led.dtbo",
        ]
    );
    let enabled: Vec<bool> = status.overlays.iter().map(|o| o.enabled).collect();
    assert_eq!(enabled, vec![true, true, false, false, false, false]);
}
