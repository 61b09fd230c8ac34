use rsetup::catalog::ExecutionPolicy;
use rsetup::control::{
    check_policy_offered, admit_confirmed_change, dry_run_text, fan_curve_dry_run_steps, admit_hardware_change, led_trigger_dry_run_steps,
    admit_led_trigger, require_live_root, overlay_dry_run_steps, ready_event, rgb_dry_run_steps, route,
    admit_source_change, source_plan_output, thermal_dry_run_steps, admit_thermal_change, with_policy_warning,
    ApplyRoute, History,
};
use rsetup::hardware::{HardwareError, OverlayChange};
use rsetup::helper_request::RgbLedConfig;
use rsetup::source_files::SourceFileChange;
use rsetup::source_plan::SourceError;

#[test]
fn changes_need_confirmation_then_a_plan_then_run_where_the_policy_says() {
    assert_eq!(
        admit_hardware_change(false, "token", ExecutionPolicy::Live, Some(0)),
        Err(HardwareError::ConfirmationRequired)
    );
    assert_eq!(
        admit_hardware_change(true, "  \t", ExecutionPolicy::Live, Some(0)),
        Err(HardwareError::PlanRequired)
    );
    assert_eq!(
        admit_hardware_change(true, "token", ExecutionPolicy::DryRun, Some(1000)),
        Ok(ApplyRoute::DryRun)
    );
    assert_eq!(
        admit_hardware_change(true, "token", ExecutionPolicy::Live, Some(1000)),
        Ok(ApplyRoute::Privileged)
    );
    assert_eq!(
        admit_hardware_change(true, "token", ExecutionPolicy::Live, None),
        Ok(ApplyRoute::Privileged)
    );
    assert_eq!(
        admit_hardware_change(true, "token", ExecutionPolicy::Live, Some(0)),
        Ok(ApplyRoute::Live)
    );
    assert_eq!(
        admit_source_change(false, "token", ExecutionPolicy::DryRun, None),
        Err(SourceError::ConfirmationRequired)
    );
    assert_eq!(
        admit_source_change(true, "", ExecutionPolicy::DryRun, None),
        Err(SourceError::PlanRequired)
    );
    assert_eq!(
        admit_confirmed_change(true, ExecutionPolicy::Live, Some(0)),
        Ok(ApplyRoute::Live)
    );
    assert_eq!(route(ExecutionPolicy::DryRun, Some(0)), ApplyRoute::DryRun);
}

#[test]
fn thermal_changes_wait_for_the_fan_curve_to_be_disabled() {
    assert_eq!(
        admit_thermal_change(false, true, ExecutionPolicy::Live, Some(0)),
        Err(HardwareError::ConfirmationRequired)
    );
    assert_eq!(
        admit_thermal_change(true, true, ExecutionPolicy::Live, Some(0)),
        Err(HardwareError::Conflict(
            "disable the active fan curve before changing the thermal governor".into()
        ))
    );
    assert_eq!(
        admit_thermal_change(true, false, ExecutionPolicy::Live, Some(0)),
        Ok(ApplyRoute::Live)
    );
}

#[test]
fn restores_need_root_and_live_execution() {
    assert_eq!(require_live_root(ExecutionPolicy::Live, Some(0)), Ok(()));
    assert_eq!(
        require_live_root(ExecutionPolicy::DryRun, Some(0)),
        Err(HardwareError::RootRequired)
    );
    assert_eq!(
        require_live_root(ExecutionPolicy::Live, Some(1000)),
        Err(HardwareError::RootRequired)
    );
}

#[test]
fn led_triggers_must_be_offered_by_a_known_led() {
    let leds = vec![(
        "status".to_owned(),
        vec!["none".to_owned(), "heartbeat".to_owned()],
    )];
    assert_eq!(
        admit_led_trigger(true, &leds, "status", "heartbeat", ExecutionPolicy::DryRun, None),
        Ok(ApplyRoute::DryRun)
    );
    assert_eq!(
        admit_led_trigger(true, &leds, "power", "heartbeat", ExecutionPolicy::DryRun, None),
        Err(HardwareError::InvalidInput("unknown LED power".into()))
    );
    assert_eq!(
        admit_led_trigger(true, &leds, "status", "disk", ExecutionPolicy::DryRun, None),
        Err(HardwareError::InvalidInput("trigger disk is not available for status".into()))
    );
    assert_eq!(
        admit_led_trigger(false, &leds, "status", "heartbeat", ExecutionPolicy::DryRun, None),
        Err(HardwareError::ConfirmationRequired)
    );
}

#[test]
fn dry_runs_list_their_steps() {
    let changes = vec![
        OverlayChange {
            id: "uart.dtbo".into(),
            before_enabled: false,
            after_enabled: true,
        },
        OverlayChange {
            id: "spi.dtbo".into(),
            before_enabled: true,
            after_enabled: false,
        },
    ];
    let steps = overlay_dry_run_steps(&changes);
    assert_eq!(steps, vec!["uart.dtbo: enable".to_owned(), "spi.dtbo: disable".to_owned()]);
    assert_eq!(
        dry_run_text(&steps),
        "planned steps:\n- uart.dtbo: enable\n- spi.dtbo: disable"
    );
    assert_eq!(
        thermal_dry_run_steps("step_wise"),
        vec![
            "set every supported thermal zone to step_wise".to_owned(),
            "persist step_wise for boot".to_owned()
        ]
    );
    assert_eq!(
        led_trigger_dry_run_steps("status", "heartbeat"),
        vec![
            "set status trigger to heartbeat".to_owned(),
            "persist the LED trigger for boot".to_owned()
        ]
    );
    let config = RgbLedConfig {
        group_id: "rgb0".into(),
        mode: "solid".into(),
        red: 255,
        green: 10,
        blue: 0,
        brightness: 80,
        cycle_ms: 5000,
    };
    assert_eq!(
        rgb_dry_run_steps(&config),
        vec![
            "set rgb0 to solid mode".to_owned(),
            "use color #ff0a00, 80% brightness, 5000ms cycle".to_owned(),
            "persist the RGB LED pattern for boot".to_owned()
        ]
    );
    assert_eq!(
        fan_curve_dry_run_steps(true, "thermal_zone0", "cooling_device0", 2),
        vec![
            "set thermal_zone0 to the user_space governor".to_owned(),
            "control cooling_device0 with 2 curve points".to_owned(),
            "persist the curve and start its fail-safe control service".to_owned()
        ]
    );
    assert_eq!(fan_curve_dry_run_steps(false, "z", "d", 0).len(), 2);
}

#[test]
fn mirror_plans_print_old_and_new_lines_in_pairs() {
    assert_eq!(
        source_plan_output(&Vec::new()),
        "No managed APT source entry would change."
    );
    let changes = vec![SourceFileChange {
        path: "/etc/apt/sources.list".into(),
        replacements: 2,
        before: vec!["deb http://a x".into(), "deb http://b y".into()],
        after: vec!["deb http://m x".into(), "deb http://m y".into()],
    }];
    assert_eq!(
        source_plan_output(&changes),
        "/etc/apt/sources.list (2 replacement(s))\n- deb http://a x\n+ deb http://m x\n- deb http://b y\n+ deb http://m y"
    );
}

#[test]
fn dry_run_warning_is_added_once() {
    assert_eq!(
        with_policy_warning(vec!["w".into()], ExecutionPolicy::DryRun),
        vec!["w".to_owned(), "dry_run".to_owned()]
    );
    assert_eq!(
        with_policy_warning(vec!["dry_run".into()], ExecutionPolicy::DryRun),
        vec!["dry_run".to_owned()]
    );
    assert!(with_policy_warning(Vec::new(), ExecutionPolicy::Live).is_empty());
    assert_eq!(ready_event(true, ExecutionPolicy::DryRun).0, "Demo control plane ready");
    assert_eq!(
        ready_event(false, ExecutionPolicy::Live).1,
        "Live execution is enabled for the fixed action catalog."
    );
}

#[test]
fn history_keeps_the_newest_entries() {
    let mut history = History::new(3);
    for run in 1..=5 {
        history.record(run);
    }
    assert_eq!(history.len(), 3);
    assert_eq!(*history.newest(0), 5);
    assert_eq!(*history.newest(2), 3);
}

fn demo_facts() -> rsetup::catalog::HostFacts {
    rsetup::catalog::HostFacts {
        commands: vec![],
        packages: vec![],
        units: vec![],
        enabled_units: vec![],
        active_units: vec![],
        masked_units: vec![],
    }
}

#[test]
fn dry_run_never_executes_live_command() {
    let step = rsetup::catalog::plan_execution(
        true,
        &demo_facts(),
        ExecutionPolicy::DryRun,
        None,
        "system.reboot",
        true,
    )
    .expect("dry run should succeed");
    assert!(matches!(step, rsetup::catalog::ExecutionStep::DryRun { .. }));
    let mut runs = History::new(40);
    runs.record(step);
    assert_eq!(runs.len(), 1);
}

#[test]
fn source_action_requires_guided_input() {
    let result = rsetup::catalog::plan_execution(
        true,
        &demo_facts(),
        ExecutionPolicy::DryRun,
        None,
        "system.change-sources",
        true,
    );
    assert!(matches!(result, Err(rsetup::actions::ActionError::InputRequired(_))));
}

#[test]
fn source_apply_is_a_plan_in_dry_run_mode() {
    let manager = rsetup::source_plan::SourceManager::new(true);
    let plan = manager.plan("ustc").unwrap();
    assert_eq!(
        admit_source_change(true, &plan.plan_token, ExecutionPolicy::DryRun, None),
        Ok(ApplyRoute::DryRun)
    );
    assert!(rsetup::source_plan::verify_plan_token(&plan, &plan.plan_token).is_ok());
    assert!(!plan.changes.is_empty());
    assert!(source_plan_output(&plan.changes).contains("replacement(s)"));
}

#[test]
fn source_apply_requires_explicit_confirmation() {
    let manager = rsetup::source_plan::SourceManager::new(true);
    let plan = manager.plan("cqu").unwrap();
    assert_eq!(
        admit_source_change(false, &plan.plan_token, ExecutionPolicy::DryRun, None),
        Err(SourceError::ConfirmationRequired)
    );
}

#[test]
fn source_apply_rejects_missing_or_stale_plan() {
    let manager = rsetup::source_plan::SourceManager::new(true);
    assert_eq!(
        admit_source_change(true, "", ExecutionPolicy::DryRun, None),
        Err(SourceError::PlanRequired)
    );
    assert_eq!(
        admit_source_change(true, "plan-v1-stale", ExecutionPolicy::DryRun, None),
        Ok(ApplyRoute::DryRun)
    );
    let plan = manager.plan("cqu").unwrap();
    assert_eq!(
        rsetup::source_plan::verify_plan_token(&plan, "plan-v1-stale"),
        Err(SourceError::StalePlan)
    );
}

#[test]
fn dry_run_thermal_policies_must_be_offered() {
    let offered = vec!["step_wise".to_owned(), "power_allocator".to_owned()];
    assert_eq!(check_policy_offered("step_wise", &offered), Ok(()));
    assert_eq!(
        check_policy_offered("bang_bang", &offered),
        Err(HardwareError::InvalidInput("policy bang_bang is not available".into()))
    );
}
