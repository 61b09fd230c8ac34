use rsetup::benchmark::{classify_probe, curl_arguments, MirrorProbeStatus};
use rsetup::devices::{
    capture_arguments, capture_outcome, check_capture, check_thermal_policy, cooling_devices,
    gpio_chips, header_pin, pin_kind, policy_intersection, pwm_fan_detected, recommended_policy,
    serial_console_detected, video_availability, video_devices, CoolingDevice, VideoDevice,
};
use rsetup::fan::{
    fan_devices, percent_to_state, plan_fan_curve, recovery_policy, valid_thermal_id, validate_fan_binding,
};
use rsetup::hardware::HardwareError;

fn strings(values: &[&str]) -> Vec<String> {
    values.iter().map(|v| v.to_string()).collect()
}

#[test]
fn gpio_chips_are_sorted_and_labelled() {
    let chips = gpio_chips(&vec![
        ("gpiochip1".into(), Some("GPIO1".into()), Some("32".into())),
        ("other".into(), None, None),
        ("gpiochip0".into(), None, Some("x".into())),
    ]);
    assert_eq!(chips.len(), 2);
    assert_eq!(chips[0].id, "gpiochip0");
    assert_eq!(chips[0].label, "gpiochip0");
    assert_eq!(chips[0].lines, None);
    assert_eq!(chips[1].label, "GPIO1");
    assert_eq!(chips[1].lines, Some(32));
}

#[test]
fn header_pins_are_power_ground_or_gpio() {
    assert_eq!(pin_kind(1), "3v3");
    assert_eq!(pin_kind(4), "5v");
    assert_eq!(pin_kind(39), "ground");
    assert_eq!(pin_kind(3), "gpio");
    let power = header_pin(17, Some("gpiochip0 3".into()), Some("1".into()));
    assert_eq!(power.label, "3V3");
    assert_eq!(power.kind, "3v3");
    assert_eq!(power.chip, None);
    let located = header_pin(7, Some("gpiochip3 19".into()), Some("inactive".into()));
    assert_eq!(located.label, "PIN_7");
    assert_eq!(located.kind, "gpio");
    assert_eq!(located.chip.as_deref(), Some("gpiochip3"));
    assert_eq!(located.offset, Some(19));
    assert_eq!(located.value.as_deref(), Some("low"));
    let unmapped = header_pin(11, None, None);
    assert_eq!(unmapped.kind, "unmapped");
    assert_eq!(unmapped.label, "PIN_11");
}

#[test]
fn serial_console_is_read_from_the_command_line() {
    assert!(serial_console_detected("root=/dev/mmcblk0p2 console=ttyFIQ0,1500000n8 quiet"));
    assert!(!serial_console_detected("root=/dev/mmcblk0p2 console=tty1"));
}

#[test]
fn cameras_are_listed_and_capture_is_checked() {
    let devices = video_devices(&vec![
        ("video1".into(), Some("RKISP Main Path".into()), Some("rkisp".into())),
        ("video0".into(), None, None),
        ("media0".into(), None, None),
    ]);
    assert_eq!(devices.len(), 2);
    assert_eq!(devices[0].id, "video0");
    assert_eq!(devices[0].path, "/dev/video0");
    assert_eq!(devices[0].name, "video0");
    assert_eq!(devices[1].driver.as_deref(), Some("rkisp"));
    let (supported, capture, reason) = video_availability(2, false, true);
    assert!(supported && !capture);
    assert_eq!(reason.as_deref(), Some("Install ffmpeg to capture a webcam test frame."));
    assert!(check_capture(true, "video1", &vec![], false, None).is_ok());
    assert!(matches!(
        check_capture(true, "video7", &vec![], false, None),
        Err(HardwareError::InvalidInput(m)) if m == "unknown video device video7"
    ));
    let live: Vec<VideoDevice> = devices.clone();
    assert!(matches!(
        check_capture(false, "../x", &live, true, None),
        Err(HardwareError::InvalidInput(m)) if m == "invalid video device id"
    ));
    assert!(matches!(
        check_capture(false, "video0", &live, false, None),
        Err(HardwareError::Unsupported(m)) if m == "video capture is unavailable"
    ));
    assert!(check_capture(false, "video0", &live, true, None).is_ok());
    let args = capture_arguments("video0");
    assert_eq!(args[0], "--signal=KILL");
    assert!(args.contains(&"/dev/video0".to_string()));
    assert_eq!(capture_outcome(true, b"", b"abc").unwrap(), "YWJj");
    assert!(matches!(
        capture_outcome(false, b" device busy \n", b""),
        Err(HardwareError::Io(m)) if m == "camera capture failed: device busy"
    ));
    assert!(capture_outcome(true, b"", b"").is_err());
}

#[test]
fn thermal_policies_are_intersected_and_recommended() {
    let zones = vec![
        strings(&["step_wise", "power_allocator", "bang_bang"]),
        vec![],
        strings(&["power_allocator", "step_wise"]),
    ];
    let common = policy_intersection(&zones);
    assert_eq!(common, strings(&["power_allocator", "step_wise"]));
    assert!(policy_intersection(&vec![vec![]]).is_empty());
    assert_eq!(recommended_policy(true, &common).as_deref(), Some("step_wise"));
    assert_eq!(recommended_policy(false, &common).as_deref(), Some("power_allocator"));
    assert_eq!(recommended_policy(false, &strings(&["fair_share"])).as_deref(), Some("fair_share"));
    let fans = cooling_devices(&vec![
        ("cooling_device1".into(), Some("thermal-cpufreq-0".into()), Some("0".into()), Some("3".into())),
        ("cooling_device0".into(), Some("PWM_Fan".into()), Some("2".into()), Some("4".into())),
        ("thermal_zone0".into(), None, None, None),
    ]);
    assert_eq!(fans.len(), 2);
    assert_eq!(fans[0].id, "cooling_device0");
    assert!(pwm_fan_detected(&fans));
    assert!(!pwm_fan_detected(&vec![CoolingDevice {
        id: "cooling_device1".into(),
        kind: "cpufreq".into(),
        current_state: None,
        max_state: None,
    }]));
    assert!(check_thermal_policy("step_wise", true, None, &common, true).is_ok());
    assert!(matches!(
        check_thermal_policy("power_allocator", true, None, &common, true),
        Err(HardwareError::Conflict(_))
    ));
    assert!(matches!(
        check_thermal_policy("bang_bang", true, None, &common, false),
        Err(HardwareError::InvalidInput(m)) if m == "policy bang_bang is not available on every thermal zone"
    ));
    assert!(matches!(
        check_thermal_policy("bad policy", true, None, &common, false),
        Err(HardwareError::InvalidInput(m)) if m == "invalid thermal policy"
    ));
}

#[test]
fn fan_curves_round_up_to_a_cooling_state() {
    assert_eq!(percent_to_state(0, 4), 0);
    assert_eq!(percent_to_state(20, 4), 1);
    assert_eq!(percent_to_state(75, 4), 3);
    assert_eq!(percent_to_state(100, 4), 4);
    assert!(valid_thermal_id("thermal_zone12", "thermal_zone"));
    assert!(!valid_thermal_id("thermal_zone", "thermal_zone"));
    assert!(!valid_thermal_id("thermal_zone1a", "thermal_zone"));
    let fans = fan_devices(&vec![
        ("cooling_device1".into(), Some("pwm-fan".into()), None, Some("0".into())),
        ("cooling_device0".into(), Some("pwm-fan".into()), Some("1".into()), Some("4".into())),
        ("cooling_device2".into(), Some("cpufreq".into()), None, Some("4".into())),
    ]);
    assert_eq!(fans.len(), 1);
    assert_eq!(fans[0].id, "cooling_device0");
    assert_eq!(fans[0].max_state, 4);
    assert_eq!(fans[0].current_state, Some(1));
}

#[test]
fn fan_bindings_must_be_exclusive_and_readable_for_the_curve() {
    let zones = vec![
        ("thermal_zone0".to_string(), Some(strings(&["cooling_device0"]))),
        ("thermal_zone1".to_string(), Some(strings(&["cooling_device1"]))),
    ];
    assert!(validate_fan_binding(&zones, "thermal_zone0", "cooling_device0").is_ok());
    assert!(matches!(
        validate_fan_binding(&zones, "thermal_zone9", "cooling_device0"),
        Err(HardwareError::Unsupported(_))
    ));
    assert!(matches!(
        validate_fan_binding(&zones, "thermal_zone1", "cooling_device0"),
        Err(HardwareError::Conflict(_))
    ));
    let shared = vec![
        ("thermal_zone0".to_string(), Some(strings(&["cooling_device0"]))),
        ("thermal_zone1".to_string(), Some(strings(&["cooling_device0", "cooling_device1"]))),
    ];
    assert!(matches!(
        validate_fan_binding(&shared, "thermal_zone0", "cooling_device0"),
        Err(HardwareError::Conflict(m)) if m == "The selected fan is also managed by another thermal zone."
    ));
    let unreadable = vec![
        ("thermal_zone0".to_string(), Some(strings(&["cooling_device0"]))),
        ("thermal_zone1".to_string(), None),
    ];
    assert!(matches!(
        validate_fan_binding(&unreadable, "thermal_zone0", "cooling_device0"),
        Err(HardwareError::Conflict(m)) if m == "Unable to verify thermal cooling-device bindings."
    ));
    assert_eq!(recovery_policy("user_space", "user_space step_wise").unwrap(), "step_wise");
    assert_eq!(recovery_policy("fair_share", "step_wise fair_share").unwrap(), "fair_share");
    assert!(recovery_policy("user_space", "user_space").is_err());
}

#[test]
fn mirror_probes_are_classified() {
    let args = curl_arguments("https://deb.debian.org/debian/dists/bookworm/InRelease");
    assert_eq!(args[0], "--disable");
    assert!(args.windows(2).any(|pair| pair == ["--max-time", "6"]));
    assert!(args.windows(2).any(|pair| pair == ["--proto", "=https"]));
    assert!(!args.contains(&"--location".to_string()));
    let signed = b"-----BEGIN PGP SIGNED MESSAGE-----\nHash: SHA512\n";
    let ok = classify_probe(None, signed, true, true, true, Some(0), b"206 0.1 1024", true);
    assert_eq!(ok, (MirrorProbeStatus::Succeeded, Some(206), signed.len()));
    let unsigned = classify_probe(None, b"hello", true, true, true, Some(0), b"200 0.1 1024", true);
    assert_eq!(unsigned.0, MirrorProbeStatus::InvalidIndex);
    let moved = classify_probe(None, b"", true, true, true, Some(0), b"302 0.1 1024", true);
    assert_eq!(moved.0, MirrorProbeStatus::HttpError);
    let timeout = classify_probe(None, b"", true, true, false, Some(28), b"000 0 0", true);
    assert_eq!(timeout, (MirrorProbeStatus::Timeout, None, 0));
    let missing = classify_probe(Some(true), b"", false, false, false, None, b"", false);
    assert_eq!(missing.0, MirrorProbeStatus::CurlMissing);
    let big = vec![b'x'; 524289];
    assert_eq!(
        classify_probe(None, &big, true, true, true, Some(0), b"200", true),
        (MirrorProbeStatus::SampleTooLarge, None, 524288)
    );
}

fn fan_state(mutable: bool) -> rsetup::fan::FanCurveState {
    rsetup::fan::FanCurveState {
        supported: true,
        mutable,
        active: true,
        unavailable_reason: None,
        zones: vec![
            rsetup::fan::FanZone {
                id: "thermal_zone0".into(),
                policy: Some("step_wise".into()),
                supports_user_space: true,
                cooling_device_ids: Some(vec!["cooling_device0".into()]),
            },
            rsetup::fan::FanZone {
                id: "thermal_zone1".into(),
                policy: Some("user_space".into()),
                supports_user_space: true,
                cooling_device_ids: Some(vec![]),
            },
        ],
        devices: vec![rsetup::fan::FanCurveDevice {
            id: "cooling_device0".into(),
            kind: "pwm-fan".into(),
            current_state: Some(2),
            max_state: 4,
        }],
    }
}

#[test]
fn fan_curve_plans_bind_one_zone_to_one_fan() {
    let st = fan_state(true);
    let plan = plan_fan_curve(&st, true, true, true, Ok(()), "thermal_zone0", "cooling_device0", false, Ok(None))
        .unwrap();
    assert_eq!(plan.zone, Some(0));
    assert_eq!(plan.device, Some(0));
    assert_eq!(plan.previous_policy.as_deref(), Some("step_wise"));
    assert_eq!(plan.warnings.len(), 3);
    let live = plan_fan_curve(&st, false, true, true, Ok(()), "thermal_zone0", "cooling_device0", true, Ok(None))
        .unwrap();
    assert_eq!(live.previous_policy.as_deref(), Some("step_wise"));
    let resumed = plan_fan_curve(
        &st,
        false,
        true,
        true,
        Ok(()),
        "thermal_zone0",
        "cooling_device0",
        true,
        Ok(Some(("thermal_zone0".into(), "power_allocator".into()))),
    )
    .unwrap();
    assert_eq!(resumed.previous_policy.as_deref(), Some("power_allocator"));
}

#[test]
fn fan_curve_plans_refuse_in_order() {
    let st = fan_state(true);
    let err = |r: Result<rsetup::fan::FanCurveDecision, HardwareError>| match r {
        Err(e) => e,
        Ok(_) => panic!("expected a refusal"),
    };
    assert_eq!(
        err(plan_fan_curve(&st, true, true, false, Ok(()), "z", "d", true, Ok(None))),
        HardwareError::InvalidInput("an enabled fan curve requires a configuration".into())
    );
    assert_eq!(
        err(plan_fan_curve(&st, true, false, true, Ok(()), "z", "d", true, Ok(None))),
        HardwareError::InvalidInput("a disabled fan curve must not include a configuration".into())
    );
    assert_eq!(
        err(plan_fan_curve(
            &st,
            true,
            true,
            true,
            Err(HardwareError::InvalidInput("bad curve".into())),
            "thermal_zone0",
            "cooling_device0",
            true,
            Ok(None)
        )),
        HardwareError::InvalidInput("bad curve".into())
    );
    assert_eq!(
        err(plan_fan_curve(&fan_state(false), false, true, true, Ok(()), "thermal_zone0", "cooling_device0", true, Ok(None))),
        HardwareError::Unsupported("fan curve control is read-only".into())
    );
    assert_eq!(
        err(plan_fan_curve(&st, true, true, true, Ok(()), "thermal_zone9", "cooling_device0", true, Ok(None))),
        HardwareError::InvalidInput("unknown thermal zone thermal_zone9".into())
    );
    assert_eq!(
        err(plan_fan_curve(&st, true, true, true, Ok(()), "thermal_zone0", "cooling_device7", true, Ok(None))),
        HardwareError::InvalidInput("unknown pwm-fan cooling device cooling_device7".into())
    );
    assert!(matches!(
        err(plan_fan_curve(&st, true, true, true, Ok(()), "thermal_zone1", "cooling_device0", true, Ok(None))),
        HardwareError::Conflict(_)
    ));
    assert_eq!(
        err(plan_fan_curve(&st, false, true, true, Ok(()), "thermal_zone0", "cooling_device0", false, Ok(None))),
        HardwareError::Unsupported("the selected thermal zone or pwm-fan control is read-only".into())
    );
    let mut taken = fan_state(true);
    taken.zones[0].policy = Some("user_space".into());
    assert!(matches!(
        err(plan_fan_curve(&taken, false, true, true, Ok(()), "thermal_zone0", "cooling_device0", true, Ok(None))),
        HardwareError::Conflict(_)
    ));
    let mut idle = fan_state(true);
    idle.active = false;
    assert_eq!(
        err(plan_fan_curve(&idle, false, false, false, Ok(()), "", "", true, Ok(None))),
        HardwareError::Conflict("no active fan curve configuration exists".into())
    );
    let disable = plan_fan_curve(
        &st,
        false,
        false,
        false,
        Ok(()),
        "",
        "",
        true,
        Ok(Some(("thermal_zone0".into(), "step_wise".into()))),
    )
    .unwrap();
    assert_eq!(disable.zone, None);
    assert_eq!(disable.previous_policy.as_deref(), Some("step_wise"));
    assert_eq!(rsetup::fan::resolved_states(&vec![20, 40, 70, 100], 4), vec![1, 2, 3, 4]);
}
