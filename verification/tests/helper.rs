use rsetup::helper_request::{
    parse_request, HelperError, HelperRequest, RgbLedConfig, SpiFlashRequest,
};

fn args(items: &[&str]) -> Vec<String> {
    items.iter().map(|item| item.to_string()).collect()
}

#[test]
fn helper_protocol_has_no_arbitrary_command_mode() {
    assert!(parse_request(&args(&["shell", "id"])).is_err());
    assert!(parse_request(&args(&["action", "system.inspect", "--confirmed", "extra"])).is_err());
    assert_eq!(
        parse_request(&args(&["led-trigger", "status", "heartbeat", "--confirmed"])).unwrap(),
        HelperRequest::LedTrigger {
            led_id: "status".into(),
            trigger: "heartbeat".into(),
        }
    );
    assert!(parse_request(&args(&[
        "led-rgb",
        "rgb0",
        "solid",
        "255",
        "0",
        "0",
        "101",
        "5000",
        "--confirmed",
        "extra",
    ]))
    .is_err());
    assert_eq!(
        parse_request(&args(&["action", "system.inspect", "--confirmed"])).unwrap(),
        HelperRequest::Action("system.inspect".into())
    );
    assert_eq!(
        parse_request(&args(&[
            "overlays-apply",
            "uart.dtbo,spi.dtbo",
            "plan-token",
            "--confirmed",
        ]))
        .unwrap(),
        HelperRequest::OverlaysApply {
            selected_ids: vec!["uart.dtbo".into(), "spi.dtbo".into()],
            plan_token: "plan-token".into(),
        }
    );
    assert_eq!(
        parse_request(&args(&[
            "spi-flash-apply",
            "install",
            "mtd0",
            "rock-5b-rk3588:rockchip-rk35",
            "spi-plan-token",
            "--confirmed",
        ]))
        .unwrap(),
        HelperRequest::SpiFlashApply {
            request: SpiFlashRequest {
                operation: "install".into(),
                target_id: "mtd0".into(),
                image_id: Some("rock-5b-rk3588:rockchip-rk35".into()),
            },
            plan_token: "spi-plan-token".into(),
        }
    );
    assert!(parse_request(&args(&[
        "spi-flash-apply",
        "erase",
        "mtd0",
        "-",
        "spi-plan-token",
        "--confirmed",
        "extra",
    ]))
    .is_err());
    assert!(parse_request(&args(&["thermal-apply", "step_wise", "--confirmed", "extra"])).is_err());
    let fan_curve_json = [
        "{\"enabled\":true,\"config\":{\"zoneId\":\"thermal_zone0\",",
        "\"coolingDeviceId\":\"cooling_device0\",\"pollIntervalMs\":2000,",
        "\"hysteresisC\":2.0,\"points\":[{\"temperatureC\":40.0,\"speedPercent\":20},",
        "{\"temperatureC\":82.0,\"speedPercent\":100}]}}",
    ]
    .concat();
    let request = parse_request(&args(&[
        "fan-curve-apply",
        fan_curve_json.as_str(),
        "curve-plan-token",
        "--confirmed",
    ]))
    .unwrap();
    match request {
        HelperRequest::FanCurveApply {
            request_json,
            plan_token,
        } => {
            assert_eq!(plan_token, "curve-plan-token");
            let value: serde_json::Value = serde_json::from_str(&request_json).unwrap();
            assert_eq!(value["enabled"], serde_json::Value::Bool(true));
        }
        other => panic!("unexpected request {other:?}"),
    }
    assert!(parse_request(&args(&[
        "fan-curve-apply",
        fan_curve_json.as_str(),
        "curve-plan-token",
        "--confirmed",
        "extra",
    ]))
    .is_err());
}

#[test]
fn helper_parses_rgb_settings_and_reports_bad_numbers() {
    assert_eq!(
        parse_request(&args(&[
            "led-rgb", "rgb0", "breath", "255", "16", "0", "80", "3000", "--confirmed",
        ]))
        .unwrap(),
        HelperRequest::LedRgb(RgbLedConfig {
            group_id: "rgb0".into(),
            mode: "breath".into(),
            red: 255,
            green: 16,
            blue: 0,
            brightness: 80,
            cycle_ms: 3000,
        })
    );
    let refused = parse_request(&args(&[
        "led-rgb", "rgb0", "solid", "256", "0", "0", "100", "5000", "--confirmed",
    ]))
    .unwrap_err();
    assert_eq!(refused, HelperError::BadNumber("red channel".into()));
    assert_eq!(refused.message(), "invalid red channel");
    let refused = parse_request(&args(&[
        "led-rgb", "rgb0", "solid", "1", "2", "3", "4", "-5", "--confirmed",
    ]))
    .unwrap_err();
    assert_eq!(refused.message(), "invalid cycle");
}

#[test]
fn helper_parses_the_operations_without_arguments() {
    assert_eq!(parse_request(&args(&["thermal-restore"])).unwrap(), HelperRequest::ThermalRestore);
    assert_eq!(parse_request(&args(&["led-restore"])).unwrap(), HelperRequest::LedRestore);
    assert_eq!(
        parse_request(&args(&["thermal-apply", "step_wise", "--confirmed"])).unwrap(),
        HelperRequest::ThermalApply("step_wise".into())
    );
    assert_eq!(
        parse_request(&args(&["sources-apply", "tuna", "token", "--confirmed"])).unwrap(),
        HelperRequest::SourcesApply {
            provider_id: "tuna".into(),
            plan_token: "token".into(),
        }
    );
    assert_eq!(
        parse_request(&args(&["overlays-apply", ",a.dtbo,,", "t", "--confirmed"])).unwrap(),
        HelperRequest::OverlaysApply {
            selected_ids: vec!["a.dtbo".into()],
            plan_token: "t".into(),
        }
    );
    assert_eq!(
        parse_request(&args(&["spi-flash-apply", "erase", "mtd0", "-", "t", "--confirmed"]))
            .unwrap(),
        HelperRequest::SpiFlashApply {
            request: SpiFlashRequest {
                operation: "erase".into(),
                target_id: "mtd0".into(),
                image_id: None,
            },
            plan_token: "t".into(),
        }
    );
    let refused = parse_request(&args(&["thermal-restore", "--confirmed"])).unwrap_err();
    assert_eq!(refused, HelperError::Invalid);
    assert_eq!(
        refused.message(),
        "invalid helper request; expected a fixed native operation"
    );
    assert!(parse_request(&args(&["action", "x", "--yes"])).is_err());
}
