use rsetup::pinout::{
    match_profile, normalize, parse_selector, profile_by_id, resolve_function_evidence,
    FunctionEvidence, PinoutConnector, PinoutPin, PinoutProfile,
};
use rsetup::model::{AlertLevel, StorageMetric};
use rsetup::probe::{
    cpu_count, detect_soc_vendor, live_alerts, memory_bytes, network_interface, nul_separated,
    operating_system, parse_df, soc_name, stable_device_id,
};

fn evidence(id: &str) -> FunctionEvidence {
    FunctionEvidence {
        id: id.into(),
        text: id.into(),
        exclusive: vec![],
    }
}

fn gpio_pin(number: u8, name: &str, functions: &[&str]) -> PinoutPin {
    PinoutPin {
        number,
        name: name.into(),
        default_function: name.into(),
        kind: "GPIO".into(),
        gpio: Some(name.into()),
        voltage: None,
        functions: functions.iter().map(|f| f.to_string()).collect(),
        description: None,
    }
}

fn profile(id: &str, patterns: &[&str]) -> PinoutProfile {
    PinoutProfile {
        id: id.into(),
        name: id.into(),
        description: None,
        layout: "2x20".into(),
        patterns: patterns.iter().map(|p| p.to_string()).collect(),
        connectors: vec![PinoutConnector {
            id: "header".into(),
            name: "40-pin header".into(),
            pins: vec![gpio_pin(3, "GPIO4_B3", &["I2C7_SDA_M2"])],
        }],
    }
}

#[test]
fn runtime_selector_skips_driver_owner_and_uses_the_mux_group() {
    let selector = parse_selector(
        "pin 119 (gpio3-23): fea90000.i2c (GPIO UNCLAIMED) function i2c3 group i2c3m1-xfer",
    )
    .unwrap();
    assert_eq!(selector.family, "I2C");
    assert_eq!(selector.controller, "3");
    assert_eq!(selector.mode.as_deref(), Some("1"));
}

#[test]
fn detects_vendor_after_board_compatible() {
    let compatibles = vec!["radxa,rock-5b".into(), "rockchip,rk3588".into()];
    assert_eq!(detect_soc_vendor(&compatibles, "rock-5b"), Some("Rockchip"));
}

#[test]
fn detects_common_vendor_from_soc_fallback() {
    assert_eq!(detect_soc_vendor(&vec![], "sun50i-h616"), Some("Allwinner"));
    assert_eq!(detect_soc_vendor(&vec![], "qcs8550"), Some("Qualcomm"));
}

#[test]
fn unknown_soc_has_no_vendor() {
    assert_eq!(detect_soc_vendor(&vec!["acme,board".into()], "acme9000"), None);
}

#[test]
fn soc_name_takes_the_part_after_the_comma() {
    let compatibles = vec!["radxa-board".into(), "rockchip,rk3588".into()];
    assert_eq!(soc_name(&compatibles), "rk3588");
    assert_eq!(soc_name(&vec![]), "unknown-soc");
}

#[test]
fn selector_reads_twi_as_i2c_and_high_speed_uart() {
    let twi = parse_selector("twi2").unwrap();
    assert_eq!(twi.family, "I2C");
    assert_eq!(twi.controller, "2");
    assert_eq!(twi.mode, None);
    let hs = parse_selector("function HS-UART18").unwrap();
    assert_eq!(hs.family, "UART");
    assert_eq!(hs.controller, "18");
    assert!(hs.high_speed_uart);
    assert!(parse_selector("gpio only").is_none());
}

#[test]
fn normalize_keeps_only_lower_case_letters_and_digits() {
    assert_eq!(normalize("Radxa ROCK 5B"), "radxarock5b");
    assert_eq!(normalize("radxa,rock-5b"), "radxarock5b");
    assert_eq!(normalize("--"), "");
}

#[test]
fn board_matching_picks_the_longest_matching_pattern() {
    let profiles = vec![
        profile("rock5", &["radxa,rock-5"]),
        profile("rock5b", &["radxa,rock-5b", "ROCK 5B"]),
    ];
    let found = match_profile(&profiles, &vec!["Radxa ROCK 5B".into(), "radxa,rock-5b".into()]);
    assert_eq!(found.unwrap().id, "rock5b");
    assert!(match_profile(&profiles, &vec!["qcom,sc8280xp".into()]).is_none());
    assert!(match_profile(&profiles, &vec![]).is_none());
    assert_eq!(profile_by_id(&profiles, "rock5").unwrap().id, "rock5");
    assert!(profile_by_id(&profiles, "arduino").is_none());
}

#[test]
fn evidence_in_the_right_mux_mode_names_the_function() {
    let pin = gpio_pin(8, "GPIO0_B5", &["UART2_TX_M0", "I2C1_SCL_M0"]);
    let other = gpio_pin(36, "GPIO3_A0", &["UART2_TX_M2"]);
    let active = vec![evidence("pin 13: function uart2m0 group uart2m0-xfer")];
    assert_eq!(
        resolve_function_evidence(&pin, &active).name.as_deref(),
        Some("UART2_TX_M0")
    );
    assert_eq!(resolve_function_evidence(&other, &active).name, None);
}

#[test]
fn two_active_muxes_on_one_pin_are_a_conflict() {
    let pin = gpio_pin(8, "GPIO0_B5", &["UART2_TX_M0", "I2C1_SCL_M0"]);
    let active = vec![evidence("rk3588-uart2-m0.dtbo"), evidence("rk3588-i2c1-m0.dtbo")];
    let resolved = resolve_function_evidence(&pin, &active);
    assert_eq!(resolved.kind, "conflict");
    assert_eq!(resolved.name, None);
}

#[test]
fn declared_pads_limit_what_an_overlay_claims() {
    let rx = gpio_pin(11, "GPIO3_C0", &["UART7_RX_M1"]);
    let cts = gpio_pin(7, "GPIO3_C3", &["UART7_CTSN_M1"]);
    let mut uart = evidence("rk3588-uart7-m1.dtbo");
    uart.exclusive = vec!["GPIO3_C1".into(), "GPIO3_C0".into()];
    assert_eq!(
        resolve_function_evidence(&rx, &vec![uart.clone()]).name.as_deref(),
        Some("UART7_RX_M1")
    );
    assert_eq!(resolve_function_evidence(&cts, &vec![uart.clone()]).name, None);
    uart.exclusive.push("GPIO3_C3".into());
    assert_eq!(
        resolve_function_evidence(&cts, &vec![uart]).name.as_deref(),
        Some("UART7_CTSN_M1")
    );
}

#[test]
fn device_id_uses_the_machine_id_else_host_and_product() {
    assert_eq!(
        stable_device_id("rock", "ROCK 5B", "0123-4567-89ab-cdef-0011"),
        "0123456789abcdef"
    );
    assert_eq!(stable_device_id("rock", "ROCK 5B", ""), "rockROCK5B");
}

#[test]
fn df_output_becomes_storage_metrics() {
    let output = "Filesystem 1024-blocks Used Available Capacity Mounted on\n\
/dev/mmcblk0p2 1000 900 100 90% /\n\
/dev/nvme0n1p1 2048 1024 1024 50% /boot\n\
short line\n";
    let metrics = parse_df(output);
    assert_eq!(metrics.len(), 2);
    assert_eq!(metrics[0].name, "mmcblk0p2");
    assert_eq!(metrics[0].mount_point, "/");
    assert_eq!(metrics[0].used_bytes, 900 * 1024);
    assert_eq!(metrics[0].total_bytes, 1000 * 1024);
    assert!(metrics[0].removable);
    assert_eq!(metrics[1].name, "nvme0n1p1");
    assert!(!metrics[1].removable);
    assert!(parse_df("").is_empty());
}

#[test]
fn meminfo_gives_total_and_used_bytes() {
    let meminfo = "MemTotal:        8000 kB\nMemFree:    100 kB\nMemAvailable:    3000 kB\n";
    assert_eq!(memory_bytes(meminfo), (8000 * 1024, 5000 * 1024));
    assert_eq!(memory_bytes("MemAvailable: 10 kB\n"), (0, 0));
}

#[test]
fn os_release_pretty_name_or_linux() {
    assert_eq!(
        operating_system("NAME=Debian\nPRETTY_NAME=\"Debian GNU/Linux 12\"\n"),
        "Debian GNU/Linux 12"
    );
    assert_eq!(operating_system("NAME=Debian\n"), "Linux");
}

#[test]
fn cpu_count_counts_processor_lines_and_is_at_least_one() {
    let cpuinfo = "processor\t: 0\nmodel\t: x\nprocessor\t: 1\n";
    assert_eq!(cpu_count(Some(cpuinfo)), 2);
    assert_eq!(cpu_count(Some("")), 1);
    assert_eq!(cpu_count(None), 1);
}

#[test]
fn alerts_for_heat_and_full_storage() {
    let full = StorageMetric {
        name: "mmcblk0p2".into(),
        mount_point: "/".into(),
        used_bytes: 95,
        total_bytes: 100,
        removable: true,
    };
    let alerts = live_alerts(true, &vec![full.clone()]);
    assert_eq!(alerts.len(), 2);
    assert_eq!(alerts[0].id, "thermal-high");
    assert_eq!(alerts[0].level, AlertLevel::Critical);
    assert_eq!(alerts[1].id, "storage-high");
    assert_eq!(alerts[1].level, AlertLevel::Warning);
    let mut roomy = full;
    roomy.used_bytes = 89;
    assert!(live_alerts(false, &vec![roomy]).is_empty());
}

#[test]
fn device_tree_properties_split_at_nul() {
    let parts = nul_separated(b"radxa,rock-5b\0rockchip,rk3588\0");
    assert_eq!(parts, vec!["radxa,rock-5b".to_string(), "rockchip,rk3588".to_string()]);
    assert!(nul_separated(b"").is_empty());
}

#[test]
fn loopback_is_not_a_network_interface() {
    assert!(network_interface("lo", None, None, None, None).is_none());
    let wlan = network_interface(
        "wlan0",
        Some("up".into()),
        Some("12".into()),
        Some("x".into()),
        Some("wlan0 UP 192.168.1.5/24".into()),
    )
    .unwrap();
    assert_eq!(wlan.kind, "wireless");
    assert_eq!(wlan.state, "up");
    assert_eq!(wlan.address.as_deref(), Some("192.168.1.5"));
    assert_eq!(wlan.received_bytes, 12);
    assert_eq!(wlan.transmitted_bytes, 0);
    let eth = network_interface("end0", None, None, None, None).unwrap();
    assert_eq!(eth.kind, "ethernet");
    assert_eq!(eth.state, "unknown");
    assert_eq!(eth.address, None);
}

#[test]
fn demo_board_data_is_fixed() {
    let identity = rsetup::probe::demo_identity();
    assert_eq!(identity.hostname, "lab-rock-5b");
    assert_eq!(identity.kernel, "6.1.115-rk3588");
    let interfaces = rsetup::probe::demo_interfaces();
    assert_eq!(interfaces[0].address.as_deref(), Some("192.168.88.42"));
    assert_eq!(interfaces[1].state, "standby");
    let services = rsetup::probe::demo_services();
    assert_eq!(services[2].detail, "Installed · stopped");
    let capabilities = rsetup::probe::demo_capabilities();
    let ids: Vec<&str> = capabilities.iter().map(|c| c.id.as_str()).collect();
    assert_eq!(ids, vec!["device-tree", "gpio", "video", "thermal", "led", "spi-flash"]);
    assert_eq!(capabilities[3].detail, "3 zones · step_wise");
    let alerts = rsetup::probe::demo_alerts();
    assert_eq!(alerts[0].title, "Synthetic telemetry");
}

#[test]
fn live_capabilities_and_alerts_have_their_texts() {
    let capabilities = rsetup::probe::live_capabilities(true, false, true, false, true, false);
    assert_eq!(capabilities[0].label, "Device-tree overlays");
    assert_eq!(capabilities[0].detail, "Overlay storage detected");
    assert_eq!(capabilities[1].detail, "Not detected on this device");
    assert_eq!(capabilities[5].label, "SPI boot flash");
    let full = StorageMetric {
        name: "sda1".into(),
        mount_point: "/data".into(),
        used_bytes: 99,
        total_bytes: 100,
        removable: false,
    };
    let alerts = live_alerts(true, &vec![full]);
    assert_eq!(alerts[0].title, "Thermal ceiling approaching");
    assert_eq!(alerts[1].detail, "One or more mounted filesystems are above 90% usage.");
}
