use rsetup::health::{mmc_health_state, nvme_health_state};
use rsetup::mmc::{
    format_manufacturer, generate_warning_flags, parse_ext_csd, parse_life_time_str,
    parse_pre_eol_info_str,
};
use rsetup::model::{HealthState, MmcHealth, NvmeSmartLog, TelemetryReadState, TelemetryStatus};
use rsetup::nvme::{check_admin_result, parse_smart_log, NvmeError};

fn ready() -> TelemetryStatus {
    TelemetryStatus {
        state: TelemetryReadState::Available,
        error: None,
    }
}

/// The composite temperature in degrees Celsius, as the tool shows it.
fn celsius(kelvin: u16) -> f32 {
    if kelvin == 0 {
        0.0
    } else {
        kelvin as f32 - 273.15
    }
}

#[test]
fn test_parse_life_time() {
    assert_eq!(parse_life_time_str("0x01 0x02"), (Some(10), Some(20)));
    assert_eq!(parse_life_time_str("0x01\n0x02"), (Some(10), Some(20)));
    assert_eq!(parse_life_time_str("1 2"), (Some(10), Some(20)));
    assert_eq!(parse_life_time_str("0x0A 0x05"), (Some(100), Some(50)));
    assert_eq!(parse_life_time_str("0x0B 0x0B"), (Some(101), Some(101)));
    assert_eq!(parse_life_time_str("0x00 0x0C"), (None, None));
    assert_eq!(parse_life_time_str("0x01 0x00"), (Some(10), None));
    assert_eq!(parse_life_time_str("0x00 0x02"), (None, Some(20)));
    assert_eq!(parse_life_time_str(""), (None, None));
    assert_eq!(parse_life_time_str("not_a_number"), (None, None));
    assert_eq!(parse_life_time_str("0x01"), (None, None));
}

#[test]
fn test_parse_pre_eol_info() {
    assert_eq!(parse_pre_eol_info_str("0x01"), 1);
    assert_eq!(parse_pre_eol_info_str("1"), 1);
    assert_eq!(parse_pre_eol_info_str("0x02"), 2);
    assert_eq!(parse_pre_eol_info_str("2"), 2);
    assert_eq!(parse_pre_eol_info_str("0x03"), 3);
    assert_eq!(parse_pre_eol_info_str("3"), 3);
    assert_eq!(parse_pre_eol_info_str("0x00"), 0);
    assert_eq!(parse_pre_eol_info_str("0x04"), 0);
    assert_eq!(parse_pre_eol_info_str(""), 0);
    assert_eq!(parse_pre_eol_info_str("foo"), 0);
}

#[test]
fn test_format_manufacturer() {
    assert_eq!(format_manufacturer("0x000015"), "Samsung (0x000015)");
    assert_eq!(format_manufacturer("0x15"), "Samsung (0x15)");
    assert_eq!(format_manufacturer("0x000090"), "SK Hynix (0x000090)");
    assert_eq!(format_manufacturer("0x000013"), "Micron (0x000013)");
    assert_eq!(format_manufacturer("0x000045"), "SanDisk (0x000045)");
    assert_eq!(format_manufacturer("0x000070"), "Kingston (0x000070)");
    assert_eq!(format_manufacturer("0x000011"), "Toshiba (0x000011)");
    assert_eq!(format_manufacturer("0x0000fe"), "Micron (0x0000fe)");
    assert_eq!(format_manufacturer("0x000099"), "0x000099");
    assert_eq!(format_manufacturer("invalid"), "invalid");
}

#[test]
fn test_generate_warning_flags() {
    assert_eq!(generate_warning_flags(1, Some(50), Some(60)), Vec::<String>::new());
    assert_eq!(
        generate_warning_flags(2, Some(50), Some(60)),
        vec!["pre_eol_warning".to_string()]
    );
    assert_eq!(
        generate_warning_flags(3, Some(50), Some(60)),
        vec!["pre_eol_urgent".to_string()]
    );
    assert_eq!(
        generate_warning_flags(1, Some(100), Some(60)),
        vec!["life_time_typ_a_exceeded".to_string()]
    );
    assert_eq!(
        generate_warning_flags(1, Some(101), Some(60)),
        vec!["life_time_typ_a_exceeded".to_string()]
    );
    assert_eq!(
        generate_warning_flags(1, Some(50), Some(100)),
        vec!["life_time_typ_b_exceeded".to_string()]
    );
    assert_eq!(
        generate_warning_flags(3, Some(100), Some(101)),
        vec![
            "pre_eol_urgent".to_string(),
            "life_time_typ_a_exceeded".to_string(),
            "life_time_typ_b_exceeded".to_string()
        ]
    );
}

#[test]
fn test_parse_ext_csd() {
    let mut buf = [0u8; 512];
    buf[192] = 8;
    buf[212..216].copy_from_slice(&122_142_720u32.to_le_bytes());
    let fw: &[u8] = b"0x01\0\0\0\0";
    buf[254..262].copy_from_slice(fw);
    buf[267] = 0x02;
    buf[268] = 0x05;
    buf[269] = 0x06;

    let ext = parse_ext_csd(&buf);
    assert_eq!(ext.rev, 8);
    assert_eq!(ext.sec_count, 122_142_720);
    assert_eq!(ext.firmware_version, [b'0', b'x', b'0', b'1', 0, 0, 0, 0]);
    assert_eq!(ext.pre_eol_info, 0x02);
    assert_eq!(ext.life_time_est_typ_a, 0x05);
    assert_eq!(ext.life_time_est_typ_b, 0x06);
}

#[test]
fn mmc_health_state_keeps_real_pre_eol_warning() {
    let h = MmcHealth {
        pre_eol_info: 2,
        life_time_est_a_percent: Some(10),
        life_time_est_b_percent: Some(10),
        warning_flags: generate_warning_flags(2, Some(10), Some(10)),
    };
    assert_eq!(mmc_health_state(&ready(), &h), HealthState::Warning);
    assert_eq!(
        mmc_health_state(
            &ready(),
            &MmcHealth {
                pre_eol_info: 3,
                ..h
            }
        ),
        HealthState::Critical
    );
}

#[test]
fn missing_data_is_not_healthy() {
    let absent = TelemetryStatus::default();
    assert_eq!(nvme_health_state(&absent, None), HealthState::Unknown);
    assert_eq!(
        mmc_health_state(&absent, &MmcHealth::default()),
        HealthState::Unknown
    );
    assert_eq!(nvme_health_state(&ready(), None), HealthState::Unknown);
    assert_eq!(
        mmc_health_state(&ready(), &MmcHealth::default()),
        HealthState::Unknown
    );
}

#[test]
fn nvme_health_state_is_table_driven_and_unknown_bits_are_critical() {
    let cases = [
        ("critical warning bit 0x01", 0x01, vec![], HealthState::Critical),
        ("critical warning unknown bit 0x80", 0x80, vec![], HealthState::Critical),
        ("known warning flag", 0, vec!["available_spare"], HealthState::Warning),
        ("unknown warning flag", 0, vec!["unknown"], HealthState::Warning),
        ("normal", 0, vec![], HealthState::Healthy),
    ];
    for (name, critical_warning, warning_flags, expected) in cases {
        let smart = NvmeSmartLog {
            critical_warning,
            warning_flags: warning_flags.into_iter().map(String::from).collect(),
            ..Default::default()
        };
        assert_eq!(nvme_health_state(&ready(), Some(&smart)), expected, "{name}");
    }
    for state in [TelemetryReadState::Unsupported, TelemetryReadState::Unavailable] {
        let smart = NvmeSmartLog {
            critical_warning: 0x80,
            warning_flags: vec!["unknown".into()],
            ..Default::default()
        };
        assert_eq!(
            nvme_health_state(&TelemetryStatus { state, error: None }, Some(&smart)),
            HealthState::Unknown,
            "{state:?} with residual data"
        );
    }
}

#[test]
fn mmc_health_state_is_table_driven_and_symmetric() {
    let cases = [
        ("all unknown", MmcHealth::default(), HealthState::Unknown),
        (
            "only A valid",
            MmcHealth { life_time_est_a_percent: Some(10), ..Default::default() },
            HealthState::Healthy,
        ),
        (
            "only B valid",
            MmcHealth { life_time_est_b_percent: Some(10), ..Default::default() },
            HealthState::Healthy,
        ),
        (
            "pre-EOL normal",
            MmcHealth { pre_eol_info: 1, ..Default::default() },
            HealthState::Healthy,
        ),
        (
            "A at limit",
            MmcHealth { life_time_est_a_percent: Some(100), ..Default::default() },
            HealthState::Warning,
        ),
        (
            "B at limit",
            MmcHealth { life_time_est_b_percent: Some(100), ..Default::default() },
            HealthState::Warning,
        ),
        (
            "A exceeded",
            MmcHealth { life_time_est_a_percent: Some(101), ..Default::default() },
            HealthState::Critical,
        ),
        (
            "B exceeded",
            MmcHealth { life_time_est_b_percent: Some(101), ..Default::default() },
            HealthState::Critical,
        ),
        (
            "unknown flag",
            MmcHealth { warning_flags: vec!["unknown".into()], ..Default::default() },
            HealthState::Warning,
        ),
        (
            "urgent flag",
            MmcHealth { warning_flags: vec!["pre_eol_urgent".into()], ..Default::default() },
            HealthState::Critical,
        ),
        (
            "A exceeded flag",
            MmcHealth {
                warning_flags: vec!["life_time_typ_a_exceeded".into()],
                ..Default::default()
            },
            HealthState::Critical,
        ),
        (
            "B exceeded flag",
            MmcHealth {
                warning_flags: vec!["life_time_typ_b_exceeded".into()],
                ..Default::default()
            },
            HealthState::Critical,
        ),
    ];
    for (name, health, expected) in cases {
        assert_eq!(mmc_health_state(&ready(), &health), expected, "{name}");
    }
    for state in [TelemetryReadState::Unsupported, TelemetryReadState::Unavailable] {
        let residual = MmcHealth {
            pre_eol_info: 3,
            life_time_est_a_percent: Some(101),
            life_time_est_b_percent: Some(101),
            warning_flags: vec!["pre_eol_urgent".into()],
        };
        assert_eq!(
            mmc_health_state(&TelemetryStatus { state, error: None }, &residual),
            HealthState::Unknown,
            "{state:?} with residual data"
        );
    }
}

#[test]
fn nvme_admin_result_requires_zero() {
    assert_eq!(check_admin_result(0, libc::EIO), Ok(()));
    assert_eq!(check_admin_result(2, libc::EACCES), Err(NvmeError::CommandStatus(2)));
    assert_eq!(check_admin_result(0x4002, 0), Err(NvmeError::CommandStatus(0x4002)));
    assert_eq!(check_admin_result(-1, libc::EIO), Err(NvmeError::IoCode(libc::EIO)));
}

#[test]
fn test_smart_log_parsing_standard() {
    let mut buf = [0u8; 512];
    buf[0] = 0b0000_0011;
    let temp_k: u16 = 310;
    buf[1..=2].copy_from_slice(&temp_k.to_le_bytes());
    buf[3] = 95;
    buf[4] = 10;
    buf[5] = 5;
    let units_read: u128 = 2000;
    buf[32..48].copy_from_slice(&units_read.to_le_bytes());
    let units_written: u128 = 5000;
    buf[48..64].copy_from_slice(&units_written.to_le_bytes());
    let host_reads: u128 = 123_456;
    buf[64..80].copy_from_slice(&host_reads.to_le_bytes());
    let host_writes: u128 = 654_321;
    buf[80..96].copy_from_slice(&host_writes.to_le_bytes());
    let power_on_hours: u128 = 1200;
    buf[128..144].copy_from_slice(&power_on_hours.to_le_bytes());
    let unsafe_shutdowns: u128 = 3;
    buf[144..160].copy_from_slice(&unsafe_shutdowns.to_le_bytes());
    let media_errors: u128 = 0;
    buf[160..176].copy_from_slice(&media_errors.to_le_bytes());
    let num_err_log_entries: u128 = 1;
    buf[176..192].copy_from_slice(&num_err_log_entries.to_le_bytes());

    let smart = parse_smart_log(&buf).expect("failed to parse smart log");

    assert_eq!(smart.critical_warning, 0b0000_0011);
    assert_eq!(
        smart.warning_flags,
        vec![
            "available_spare_below_threshold".to_string(),
            "temperature_exceeded".to_string()
        ]
    );
    assert!((celsius(smart.temperature_kelvin) - 36.85).abs() < 0.001);
    assert_eq!(smart.available_spare_percent, 95);
    assert_eq!(smart.spare_threshold_percent, 10);
    assert_eq!(smart.percentage_used, 5);
    assert_eq!(smart.data_read_bytes, 1_024_000_000);
    assert_eq!(smart.data_written_bytes, 2_560_000_000);
    assert_eq!(smart.host_read_commands, 123_456);
    assert_eq!(smart.host_write_commands, 654_321);
    assert_eq!(smart.power_on_hours, 1200);
    assert_eq!(smart.unsafe_shutdowns, 3);
    assert_eq!(smart.media_errors, 0);
    assert_eq!(smart.num_err_log_entries, 1);
}

#[test]
fn test_smart_log_warning_flags_all() {
    let mut buf = [0u8; 512];
    buf[0] = 0b0011_1111;
    let smart = parse_smart_log(&buf).expect("failed to parse smart log");
    assert_eq!(smart.warning_flags.len(), 6);
    assert_eq!(
        smart.warning_flags,
        vec![
            "available_spare_below_threshold".to_string(),
            "temperature_exceeded".to_string(),
            "reliability_degraded".to_string(),
            "read_only".to_string(),
            "volatile_memory_backup_failed".to_string(),
            "persistent_memory_read_only".to_string(),
        ]
    );
}

#[test]
fn test_smart_log_zero_temperature() {
    let mut buf = [0u8; 512];
    buf[1..=2].copy_from_slice(&0u16.to_le_bytes());
    let smart = parse_smart_log(&buf).expect("failed to parse smart log");
    assert_eq!(celsius(smart.temperature_kelvin), 0.0);
}

#[test]
fn test_smart_log_overflow_saturation() {
    let mut buf = [0u8; 512];
    let huge: u128 = u128::MAX;
    buf[32..48].copy_from_slice(&huge.to_le_bytes());
    buf[64..80].copy_from_slice(&huge.to_le_bytes());
    let smart = parse_smart_log(&buf).expect("failed to parse smart log");
    assert_eq!(smart.data_read_bytes, u64::MAX);
    assert_eq!(smart.host_read_commands, u64::MAX);
}

#[test]
fn the_storage_card_fits_its_devices_and_the_screen() {
    use_card_height();
}

fn use_card_height() {
    let height = rsetup::report::storage_card_height;
    assert_eq!(height(&vec![], 40), 3);
    assert_eq!(height(&vec![3, 2], 40), 8);
    assert_eq!(height(&vec![4, 4, 2], 20), 4);
    assert_eq!(height(&vec![4], 10), 3);
}
