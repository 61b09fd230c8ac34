use rsetup::i18n::Locale;
use rsetup::model::{HealthState, MmcDevice, MmcHealth, MmcStatus, TelemetryReadState, TelemetryStatus};
use rsetup::report::format_mmc_status;

fn format_bytes(bytes: u64) -> String {
    const KIB: u64 = 1024;
    const MIB: u64 = 1024 * KIB;
    const GIB: u64 = 1024 * MIB;
    const TIB: u64 = 1024 * GIB;
    if bytes >= TIB {
        format!("{:.2} TiB", bytes as f64 / TIB as f64)
    } else if bytes >= GIB {
        format!("{:.2} GiB", bytes as f64 / GIB as f64)
    } else if bytes >= MIB {
        format!("{:.2} MiB", bytes as f64 / MIB as f64)
    } else if bytes >= KIB {
        format!("{:.2} KiB", bytes as f64 / KIB as f64)
    } else {
        format!("{} B", bytes)
    }
}

fn sizes(status: &MmcStatus) -> Vec<String> {
    status.devices.iter().map(|d| format_bytes(d.total_bytes)).collect()
}

fn ready() -> TelemetryStatus {
    TelemetryStatus {
        state: TelemetryReadState::Available,
        error: None,
    }
}

#[test]
fn format_mmc_status_uninitialized_en_and_zh() {
    let uninit = MmcStatus {
        initialized: false,
        devices: Vec::new(),
        message: Some("No MMC/SD devices detected in system".into()),
    };

    let formatted_zh = format_mmc_status(&uninit, Locale::ZhCn, &sizes(&uninit));
    assert!(
        formatted_zh.contains("未检测到 MMC/SD"),
        "ZH output: {formatted_zh}"
    );

    let formatted_en = format_mmc_status(&uninit, Locale::En, &sizes(&uninit));
    assert!(
        formatted_en.contains("No MMC/SD"),
        "EN output: {formatted_en}"
    );
}

#[test]
fn format_mmc_status_initialized_with_devices() {
    let emmc = MmcDevice {
        name: "mmc0:0001".into(),
        block_path: "/dev/mmcblk0".into(),
        card_type: "MMC".into(),
        model: "DG4064".into(),
        manufacturer: "0x45".into(),
        serial: "0x12345678".into(),
        firmware: "0x00".into(),
        total_bytes: 64_000_000_000,
        health: MmcHealth {
            pre_eol_info: 1,
            life_time_est_a_percent: Some(10),
            life_time_est_b_percent: None,
            warning_flags: Vec::new(),
        },
        telemetry: ready(),
        health_state: HealthState::Healthy,
    };
    let sd = MmcDevice {
        name: "mmc1:0001".into(),
        block_path: "/dev/mmcblk1".into(),
        card_type: "SD".into(),
        model: "SU08G".into(),
        manufacturer: "0x1B".into(),
        serial: "0x5A4F".into(),
        firmware: "1.0".into(),
        total_bytes: 8_000_000_000,
        health: MmcHealth {
            pre_eol_info: 1,
            life_time_est_a_percent: None,
            life_time_est_b_percent: None,
            warning_flags: Vec::new(),
        },
        telemetry: ready(),
        health_state: HealthState::Healthy,
    };
    let status = MmcStatus {
        initialized: true,
        devices: vec![emmc, sd],
        message: None,
    };

    let out_zh = format_mmc_status(&status, Locale::ZhCn, &sizes(&status));
    assert!(out_zh.contains("mmc0:0001"), "zh should contain mmc0:0001");
    assert!(
        out_zh.contains("/dev/mmcblk0"),
        "zh should contain block path"
    );
    assert!(out_zh.contains("MMC"), "zh should contain card type MMC");
    assert!(out_zh.contains("SD"), "zh should contain card type SD");
    assert!(
        out_zh.contains("10%"),
        "zh should contain life estimate 10%"
    );
    assert!(out_zh.contains("不支持"), "zh should contain N/A marker");

    let out_en = format_mmc_status(&status, Locale::En, &sizes(&status));
    assert!(out_en.contains("mmc0:0001"), "en should contain mmc0:0001");
    assert!(out_en.contains("N/A"), "en should contain N/A marker");
    assert!(
        out_en.contains("Normal"),
        "en should contain Normal pre-EOL"
    );
}

#[test]
fn mmc_report_lines_are_exact() {
    let card = MmcDevice {
        name: "mmc0:0001".into(),
        block_path: "/dev/mmcblk0".into(),
        card_type: "MMC".into(),
        model: "M".into(),
        manufacturer: "Samsung (0x15)".into(),
        serial: "S".into(),
        firmware: "F".into(),
        total_bytes: 2048,
        health: MmcHealth {
            pre_eol_info: 7,
            life_time_est_a_percent: Some(101),
            life_time_est_b_percent: None,
            warning_flags: vec!["pre_eol_urgent".into(), "life_time_typ_a_exceeded".into()],
        },
        telemetry: ready(),
        health_state: HealthState::Critical,
    };
    let status = MmcStatus {
        initialized: true,
        devices: vec![card],
        message: None,
    };
    let out = format_mmc_status(&status, Locale::En, &vec!["2.00 KiB".into()]);
    assert_eq!(
        out,
        "=== Storage Device: mmc0:0001 (/dev/mmcblk0) [MMC] ===\n  Type:             MMC\n  Model:            M\n  Manufacturer:   Samsung (0x15)\n  Serial Number:    S\n  Firmware:         F\n  Total Capacity:   2.00 KiB (2048 bytes)\n  Pre-EOL:            Unknown (7)\n  Life Time Est (A/B): 101% / N/A\n  Warning Flags:    pre_eol_urgent, life_time_typ_a_exceeded"
    );
    let empty = MmcStatus {
        initialized: true,
        devices: vec![],
        message: None,
    };
    assert_eq!(
        format_mmc_status(&empty, Locale::ZhCn, &vec![]),
        "已检测到 MMC 控制器，但未发现可用设备。"
    );
}

fn nvme_device() -> rsetup::model::NvmeDevice {
    rsetup::model::NvmeDevice {
        name: "nvme0".into(),
        path: "/dev/nvme0".into(),
        model: "Radxa NVMe SSD 256GB".into(),
        serial: "RADXA2026NVME01".into(),
        firmware: "1.0.0".into(),
        total_bytes: 256_060_514_304,
        smart: Some(rsetup::model::NvmeSmartLog {
            critical_warning: 0,
            warning_flags: Vec::new(),
            temperature_kelvin: 315,
            available_spare_percent: 100,
            spare_threshold_percent: 10,
            percentage_used: 3,
            data_read_bytes: 1024 * 1024 * 1024 * 50,
            data_written_bytes: 1024 * 1024 * 1024 * 30,
            host_read_commands: 1000,
            host_write_commands: 500,
            power_on_hours: 120,
            unsafe_shutdowns: 1,
            media_errors: 0,
            num_err_log_entries: 0,
        }),
        telemetry: ready(),
        health_state: HealthState::Healthy,
    }
}

/// The decimal figures of a controller whose composite temperature reads
/// 42.0 degrees Celsius.
fn nvme_figures(device: &rsetup::model::NvmeDevice) -> rsetup::report::NvmeFigures {
    let smart = device.smart.as_ref().unwrap();
    rsetup::report::NvmeFigures {
        size: format_bytes(device.total_bytes),
        temperature: format!("{:.1}", 42.0f32),
        data_read: format_bytes(smart.data_read_bytes),
        data_written: format_bytes(smart.data_written_bytes),
    }
}

#[test]
fn format_nvme_status_uninitialized_en_and_zh() {
    let uninit = rsetup::model::NvmeStatus {
        initialized: false,
        devices: Vec::new(),
        message: Some("No NVMe controller detected in system".into()),
    };
    let formatted_zh = rsetup::report::format_nvme_status(&uninit, Locale::ZhCn, &Vec::new());
    assert!(
        formatted_zh.contains("未检测到 NVMe 存储设备") || formatted_zh.contains("未激活"),
        "ZH output: {formatted_zh}"
    );
    let formatted_en = rsetup::report::format_nvme_status(&uninit, Locale::En, &Vec::new());
    assert!(
        formatted_en.contains("No NVMe") || formatted_en.contains("uninitialized"),
        "EN output: {formatted_en}"
    );
}

#[test]
fn format_nvme_status_initialized_with_device() {
    let device = nvme_device();
    let figures = vec![nvme_figures(&device)];
    let status = rsetup::model::NvmeStatus {
        initialized: true,
        devices: vec![device],
        message: None,
    };
    let out_zh = rsetup::report::format_nvme_status(&status, Locale::ZhCn, &figures);
    assert!(out_zh.contains("nvme0"), "zh should contain nvme0");
    assert!(out_zh.contains("Radxa NVMe SSD 256GB"), "zh should contain model");
    assert!(out_zh.contains("42"), "zh should contain temperature 42");
    assert!(out_zh.contains("RADXA2026NVME01"), "zh should contain serial");
    let out_en = rsetup::report::format_nvme_status(&status, Locale::En, &figures);
    assert!(out_en.contains("nvme0"), "en should contain nvme0");
    assert!(out_en.contains("Radxa NVMe SSD 256GB"), "en should contain model");
    assert!(out_en.contains("42"), "en should contain temperature 42");
    assert!(out_en.contains("Temperature"), "en should contain label Temperature");
}

#[test]
fn nvme_report_lines_are_exact() {
    let device = nvme_device();
    let figures = vec![nvme_figures(&device)];
    let status = rsetup::model::NvmeStatus {
        initialized: true,
        devices: vec![device],
        message: None,
    };
    let out = rsetup::report::format_nvme_status(&status, Locale::En, &figures);
    let lines: Vec<&str> = out.lines().collect();
    assert_eq!(lines[0], "=== NVMe Device: nvme0 (/dev/nvme0) ===");
    assert_eq!(lines[4], "  Total Capacity:   238.47 GiB (256060514304 bytes)");
    assert_eq!(lines[5], "  Temperature:      42.0 °C");
    assert_eq!(lines[6], "  Available Spare:  100% (threshold: 10%)");
    assert_eq!(lines[8], "  Data Read/Write:  Read 50.00 GiB / Written 30.00 GiB");
    assert_eq!(lines[9], "  Power-on/Shutdown: 120 hrs / 1 unsafe shutdowns");
    assert_eq!(lines[11], "  Critical Warning: None");
    let empty = rsetup::model::NvmeStatus {
        initialized: true,
        devices: Vec::new(),
        message: None,
    };
    assert_eq!(
        rsetup::report::format_nvme_status(&empty, Locale::En, &Vec::new()),
        "NVMe controller detected, but no storage devices/namespaces found."
    );
}

#[test]
fn format_storage_status_contains_both_sections() {
    let device = nvme_device();
    let figures = vec![nvme_figures(&device)];
    let nvme = rsetup::model::NvmeStatus {
        initialized: true,
        devices: vec![device],
        message: None,
    };
    let mmc = MmcStatus {
        initialized: true,
        devices: vec![MmcDevice {
            name: "mmc0:0001".into(),
            block_path: "/dev/mmcblk0".into(),
            card_type: "MMC".into(),
            model: "DG4064".into(),
            manufacturer: "0x45".into(),
            serial: "0x12345678".into(),
            firmware: "0x00".into(),
            total_bytes: 64_000_000_000,
            health: MmcHealth {
                pre_eol_info: 1,
                life_time_est_a_percent: Some(10),
                life_time_est_b_percent: None,
                warning_flags: Vec::new(),
            },
            telemetry: ready(),
            health_state: HealthState::Healthy,
        }],
        message: None,
    };
    let mmc_sizes = sizes(&mmc);
    let status = rsetup::model::StorageStatus { nvme, mmc };
    let out = rsetup::report::format_storage_status(&status, Locale::En, &figures, &mmc_sizes);
    assert!(out.contains("nvme0"), "storage output should contain nvme0");
    assert!(out.contains("mmc0:0001"), "storage output should contain mmc0:0001");
}
