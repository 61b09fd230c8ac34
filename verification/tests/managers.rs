use rsetup::mmc::{read_device_sysfs, read_device_sysfs_with, MmcError, MmcManager, MmcSysfsAttributes};
use rsetup::model::{HealthState, TelemetryErrorKind, TelemetryReadState};
use rsetup::nvme::{read_controller_sysfs_with, NamespaceEntry, NvmeError, NvmeManager, NvmeSysfsAttributes};

fn card(card_type: &str) -> MmcSysfsAttributes {
    MmcSysfsAttributes {
        name: "mmc0:0001".into(),
        card_type: card_type.into(),
        model: "BJTD4R".into(),
        manfid: "0x000015".into(),
        serial: "0x1234".into(),
        fwrev: None,
        prv: None,
        hwrev: None,
        life_time: String::new(),
        pre_eol_info: String::new(),
        block_name: Some("mmcblk0".into()),
        block_size: Some("2048".into()),
    }
}

#[test]
fn sd_cards_never_read_the_ext_csd_register() {
    let device = read_device_sysfs("/", &card("SD"), None).unwrap();
    assert_eq!(device.telemetry.state, TelemetryReadState::Unsupported);
    assert_eq!(device.total_bytes, 2048 * 512);
    assert_eq!(device.manufacturer, "Samsung (0x000015)");
}

#[test]
fn fixture_roots_cannot_read_the_ext_csd_register() {
    let device = read_device_sysfs("/tmp/fixture", &card("MMC"), None).unwrap();
    assert_eq!(device.telemetry.state, TelemetryReadState::Unavailable);
    assert_eq!(device.telemetry.error.as_ref().map(|e| e.kind), Some(TelemetryErrorKind::Io));
    assert_eq!(device.health_state, HealthState::Unknown);
}

#[test]
fn sdio_functions_are_not_storage() {
    assert!(matches!(
        read_device_sysfs_with(&card("SDIO"), None),
        Err(MmcError::NotSupported(_))
    ));
}

#[test]
fn live_ext_csd_reads_fill_the_health_registers() {
    let mut ext = [0u8; 512];
    ext[192] = 8;
    ext[267] = 2;
    ext[268] = 0x03;
    ext[269] = 0x0B;
    let device = read_device_sysfs("/", &card("MMC"), Some(Ok(ext))).unwrap();
    assert_eq!(device.health.pre_eol_info, 2);
    assert_eq!(device.health.life_time_est_a_percent, Some(30));
    assert_eq!(device.health.life_time_est_b_percent, Some(101));
    assert_eq!(device.telemetry.state, TelemetryReadState::Available);
}

#[test]
fn mmc_manager_keeps_the_readable_cards() {
    let empty = MmcManager::new(vec![]);
    assert!(!empty.is_initialized());
    assert_eq!(empty.sysfs_root(), "/");
    assert_eq!(
        empty.status().message.as_deref(),
        Some("No MMC/SD devices detected in system")
    );
    let sd = read_device_sysfs_with(&card("SD"), None).unwrap();
    let manager = MmcManager::probe_and_init(
        Some("/tmp/root"),
        vec![Err(MmcError::NotSupported("SDIO device ignored".into())), Ok(sd)],
    );
    assert!(manager.is_initialized());
    assert_eq!(manager.sysfs_root(), "/tmp/root");
    assert_eq!(manager.status().devices.len(), 1);
}

#[test]
fn mmc_and_nvme_probes_keep_sorted_managed_names() {
    let names = MmcManager::probe_sysfs(&vec![
        ("mmc1:0001".into(), Some("SD\n".into())),
        ("mmc2:0001".into(), Some("SDIO".into())),
        ("mmc0:0001".into(), Some("MMC".into())),
        ("mmc3:0001".into(), None),
    ]);
    assert_eq!(names, vec!["mmc0:0001".to_string(), "mmc1:0001".to_string()]);
    let controllers = NvmeManager::probe_sysfs(&vec![
        "nvme1".into(),
        "nvme0n1".into(),
        "nvme0".into(),
        "nvme-subsys0".into(),
    ]);
    assert_eq!(controllers, vec!["nvme0".to_string(), "nvme1".to_string()]);
}

#[test]
fn nvme_manager_status_and_initialization() {
    let manager = NvmeManager::new();
    assert_eq!(manager.sysfs_root(), "/");
    let empty = NvmeManager::status_with(vec![]);
    assert!(!empty.initialized);
    assert!(!NvmeManager::is_initialized(&Ok(empty)));
    assert!(!NvmeManager::is_initialized(&Err(NvmeError::IoCode(13))));
    let attrs = NvmeSysfsAttributes {
        model: Some("  WD Blue  ".into()),
        serial: None,
        firmware_rev: Some("1.0".into()),
        namespaces: vec![NamespaceEntry {
            name: "nvme0n1".into(),
            is_dir: true,
            size: Some("4".into()),
        }],
    };
    let device = read_controller_sysfs_with("nvme0", &attrs, Err(NvmeError::IoCode(13)));
    assert_eq!(device.path, "/dev/nvme0");
    assert_eq!(device.total_bytes, 4 * 512);
    let status = NvmeManager::status_with(vec![
        ("nvme0".into(), Ok(device)),
        ("nvme1".into(), Err(NvmeError::Io("gone".into()))),
    ]);
    assert!(status.initialized);
    assert_eq!(status.devices.len(), 2);
    assert_eq!(status.devices[1].name, "nvme1");
    assert_eq!(status.devices[1].path, "/dev/nvme1");
    assert!(NvmeManager::is_initialized(&Ok(status)));
}
