use rsetup::efi_entry::efi_overlays;
use rsetup::efi::{
    base_devicetree, boot_change, check_kernel_path, check_not_executable, check_not_shared,
    component, entry_kernel_path, io_error, load_error_status, matches_entry_name,
    normalize_reference, overlay_files, overlay_moves, render_entry, saved_overlays,
    select_entry, single_value, validate_fdt, values, OverlayBootChange, OverlayBootConfig,
};
use rsetup::hardware::{HardwareError, OverlayEntry};
use std::io;

const KERNEL: &str = "7.0.11-5-qcom";
const UART: &str = "sc8280xp-uart18.dtbo";
const SPI: &str = "sc8280xp-spi4-spidev.dtbo";

fn strings(values: &[&str]) -> Vec<String> {
    values.iter().map(|v| v.to_string()).collect()
}

fn fdt() -> Vec<u8> {
    let header: [u32; 10] = [0xd00dfeed, 72, 56, 72, 40, 17, 16, 0, 0, 16];
    let mut bytes = header
        .into_iter()
        .flat_map(u32::to_be_bytes)
        .collect::<Vec<_>>();
    bytes.extend([0u8; 16]);
    for token in [1u32, 0, 2, 9] {
        bytes.extend(token.to_be_bytes());
    }
    bytes
}

fn entry_text() -> String {
    format!("# keep comment\ntitle RadxaOS\nversion {KERNEL}\noptions root=UUID=test quiet\nlinux /RadxaOS/{KERNEL}/linux\ninitrd /RadxaOS/{KERNEL}/initrd\ninitrd /extra-ucode\n")
}

fn config(overlays: &[&str]) -> OverlayBootConfig {
    OverlayBootConfig {
        kernel: KERNEL.into(),
        path: format!("/boot/efi/loader/entries/RadxaOS-{KERNEL}.conf"),
        devicetree: None,
        available_devicetree: format!("/RadxaOS/{KERNEL}/sc8280xp-dragon-q8b.dtb"),
        overlays: overlays.iter().map(|o| format!("/RadxaOS/{KERNEL}/dtbo/{o}")).collect(),
    }
}

#[test]
fn permission_errors_are_an_authorization_state_not_empty_configuration() {
    assert!(matches!(
        io_error(io::Error::from(io::ErrorKind::PermissionDenied)),
        HardwareError::RootRequired
    ));
}

#[test]
fn other_io_errors_keep_their_text() {
    assert!(matches!(
        io_error(io::Error::new(io::ErrorKind::Other, "disk on fire")),
        HardwareError::Io(text) if text == "disk on fire"
    ));
}

#[test]
fn unreadable_configuration_with_root_required_stays_reachable() {
    let status = load_error_status(&HardwareError::RootRequired, "uefi-dt");
    assert!(status.supported);
    assert!(!status.mutable);
    assert_eq!(
        status.unavailable_reason.as_deref(),
        Some("EFI boot files require administrator authorization to read.")
    );
    let other = load_error_status(&HardwareError::Unsupported("no DT".into()), "uefi-dt");
    assert!(!other.supported);
    assert_eq!(
        other.unavailable_reason.as_deref(),
        Some("hardware tool is unavailable: no DT")
    );
}

#[test]
fn bls_keys_are_read_line_by_line() {
    let text = entry_text();
    assert_eq!(values(&text, "initrd").len(), 2);
    assert_eq!(single_value(&text, "version").unwrap().as_deref(), Some(KERNEL));
    assert_eq!(single_value(&text, "devicetree").unwrap(), None);
    assert!(matches!(
        single_value(&text, "initrd"),
        Err(HardwareError::InvalidInput(m)) if m == "duplicate BLS key: initrd"
    ));
    assert_eq!(entry_kernel_path(&text, KERNEL).unwrap(), format!("/RadxaOS/{KERNEL}/linux"));
    assert!(matches!(
        entry_kernel_path(&text, "7.0.11-6-qcom"),
        Err(HardwareError::InvalidInput(m)) if m == "BLS version does not match the running kernel"
    ));
    assert!(matches!(
        entry_kernel_path("title x\n", KERNEL),
        Err(HardwareError::Unsupported(_))
    ));
    assert!(check_not_executable(&text).is_ok());
    assert!(check_not_executable("efi /EFI/x.efi\n").is_err());
}

#[test]
fn boot_count_names_match_the_running_kernel() {
    let prefix = format!("RadxaOS-{KERNEL}");
    assert!(matches_entry_name(&format!("{prefix}.conf"), &prefix));
    assert!(matches_entry_name(&format!("{prefix}+3.conf"), &prefix));
    assert!(matches_entry_name(&format!("{prefix}+3-1.conf"), &prefix));
    assert!(!matches_entry_name(&format!("{prefix}+3-1-2.conf"), &prefix));
    assert!(!matches_entry_name(&format!("{prefix}+x.conf"), &prefix));
    assert!(!matches_entry_name("RadxaOS-7.0.11-6-qcom.conf", &prefix));
    let names = strings(&["RadxaOS-7.0.11-6-qcom.conf", &format!("{prefix}+3-1.conf"), "loader.txt"]);
    assert_eq!(select_entry(&names, &prefix).unwrap(), 1);
    let ambiguous = strings(&[&format!("{prefix}.conf"), &format!("{prefix}+3-1.conf")]);
    assert!(matches!(select_entry(&ambiguous, &prefix), Err(HardwareError::Unsupported(_))));
}

#[test]
fn unsafe_components_are_rejected() {
    assert!(component("RadxaOS").is_ok());
    assert!(component("..").is_err());
    assert!(component("").is_err());
    assert!(component("a/b").is_err());
    assert!(component(&"x".repeat(256)).is_err());
    assert!(check_kernel_path(&format!("/RadxaOS/{KERNEL}/linux"), "RadxaOS", KERNEL).is_ok());
    assert!(matches!(
        check_kernel_path("/RadxaOS/7.0.11-6-qcom/linux", "RadxaOS", KERNEL),
        Err(HardwareError::InvalidInput(m)) if m == "BLS kernel path does not match its version directory"
    ));
    assert!(matches!(
        check_kernel_path("/../RadxaOS/linux", "RadxaOS", KERNEL),
        Err(HardwareError::InvalidInput(m)) if m == "unsafe EFI path component"
    ));
}

#[test]
fn device_tree_headers_are_checked() {
    assert!(validate_fdt(&fdt()).is_ok());
    assert!(validate_fdt(b"bad data").is_err());
    let mut truncated = fdt();
    truncated.truncate(60);
    assert!(matches!(
        validate_fdt(&truncated),
        Err(HardwareError::InvalidInput(m)) if m == "truncated DTB/DTBO"
    ));
}

#[test]
fn overlay_files_fold_case_and_disabled_suffix() {
    let names = strings(&[&format!("{SPI}"), &format!("{UART}.disabled"), "README"]);
    let files = overlay_files(&names, &vec![fdt(), fdt(), b"notes".to_vec()]).unwrap();
    assert_eq!(files, vec![(SPI.to_string(), SPI.to_string()), (UART.to_string(), format!("{UART}.disabled"))]);
    let colliding = strings(&["SC8280XP-UART18.dtbo", UART]);
    assert!(matches!(
        overlay_files(&colliding, &vec![fdt(), fdt()]),
        Err(HardwareError::InvalidInput(m)) if m == "duplicate or case-colliding EFI Overlay ID"
    ));
    assert!(matches!(
        overlay_files(&strings(&[SPI, UART]), &vec![fdt(), vec![0u8; 8]]),
        Err(HardwareError::InvalidInput(m)) if m == "invalid DTB/DTBO header"
    ));
}

#[test]
fn saved_references_must_be_enabled_files_of_the_kernel_directory() {
    let enabled = strings(&[SPI]);
    let text = format!("/RadxaOS/{KERNEL}/dtbo/{SPI}");
    assert_eq!(
        saved_overlays(&text, "RadxaOS", KERNEL, &enabled).unwrap(),
        vec![format!("/RadxaOS/{KERNEL}/dtbo/{SPI}")]
    );
    assert!(matches!(
        saved_overlays(&format!("/RadxaOS/{KERNEL}/dtbo/{UART}"), "RadxaOS", KERNEL, &enabled),
        Err(HardwareError::InvalidInput(m)) if m == "BLS references a missing or disabled Overlay file"
    ));
    assert!(matches!(
        saved_overlays("/elsewhere/x.dtbo", "RadxaOS", KERNEL, &enabled),
        Err(HardwareError::Unsupported(_))
    ));
    assert!(matches!(
        saved_overlays(&format!("{text} {text}"), "RadxaOS", KERNEL, &enabled),
        Err(HardwareError::InvalidInput(m)) if m == "duplicate BLS Overlay reference"
    ));
    let shared = strings(&[&format!("/RadxaOS/{KERNEL}/DTBO/{SPI}")]);
    assert!(check_not_shared(&shared, "RadxaOS", KERNEL).is_err());
    assert!(check_not_shared(&strings(&["/other/x.dtbo"]), "RadxaOS", KERNEL).is_ok());
    assert_eq!(normalize_reference("//a/b"), "/a/b");
}

#[test]
fn overlays_need_a_base_device_tree() {
    let saved = strings(&["/RadxaOS/k/dtbo/a.dtbo"]);
    assert!(matches!(
        base_devicetree("title x\n", &saved),
        Err(HardwareError::InvalidInput(m)) if m == "BLS Overlays require a base device tree"
    ));
    assert_eq!(base_devicetree("title x\n", &vec![]).unwrap(), None);
    assert_eq!(
        base_devicetree("devicetree RadxaOS/k/base.dtb\n", &saved).unwrap().as_deref(),
        Some("/RadxaOS/k/base.dtb")
    );
}

#[test]
fn boot_count_names_and_overlay_order_are_preserved_in_changes() {
    let entry = Some(config(&[UART, SPI]));
    let directory = Some(format!("/boot/efi/RadxaOS/{KERNEL}/dtbo"));
    let change = boot_change(&entry, &directory, &strings(&[SPI, UART])).unwrap().unwrap();
    assert_eq!(change.overlays_after, change.overlays_before);
    let fewer = boot_change(&entry, &directory, &strings(&[SPI])).unwrap().unwrap();
    assert_eq!(fewer.overlays_after, vec![format!("/RadxaOS/{KERNEL}/dtbo/{SPI}")]);
    let added = boot_change(&Some(config(&[UART])), &directory, &strings(&[UART, SPI])).unwrap().unwrap();
    assert_eq!(
        added.overlays_after,
        vec![
            format!("/RadxaOS/{KERNEL}/dtbo/{UART}"),
            format!("/RadxaOS/{KERNEL}/dtbo/{SPI}")
        ]
    );
    assert_eq!(boot_change(&None, &directory, &vec![]).unwrap(), None);
    assert!(matches!(
        boot_change(&entry, &Some("/mnt/dtbo".into()), &vec![]),
        Err(HardwareError::InvalidInput(m)) if m == "unexpected EFI mount"
    ));
}

#[test]
fn transaction_rewrites_only_the_device_tree_lines() {
    let text = entry_text();
    let change = OverlayBootChange {
        kernel: KERNEL.into(),
        path: "entry".into(),
        devicetree_before: None,
        devicetree_after: format!("/RadxaOS/{KERNEL}/sc8280xp-dragon-q8b.dtb"),
        overlays_before: vec![],
        overlays_after: vec![format!("/RadxaOS/{KERNEL}/dtbo/{UART}")],
    };
    let after = render_entry(text.as_bytes(), &change).unwrap();
    assert!(after.starts_with(&text));
    assert!(after.ends_with(&format!(
        "devicetree /RadxaOS/{KERNEL}/sc8280xp-dragon-q8b.dtb\ndevicetree-overlay /RadxaOS/{KERNEL}/dtbo/{UART}\n"
    )));
    let cleared = OverlayBootChange { overlays_after: vec![], ..change.clone() };
    let again = render_entry(after.as_bytes(), &cleared).unwrap();
    assert_eq!(again, format!("{text}devicetree /RadxaOS/{KERNEL}/sc8280xp-dragon-q8b.dtb\n"));
    assert!(render_entry(&[0xff, 0xfe], &change).is_err());
}

#[test]
fn moves_enable_selected_and_disable_the_rest() {
    let directory = format!("/boot/efi/RadxaOS/{KERNEL}/dtbo");
    let files = vec![
        (SPI.to_string(), format!("{directory}/{SPI}")),
        (UART.to_string(), format!("{directory}/{UART}.disabled")),
    ];
    let overlays = vec![
        OverlayEntry {
            id: SPI.into(),
            title: "SPI".into(),
            description: None,
            category: None,
            enabled: true,
            exclusive: vec![],
            packages: vec![],
        },
        OverlayEntry {
            id: UART.into(),
            title: "UART".into(),
            description: None,
            category: None,
            enabled: false,
            exclusive: vec![],
            packages: vec![],
        },
    ];
    let moves = overlay_moves(&files, &directory, &strings(&[UART]), &overlays);
    assert_eq!(
        moves,
        vec![
            (format!("{directory}/{UART}.disabled"), format!("{directory}/{UART}")),
            (format!("{directory}/{SPI}"), format!("{directory}/{SPI}.disabled")),
        ]
    );
}

#[test]
fn the_overlay_state_of_an_entry_is_read_in_order() {
    let names = strings(&[SPI, &format!("{UART}.disabled")]);
    let blobs = vec![fdt(), fdt()];
    let text = format!(
        "{}devicetree /RadxaOS/{KERNEL}/base.dtb\ndevicetree-overlay /RadxaOS/{KERNEL}/dtbo/{SPI}\n",
        entry_text()
    );
    let state = efi_overlays("RadxaOS", KERNEL, &text, &names, &blobs, &vec![]).unwrap();
    assert_eq!(state.files, vec![(SPI.to_string(), SPI.to_string()), (UART.to_string(), format!("{UART}.disabled"))]);
    assert_eq!(state.saved, vec![format!("/RadxaOS/{KERNEL}/dtbo/{SPI}")]);
    assert_eq!(state.devicetree, Some(format!("/RadxaOS/{KERNEL}/base.dtb")));

    let plain = efi_overlays("RadxaOS", KERNEL, &entry_text(), &names, &blobs, &vec![]).unwrap();
    assert!(plain.saved.is_empty());
    assert_eq!(plain.devicetree, None);

    let disabled = format!("{}devicetree-overlay /RadxaOS/{KERNEL}/dtbo/{UART}\n", entry_text());
    assert!(matches!(
        efi_overlays("RadxaOS", KERNEL, &disabled, &names, &blobs, &vec![]),
        Err(HardwareError::InvalidInput(m)) if m == "BLS references a missing or disabled Overlay file"
    ));
    let other = format!("title other\ndevicetree-overlay /RadxaOS/{KERNEL}/dtbo/{SPI} /x.dtbo\n");
    assert!(matches!(
        efi_overlays("RadxaOS", KERNEL, &text, &names, &blobs, &vec![other]),
        Err(HardwareError::Unsupported(m))
            if m == "Overlay files are shared with another BLS entry; refusing to rename them."
    ));
    let no_base = format!("{}devicetree-overlay /RadxaOS/{KERNEL}/dtbo/{SPI}\n", entry_text());
    assert!(matches!(
        efi_overlays("RadxaOS", KERNEL, &no_base, &names, &blobs, &vec![]),
        Err(HardwareError::InvalidInput(m)) if m == "BLS Overlays require a base device tree"
    ));
    assert!(matches!(
        efi_overlays("RadxaOS", KERNEL, &text, &names, &vec![fdt(), vec![1, 2, 3]], &vec![]),
        Err(HardwareError::InvalidInput(m)) if m == "invalid DTB/DTBO header"
    ));
}
