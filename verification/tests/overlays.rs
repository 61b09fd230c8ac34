use rsetup::hardware::OverlayEntry;
use rsetup::overlay_files::{
    humanize_overlay_id, overlay_entry, overlay_file, parse_overlay_metadata, quoted_values,
    sort_overlays, u_boot_overlay_dir, u_boot_overlay_status,
};

fn entry(id: &str, title: &str) -> OverlayEntry {
    OverlayEntry {
        id: id.into(),
        title: title.into(),
        description: None,
        category: None,
        enabled: false,
        exclusive: Vec::new(),
        packages: Vec::new(),
    }
}

const DTS: &str = "/dts-v1/;\n\n/ {\n\tmetadata {\n\t\ttitle = \"Enable UART2\";\n\t\tcompatible = \"radxa,rock-5b\";\n\t\tcategory = \"misc\";\n\t\texclusive = \"GPIO0_B5\\0GPIO0_B6\";\n\t\tdescription = \"Enable UART2.\\nOn Radxa ROCK 5B this is the debug console.\";\n\t\tpackage = \"a\", \" b \\0\\0c\";\n\t};\n\n\tfragment@0 {\n\t\ttitle = \"not metadata\";\n\t};\n};\n";

#[test]
fn overlay_files_are_named_by_their_extension() {
    assert_eq!(
        overlay_file("rk3588-uart2-m0.dtbo"),
        Some(("rk3588-uart2-m0.dtbo".to_owned(), true))
    );
    assert_eq!(
        overlay_file("rk3588-uart2-m0.dtbo.disabled"),
        Some(("rk3588-uart2-m0.dtbo".to_owned(), false))
    );
    assert_eq!(overlay_file("README"), None);
    assert_eq!(overlay_file("rk3588.dtb"), None);
}

#[test]
fn overlay_titles_are_made_from_the_id() {
    assert_eq!(humanize_overlay_id("sc8280xp-uart18.dtbo"), "Sc8280xp Uart18");
    assert_eq!(humanize_overlay_id("rk3588-can1_m0.dtbo"), "Rk3588 Can1 M0");
    assert_eq!(humanize_overlay_id("a--b.dtbo"), "A B");
}

#[test]
fn overlays_sort_by_title_then_id() {
    let sorted = sort_overlays(vec![
        entry("c.dtbo", "Beta"),
        entry("b.dtbo", "Alpha"),
        entry("a.dtbo", "Beta"),
    ]);
    let ids: Vec<&str> = sorted.iter().map(|item| item.id.as_str()).collect();
    assert_eq!(ids, vec!["b.dtbo", "a.dtbo", "c.dtbo"]);
    assert!(sort_overlays(Vec::new()).is_empty());
}

#[test]
fn u_boot_config_names_the_overlay_directory() {
    assert_eq!(
        u_boot_overlay_dir("U_BOOT_TIMEOUT=5\n  U_BOOT_FDT_OVERLAYS_DIR=\"/boot/dtbo/\"\n"),
        Some("/boot/dtbo/".to_owned())
    );
    assert_eq!(
        u_boot_overlay_dir("U_BOOT_FDT_OVERLAYS_DIR='/boot/a'\nU_BOOT_FDT_OVERLAYS_DIR=/boot/b"),
        Some("/boot/a".to_owned())
    );
    assert_eq!(u_boot_overlay_dir("# U_BOOT_FDT_OVERLAYS_DIR=/x\n"), None);
}

#[test]
fn quoted_values_split_on_escaped_nuls_and_drop_empty_values() {
    assert_eq!(
        quoted_values("\t\texclusive = \"GPIO0_B5\\0GPIO0_B6\";"),
        vec!["GPIO0_B5".to_owned(), "GPIO0_B6".to_owned()]
    );
    assert_eq!(
        quoted_values("package = \"a\", \" b \\0\\0c\", \"unclosed"),
        vec!["a".to_owned(), "b".to_owned(), "c".to_owned()]
    );
    assert!(quoted_values("title = <1>;").is_empty());
}

#[test]
fn metadata_is_read_from_the_metadata_node_only() {
    let metadata = parse_overlay_metadata(DTS);
    assert_eq!(metadata.title, vec!["Enable UART2".to_owned()]);
    assert_eq!(metadata.category, vec!["misc".to_owned()]);
    assert_eq!(
        metadata.exclusive,
        vec!["GPIO0_B5".to_owned(), "GPIO0_B6".to_owned()]
    );
    assert_eq!(
        metadata.description,
        vec!["Enable UART2.\\nOn Radxa ROCK 5B this is the debug console.".to_owned()]
    );
    assert_eq!(
        metadata.package,
        vec!["a".to_owned(), "b".to_owned(), "c".to_owned()]
    );
    let none = parse_overlay_metadata("/ {\n\tfragment@0 {\n\t\ttitle = \"x\";\n\t};\n};\n");
    assert!(none.title.is_empty());
    assert!(none.package.is_empty());
}

#[test]
fn overlay_entries_fall_back_to_a_title_made_from_the_id() {
    let metadata = parse_overlay_metadata(DTS);
    let described = overlay_entry("rk3588-uart2-m0.dtbo", true, &metadata);
    assert_eq!(described.id, "rk3588-uart2-m0.dtbo");
    assert_eq!(described.title, "Enable UART2");
    assert_eq!(described.category.as_deref(), Some("misc"));
    assert!(described.enabled);
    assert_eq!(described.packages.len(), 3);
    let bare = overlay_entry("rk3588-spi0-m2.dtbo", false, &parse_overlay_metadata(""));
    assert_eq!(bare.title, "Rk3588 Spi0 M2");
    assert_eq!(bare.description, None);
    assert!(bare.exclusive.is_empty());
    assert!(!bare.enabled);
}

#[test]
fn u_boot_overlays_are_switchable_only_with_the_updater() {
    let found = vec![entry("a.dtbo", "A")];
    let status = u_boot_overlay_status("u-boot", "/boot/dtbo", found.clone(), true);
    assert!(status.supported && status.mutable);
    assert_eq!(status.unavailable_reason, None);
    assert_eq!(status.directory.as_deref(), Some("/boot/dtbo"));
    let status = u_boot_overlay_status("u-boot", "/boot/dtbo", found.clone(), false);
    assert!(status.supported && !status.mutable);
    assert_eq!(
        status.unavailable_reason.as_deref(),
        Some("A supported U-Boot overlay updater was not detected.")
    );
    let status = u_boot_overlay_status("u-boot", "/boot/dtbo", Vec::new(), true);
    assert!(!status.supported && !status.mutable);
    assert_eq!(
        status.unavailable_reason.as_deref(),
        Some("No device-tree overlay was found in the managed directory.")
    );
    let status = u_boot_overlay_status("unknown", "/boot/dtbo", found, true);
    assert!(!status.mutable);
}
