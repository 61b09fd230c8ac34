use rsetup::benchmark::benchmark_targets;
use rsetup::source_files::{transform_document, SourceDocument};
use rsetup::source_plan::{demo_documents, verify_plan_token, SourceError, SourceManager};
use rsetup::sources::{find_provider, provider, SourceKind};

fn doc(format: &'static str, content: &str) -> SourceDocument {
    SourceDocument {
        display_path: "test".into(),
        format,
        content: content.into(),
    }
}

#[test]
fn plan_changes_deb822_and_radxa_without_touching_third_party() {
    let manager = SourceManager::new(true);
    let plan = manager.plan("cqu").expect("demo plan");
    assert_eq!(plan.changes.len(), 2);
    assert_eq!(
        plan.changes
            .iter()
            .map(|change| change.replacements)
            .sum::<usize>(),
        3
    );
    assert!(plan
        .changes
        .iter()
        .flat_map(|change| &change.after)
        .any(|line| line.contains("mirrors.cqu.edu.cn/debian-security")));
    assert!(plan
        .changes
        .iter()
        .flat_map(|change| &change.after)
        .any(|line| line.contains("mirrors.cqu.edu.cn/radxa-deb/bookworm")));
}

#[test]
fn custom_repository_is_not_managed() {
    let document = SourceDocument {
        display_path: "/etc/apt/sources.list".into(),
        format: "list",
        content: "deb https://packages.example.com/debian stable main\n".into(),
    };
    let (_, change) = transform_document(
        &document,
        "debian",
        "aarch64",
        find_provider("ustc").unwrap(),
    );
    assert!(change.is_none());
}

#[test]
fn official_ubuntu_restore_uses_ports_on_arm_and_security_on_amd64() {
    let arm = SourceDocument {
        display_path: "/etc/apt/sources.list".into(),
        format: "list",
        content: "deb https://mirrors.cqu.edu.cn/ubuntu-ports noble main\n".into(),
    };
    let (_, arm_change) = transform_document(&arm, "ubuntu", "aarch64", provider(0));
    assert!(arm_change.unwrap().after[0].contains("https://ports.ubuntu.com/ubuntu-ports"));

    let amd64 = SourceDocument {
        display_path: "/etc/apt/sources.list".into(),
        format: "list",
        content: "deb https://mirrors.cqu.edu.cn/ubuntu noble-security main\n".into(),
    };
    let (_, amd64_change) = transform_document(&amd64, "ubuntu", "x86_64", provider(0));
    assert!(amd64_change.unwrap().after[0].contains("https://security.ubuntu.com/ubuntu"));
}

#[test]
fn system_only_provider_preserves_radxa_entries() {
    let manager = SourceManager::new(true);
    let plan = manager.plan("ustc").expect("demo plan");
    assert_eq!(plan.changes.len(), 1);
    assert!(plan.warnings.iter().any(|warning| warning == "system_only"));
    assert!(plan.changes.iter().all(|change| !change.path.contains("radxa")));
}

#[test]
fn live_status_reads_a_fixture() {
    let documents = vec![SourceDocument {
        display_path: "/etc/apt/sources.list.d/debian.sources".into(),
        format: "deb822",
        content: "Types: deb\nURIs: https://deb.debian.org/debian\nSuites: stable\nComponents: main\n"
            .into(),
    }];
    let manager = SourceManager::live(
        "ID=debian\nPRETTY_NAME=\"Debian Test\"\n",
        "aarch64",
        documents,
    );
    let status = manager.status();
    assert!(status.supported);
    assert_eq!(status.distribution_name, "Debian Test");
    assert_eq!(status.current_system_provider.as_deref(), Some("official"));
    assert_eq!(status.current_radxa_provider, None);
}

#[test]
fn a_plan_token_is_accepted_for_its_own_plan_only() {
    let manager = SourceManager::new(true);
    let plan = manager.plan("cqu").unwrap();
    assert!(plan.plan_token.starts_with("plan-v1-"));
    assert_eq!(plan.plan_token.len(), "plan-v1-".len() + 32);
    assert_eq!(verify_plan_token(&plan, &plan.plan_token), Ok(()));
    assert_eq!(verify_plan_token(&plan, "  "), Err(SourceError::PlanRequired));
    assert_eq!(verify_plan_token(&plan, "plan-v1-0"), Err(SourceError::StalePlan));
    let again = manager.plan("cqu").unwrap();
    assert_eq!(plan.plan_token, again.plan_token);
    let other = manager.plan("tuna").unwrap();
    assert_ne!(plan.plan_token, other.plan_token);
}

#[test]
fn the_official_provider_keeps_the_demo_sources_as_they_are() {
    let manager = SourceManager::new(true);
    let plan = manager.plan("official").unwrap();
    assert!(plan.changes.is_empty());
    assert!(!plan.will_refresh_package_index);
    assert_eq!(plan.warnings, vec!["already_selected".to_string(), "dry_run".to_string()]);
}

#[test]
fn unknown_providers_and_distributions_are_refused() {
    let manager = SourceManager::new(true);
    assert!(matches!(
        manager.plan("https://localhost"),
        Err(SourceError::UnknownProvider(id)) if id == "https://localhost"
    ));
    let fedora = SourceManager::live("ID=fedora\n", "x86_64", Vec::new());
    match fedora.plan("cqu") {
        Err(SourceError::Unsupported(why)) => {
            assert_eq!(why, "distribution fedora is not Debian or Ubuntu")
        }
        other => panic!("unexpected {other:?}"),
    }
}

#[test]
fn a_file_without_final_newline_keeps_none() {
    let document = doc("list", "deb https://deb.debian.org/debian bookworm main");
    let (text, change) = transform_document(&document, "debian", "aarch64", provider(3));
    assert_eq!(text, "deb https://mirrors.cqu.edu.cn/debian bookworm main");
    let change = change.unwrap();
    assert_eq!(change.replacements, 1);
    assert_eq!(change.before, vec!["deb https://deb.debian.org/debian bookworm main".to_string()]);
}

#[test]
fn comments_and_deb_src_free_lines_are_left_alone() {
    let content = "# deb https://deb.debian.org/debian bookworm main\n\tdeb https://deb.debian.org/debian bookworm main\n";
    let (text, change) =
        transform_document(&doc("list", content), "debian", "aarch64", provider(3));
    assert_eq!(
        text,
        "# deb https://deb.debian.org/debian bookworm main\n\tdeb https://mirrors.cqu.edu.cn/debian bookworm main\n"
    );
    assert_eq!(change.unwrap().replacements, 1);
}

#[test]
fn targets_preserve_suites_and_radxa_suffix() {
    let documents = demo_documents();
    assert_eq!(
        benchmark_targets(&documents, "debian", "aarch64", provider(3)),
        vec![
            (
                SourceKind::Debian,
                "https://mirrors.cqu.edu.cn/debian/dists/bookworm/InRelease".to_string()
            ),
            (
                SourceKind::Radxa,
                "https://mirrors.cqu.edu.cn/radxa-deb/bookworm/dists/bookworm/InRelease"
                    .to_string()
            )
        ]
    );
    assert_eq!(benchmark_targets(&documents, "debian", "aarch64", provider(1)).len(), 1);
    assert_eq!(
        benchmark_targets(&documents, "debian", "aarch64", provider(9))[0].0,
        SourceKind::Radxa
    );
}

#[test]
fn disabled_source_only_third_party_and_unsafe_paths_are_skipped() {
    let documents = vec![
        doc(
            "deb822",
            "Types: deb\nEnabled: no\nURIs: https://deb.debian.org/debian\nSuites: bookworm\n\nTypes: deb-src\nURIs: https://deb.debian.org/debian\nSuites: bookworm\n",
        ),
        doc(
            "list",
            "# deb https://deb.debian.org/debian bookworm main\ndeb https://example.com/debian bookworm main\ndeb https://deb.debian.org/debian ../../private main\ndeb https://radxa-repo.github.io/../private bookworm main\n",
        ),
    ];
    assert!(benchmark_targets(&documents, "debian", "aarch64", provider(0)).is_empty());
}

#[test]
fn ubuntu_ports_and_deb822_continuations() {
    let documents = vec![doc(
        "deb822",
        "Types: deb\nURIs:\n https://ports.ubuntu.com/ubuntu-ports\nSuites:\n noble noble-updates\n",
    )];
    assert_eq!(
        benchmark_targets(&documents, "ubuntu", "aarch64", provider(0))[0].1,
        "https://ports.ubuntu.com/ubuntu-ports/dists/noble/InRelease"
    );
}

#[test]
fn the_demo_host_holds_its_two_source_files() {
    let manager = SourceManager::new(true);
    assert_eq!(manager.documents.len(), 2);
    assert_eq!(manager.documents[0].display_path, "/etc/apt/sources.list.d/debian.sources");
    assert_eq!(manager.documents[0].format, "deb822");
    assert_eq!(manager.documents[1].display_path, "/etc/apt/sources.list.d/radxa.list");
    assert!(manager.documents[1].content.contains("https://radxa-repo.github.io/bookworm"));
}

#[test]
fn backup_and_temporary_names_keep_the_file_name() {
    assert_eq!(
        rsetup::source_files::backup_file_name("radxa.list", "20260101T000000Z", "abc"),
        "radxa.list.rsetup-backup-20260101T000000Z-abc"
    );
    assert_eq!(rsetup::source_files::temporary_file_name("debian.sources", "abc"), ".debian.sources.rsetup-abc.tmp");
}
