use rsetup::actions::ActionError;
use rsetup::catalog::{
    action_catalog, bounded_text, builtin_plan, command_outcome, detect_filesystem_step,
    expand_step, is_host_key_file, live_unavailable_reason, plan_execution, step_header,
    BuiltinPlan, ExecutionPolicy, ExecutionStep, HostFacts,
};
use rsetup::model::ActionStatus;

fn no_facts() -> HostFacts {
    HostFacts {
        commands: vec![],
        packages: vec![],
        units: vec![],
        enabled_units: vec![],
        active_units: vec![],
        masked_units: vec![],
    }
}

fn strings(values: &[&str]) -> Vec<String> {
    values.iter().map(|v| v.to_string()).collect()
}

fn full_facts() -> HostFacts {
    HostFacts {
        commands: strings(&[
            "apt-get", "apt-mark", "systemctl", "dpkg-reconfigure", "findmnt", "blkid", "resize2fs",
        ]),
        packages: strings(&["openssh-server"]),
        units: strings(&["ssh.service", "NetworkManager.service"]),
        enabled_units: strings(&["ssh.service"]),
        active_units: strings(&["ssh.service"]),
        masked_units: vec![],
    }
}

#[test]
fn catalog_has_no_legacy_rsetup_executor() {
    for action in action_catalog(true, &no_facts()) {
        assert!(!action.description.to_ascii_lowercase().contains("legacy"));
        assert_ne!(
            action
                .command
                .as_ref()
                .and_then(|command| command.first())
                .map(String::as_str),
            Some("rsetup")
        );
    }
}

#[test]
fn demo_catalog_contains_migrated_service_lifecycle_actions() {
    let actions = action_catalog(true, &no_facts());
    let identifiers = actions
        .iter()
        .map(|action| action.id.as_str())
        .collect::<std::collections::HashSet<_>>();
    for expected in [
        "service.ssh-install",
        "service.ssh-enable",
        "service.ssh-disable",
        "service.ssh-regenerate-host-keys",
        "service.ssh-remove",
        "service.docker-install",
        "service.docker-enable",
        "service.docker-disable",
        "service.docker-remove",
        "power.enable-sleep",
        "power.disable-sleep",
    ] {
        assert!(
            identifiers.contains(expected),
            "missing migrated action {expected}"
        );
    }
    assert!(actions.iter().all(|action| action.available));
}

#[test]
fn live_catalog_reports_why_actions_cannot_run() {
    let actions = action_catalog(false, &full_facts());
    let find = |id: &str| actions.iter().find(|a| a.id == id).unwrap().clone();
    assert!(find("system.update").available);
    let install = find("service.ssh-install");
    assert!(!install.available);
    assert_eq!(
        install.unavailable_reason.as_deref(),
        Some("OpenSSH server is already installed.")
    );
    assert_eq!(
        find("service.ssh-enable").unavailable_reason.as_deref(),
        Some("SSH is already enabled and running.")
    );
    assert!(find("service.ssh-disable").available);
    assert_eq!(
        find("service.docker-enable").unavailable_reason.as_deref(),
        Some("Package docker.io is not installed.")
    );
    assert_eq!(
        find("power.enable-sleep").unavailable_reason.as_deref(),
        Some("Sleep and hibernate targets are already enabled.")
    );
    assert!(find("power.disable-sleep").available);
    assert!(find("storage.expand-root").available);
}

#[test]
fn missing_programs_are_listed_in_order() {
    assert_eq!(
        live_unavailable_reason("system.update", &no_facts()).as_deref(),
        Some("Missing required command(s): apt-get, apt-mark.")
    );
    let mut facts = no_facts();
    facts.commands = strings(&["systemctl"]);
    assert_eq!(
        live_unavailable_reason("network.restart", &facts).as_deref(),
        Some("Systemd unit NetworkManager.service is not installed.")
    );
    facts.commands = strings(&["findmnt", "blkid"]);
    assert_eq!(
        live_unavailable_reason("storage.expand-root", &facts).as_deref(),
        Some("Neither resize2fs nor btrfs is installed.")
    );
    assert_eq!(live_unavailable_reason("system.inspect", &no_facts()), None);
}

#[test]
fn guarded_action_requires_confirmation() {
    let result = plan_execution(true, &no_facts(), ExecutionPolicy::DryRun, None, "service.ssh-enable", false);
    assert!(matches!(result, Err(ActionError::ConfirmationRequired(_))));
}

#[test]
fn dry_run_plans_the_steps_and_runs_nothing() {
    let result = plan_execution(true, &no_facts(), ExecutionPolicy::DryRun, None, "system.reboot", true);
    match result {
        Ok(ExecutionStep::DryRun { summary, output }) => {
            assert_eq!(summary, "Dry run completed; no system state was changed.");
            assert_eq!(
                output,
                "planned steps:\n- Flush pending writes\n- Stop services\n- Request system reboot"
            );
        }
        other => panic!("unexpected {other:?}"),
    }
}

#[test]
fn mirror_change_requires_guided_input_and_unknown_ids_are_refused() {
    assert!(matches!(
        plan_execution(true, &no_facts(), ExecutionPolicy::DryRun, None, "system.change-sources", true),
        Err(ActionError::InputRequired(_))
    ));
    assert!(matches!(
        plan_execution(true, &no_facts(), ExecutionPolicy::DryRun, None, "system.nope", true),
        Err(ActionError::Unknown(id)) if id == "system.nope"
    ));
    assert!(matches!(
        plan_execution(false, &no_facts(), ExecutionPolicy::Live, Some(0), "system.reboot", true),
        Err(ActionError::Unavailable(title)) if title == "Reboot device"
    ));
}

#[test]
fn live_runs_pick_helper_command_or_builtin() {
    let facts = full_facts();
    match plan_execution(false, &facts, ExecutionPolicy::Live, Some(1000), "system.update", true) {
        Ok(ExecutionStep::Privileged { id, title }) => {
            assert_eq!(id, "system.update");
            assert_eq!(title, "Update operating system");
        }
        other => panic!("unexpected {other:?}"),
    }
    match plan_execution(false, &facts, ExecutionPolicy::Live, Some(0), "service.ssh-disable", true) {
        Ok(ExecutionStep::Command { program, args }) => {
            assert_eq!(program, "systemctl");
            assert_eq!(args, strings(&["disable", "--now", "ssh.service"]));
        }
        other => panic!("unexpected {other:?}"),
    }
    match plan_execution(false, &facts, ExecutionPolicy::Live, Some(0), "system.inspect", false) {
        Ok(ExecutionStep::Builtin { id }) => assert_eq!(id, "system.inspect"),
        other => panic!("unexpected {other:?}"),
    }
}

#[test]
fn builtin_executors_have_fixed_steps() {
    match builtin_plan("power.disable-sleep").unwrap() {
        BuiltinPlan::Steps { steps } => {
            assert_eq!(steps.len(), 3);
            assert_eq!(steps[0].label, "Mask sleep targets");
            assert_eq!(steps[0].args[0], "mask");
            assert_eq!(steps[0].args.len(), 6);
            assert_eq!(
                step_header(&steps[1]),
                "== Reload systemd ==\n$ systemctl daemon-reload\n"
            );
        }
        _ => panic!("expected steps"),
    }
    assert!(matches!(builtin_plan("storage.expand-root"), Ok(BuiltinPlan::ExpandRoot)));
    assert!(matches!(
        builtin_plan("network.restart"),
        Err(ActionError::Launch(message)) if message == "no built-in executor is registered for network.restart"
    ));
}

#[test]
fn root_expansion_decisions() {
    assert!(detect_filesystem_step("overlay\n").is_err());
    let blkid = detect_filesystem_step(" /dev/mmcblk0p2\n").unwrap();
    assert_eq!(blkid.program, "blkid");
    assert_eq!(blkid.args.last().unwrap(), "/dev/mmcblk0p2");
    let ext4 = expand_step("/dev/mmcblk0p2", "EXT4\n").unwrap();
    assert_eq!(ext4.program, "resize2fs");
    assert_eq!(ext4.args, strings(&["/dev/mmcblk0p2"]));
    let (line, summary) = expand_step("/dev/sda1", "xfs").unwrap_err();
    assert_eq!(line, "Unsupported filesystem: xfs\n");
    assert_eq!(summary, "Unsupported root filesystem: xfs.");
    assert!(is_host_key_file("ssh_host_ed25519_key"));
    assert!(!is_host_key_file("sshd_config"));
}

#[test]
fn command_output_is_trimmed_and_bounded() {
    assert_eq!(bounded_text("  \n"), None);
    assert_eq!(bounded_text(" ok \n").as_deref(), Some("ok"));
    let long = "x".repeat(9000);
    assert_eq!(bounded_text(&long).unwrap().len(), 8000);
    let (status, summary, output) = command_outcome(false, "exit status: 1", b"out\n", b"err\n");
    assert_eq!(status, ActionStatus::Failed);
    assert_eq!(summary, "Operation exited with exit status: 1.");
    assert_eq!(output.as_deref(), Some("out\nerr"));
}
