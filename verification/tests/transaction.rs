use rsetup::actions::ActionError;
use rsetup::boot_transaction::{rollback_steps, transaction_steps, Stage, TxStep, Undo};
use rsetup::catalog::{catalog_title, ExecutionPolicy, ExecutionStep, HostFacts};
use rsetup::control::{execute_recorded, ControlLog, RunRecord};
use rsetup::efi_entry::efi_entry;
use rsetup::hardware::HardwareError;
use rsetup::model::ActionStatus;

fn no_facts() -> HostFacts {
    HostFacts {
        commands: vec![],
        packages: vec![],
        units: vec![],
        enabled_units: vec![],
        active_units: vec![],
        masked_units: vec![],
    }
}

fn strings(values: &[&str]) -> Vec<String> {
    values.iter().map(|v| v.to_string()).collect()
}

#[test]
fn a_transaction_moves_enabled_overlays_before_the_entry_and_disabled_ones_after() {
    let steps = transaction_steps(false, &vec![false, true, true]);
    assert_eq!(
        steps,
        vec![
            TxStep::CreateBase,
            TxStep::Rename(1),
            TxStep::Rename(2),
            TxStep::SyncDirectory,
            TxStep::Checkpoint(Stage::Enabled),
            TxStep::WriteEntry,
            TxStep::Checkpoint(Stage::Entry),
            TxStep::Rename(0),
            TxStep::SyncDirectory,
            TxStep::Checkpoint(Stage::Disabled),
            TxStep::VerifyEntry,
        ]
    );
    let plain = transaction_steps(true, &vec![]);
    assert_eq!(plain.len(), 7);
    assert_eq!(plain[0], TxStep::SyncDirectory);
}

#[test]
fn a_failure_before_any_change_undoes_only_the_base() {
    let enables = vec![true, false];
    let steps = transaction_steps(false, &enables);
    let (first, second) = rollback_steps(&steps, &enables, 0);
    assert!(first.is_empty());
    assert_eq!(second, vec![Undo::RemoveBase]);
    let kept = transaction_steps(true, &enables);
    let (first, second) = rollback_steps(&kept, &enables, 0);
    assert!(first.is_empty());
    assert!(second.is_empty());
}

#[test]
fn a_failed_entry_write_restores_the_entry_and_moves_back_newest_first() {
    let enables = vec![true, true, false];
    let steps = transaction_steps(true, &enables);
    let at = steps.iter().position(|s| *s == TxStep::WriteEntry).unwrap();
    let (first, second) = rollback_steps(&steps, &enables, at);
    assert_eq!(first, vec![Undo::RestoreEntry]);
    assert_eq!(second, vec![Undo::RenameBack(1), Undo::RenameBack(0)]);
}

#[test]
fn a_failed_readback_undoes_every_move_in_reverse() {
    let enables = vec![false, true, false];
    let steps = transaction_steps(false, &enables);
    let at = steps.len() - 1;
    assert_eq!(steps[at], TxStep::VerifyEntry);
    let (first, second) = rollback_steps(&steps, &enables, at);
    assert_eq!(first, vec![Undo::RenameBack(2), Undo::RenameBack(0), Undo::RestoreEntry]);
    assert_eq!(second, vec![Undo::RenameBack(1), Undo::RemoveBase]);
}

#[test]
fn the_title_of_a_catalog_action_is_found_by_its_id() {
    assert_eq!(catalog_title(true, &no_facts(), "system.reboot").as_deref(), Some("Reboot device"));
    assert_eq!(catalog_title(true, &no_facts(), "system.nope"), None);
}

#[test]
fn a_dry_run_is_recorded_as_the_newest_run_and_refusals_are_not() {
    let mut log = ControlLog::start(true, ExecutionPolicy::DryRun);
    assert_eq!(log.activity.len(), 1);
    assert_eq!(log.activity.newest(0).kind, "system");
    assert_eq!(log.activity.newest(0).title, "Demo control plane ready");
    let refused = execute_recorded(
        &mut log,
        true,
        &no_facts(),
        ExecutionPolicy::DryRun,
        None,
        "service.ssh-enable",
        false,
    );
    assert!(matches!(refused, Err(ActionError::ConfirmationRequired(_))));
    assert_eq!(log.runs.len(), 0);
    assert_eq!(log.activity.len(), 1);
    let unknown = execute_recorded(&mut log, true, &no_facts(), ExecutionPolicy::DryRun, None, "system.nope", true);
    assert!(matches!(unknown, Err(ActionError::Unknown(id)) if id == "system.nope"));
    assert_eq!(log.runs.len(), 0);
    let done = execute_recorded(&mut log, true, &no_facts(), ExecutionPolicy::DryRun, None, "system.reboot", true);
    assert!(matches!(done, Ok(ExecutionStep::DryRun { .. })));
    assert_eq!(log.runs.len(), 1);
    assert_eq!(log.activity.len(), 2);
    let event = log.activity.newest(0);
    assert_eq!(event.kind, "action");
    assert_eq!(event.title, "Reboot device");
    assert_eq!(event.detail, "Dry run completed; no system state was changed.");
    assert!(event.synthetic);
    assert_eq!(event.id.len(), 36);
    let newest = log.runs.newest(0);
    assert_eq!(newest.action_id, "system.reboot");
    assert_eq!(newest.action_title, "Reboot device");
    assert_eq!(newest.status, ActionStatus::Succeeded);
    assert!(newest.synthetic);
    assert_eq!(newest.summary, "Dry run completed; no system state was changed.");
    assert_eq!(
        newest.output.as_deref(),
        Some("planned steps:\n- Flush pending writes\n- Stop services\n- Request system reboot")
    );
}

const TOKEN: &str = "debian";
const KERNEL: &str = "7.0.11-5-qcom";

fn entry(extra: &str) -> Vec<u8> {
    format!(
        "title Debian\nversion {KERNEL}\nlinux /{TOKEN}/{KERNEL}/linux\ninitrd /{TOKEN}/{KERNEL}/initrd.img\n{extra}"
    )
    .into_bytes()
}

fn pick_entry(names: &[&str], bytes: Vec<Vec<u8>>, files: &[&str]) -> Result<usize, HardwareError> {
    efi_entry(true, TOKEN, KERNEL, &strings(names), &bytes, &strings(files)).map(|e| e.index)
}

#[test]
fn the_entry_of_the_running_kernel_is_chosen_and_checked() {
    let names = ["debian-6.1.conf", "debian-7.0.11-5-qcom.conf", "notes.txt"];
    let bytes = vec![entry(""), entry(""), vec![0xff]];
    let chosen = efi_entry(true, TOKEN, KERNEL, &strings(&names), &bytes, &strings(&["linux", "initrd.img"])).unwrap();
    assert_eq!(chosen.index, 1);
    assert_eq!(chosen.linux, format!("/{TOKEN}/{KERNEL}/linux"));
    assert!(chosen.text.starts_with("title Debian"));
}

#[test]
fn entries_that_cannot_be_managed_are_refused_with_their_reason() {
    let name = ["debian-7.0.11-5-qcom.conf"];
    assert_eq!(
        efi_entry(false, TOKEN, KERNEL, &strings(&name), &vec![entry("")], &strings(&["linux"])).map(|e| e.index),
        Err(HardwareError::Unsupported("EFI Overlay management requires a Device Tree boot.".into()))
    );
    assert_eq!(
        efi_entry(true, "..", KERNEL, &strings(&name), &vec![entry("")], &strings(&["linux"])).map(|e| e.index),
        Err(HardwareError::InvalidInput("unsafe EFI path component".into()))
    );
    assert_eq!(
        pick_entry(&name, vec![vec![0xff, 0xfe]], &["linux"]),
        Err(HardwareError::InvalidInput("non-UTF8 BLS entry".into()))
    );
    assert_eq!(
        pick_entry(&["other.conf"], vec![entry("")], &["linux"]),
        Err(HardwareError::Unsupported("A unique BLS entry for the running kernel was not found.".into()))
    );
    assert_eq!(
        pick_entry(&name, vec![entry("")], &["initrd.img"]),
        Err(HardwareError::InvalidInput("BLS kernel path does not match its version directory".into()))
    );
    assert_eq!(
        pick_entry(&name, vec![entry("uki /EFI/Linux/debian.efi\n")], &["linux"]),
        Err(HardwareError::Unsupported("EFI/UKI executable entries are not editable by the DT backend.".into()))
    );
    assert_eq!(
        pick_entry(&name, vec![b"title x\nversion 6.1\nlinux /debian/6.1/linux\n".to_vec()], &["linux"]),
        Err(HardwareError::InvalidInput("BLS version does not match the running kernel".into()))
    );
}

#[test]
fn completed_renames_are_undone_newest_first() {
    assert_eq!(rsetup::boot_transaction::undo_order(3), vec![2, 1, 0]);
    assert!(rsetup::boot_transaction::undo_order(0).is_empty());
}

#[test]
fn switching_an_overlay_names_both_of_its_files() {
    use_switch();
}

fn use_switch() {
    let on = rsetup::overlay_files::overlay_switch("uart.dtbo", true);
    assert_eq!(on, ("uart.dtbo.disabled".to_string(), "uart.dtbo".to_string()));
    let off = rsetup::overlay_files::overlay_switch("uart.dtbo", false);
    assert_eq!(off, ("uart.dtbo".to_string(), "uart.dtbo.disabled".to_string()));
    assert_eq!(rsetup::overlay_files::overlay_file(&off.1), Some(("uart.dtbo".to_string(), false)));
}

fn run(n: usize) -> RunRecord {
    RunRecord {
        action_id: format!("run-{n}"),
        action_title: format!("Run {n}"),
        status: ActionStatus::Succeeded,
        synthetic: false,
        summary: format!("summary {n}"),
        output: None,
    }
}

#[test]
fn the_log_keeps_the_newest_forty_runs_and_eighty_events() {
    let mut log = ControlLog::start_at(false, ExecutionPolicy::Live, "ready".into(), "2026-01-01T00:00:00+00:00".into());
    assert_eq!(log.activity.newest(0).title, "Local control plane ready");
    assert_eq!(log.activity.newest(0).detail, "Live execution is enabled for the fixed action catalog.");
    for n in 0..100 {
        log.record_run_at(run(n), format!("event-{n}"), "2026-01-01T00:00:01+00:00".into());
    }
    assert_eq!(log.runs.len(), 40);
    assert_eq!(log.activity.len(), 80);
    assert_eq!(log.runs.newest(0).action_id, "run-99");
    assert_eq!(log.runs.newest(39).action_id, "run-60");
    assert_eq!(log.activity.newest(0).id, "event-99");
    assert_eq!(log.activity.newest(0).title, "Run 99");
    assert_eq!(log.activity.newest(0).detail, "summary 99");
    assert_eq!(log.activity.newest(79).id, "event-20");
}
