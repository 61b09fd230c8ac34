//! The fixed catalog of actions the tool offers, when each can run on a
//! live board, and what running one comes down to.
use vstd::prelude::*;
use crate::actions::ActionError;
use crate::model::{push_str, strings_view, ActionSpec, ActionStatus, RiskLevel};
use crate::text::{chars_of, eq_str, join_exec, join_spec, owned, seq_eq, string_of};

verus! {

/// How actions are run: as dry runs that change nothing, or for real.
#[derive(Debug, Clone, Copy, PartialEq, Eq, Structural)]
pub enum ExecutionPolicy {
    DryRun,
    Live,
}

/// An action of the catalog as plain values.
#[verifier::ext_equal]
pub struct CatalogRow {
    pub id: Seq<char>,
    pub title: Seq<char>,
    pub description: Seq<char>,
    pub category: Seq<char>,
    pub risk: RiskLevel,
    pub requires_root: bool,
    pub estimated_seconds: u32,
    pub steps: Seq<Seq<char>>,
    pub command: Option<Seq<Seq<char>>>,
}

/// An action as plain values, leaving out whether it can run.
pub open spec fn action_row(a: ActionSpec) -> CatalogRow {
    CatalogRow {
        id: a.id@,
        title: a.title@,
        description: a.description@,
        category: a.category@,
        risk: a.risk,
        requires_root: a.requires_root,
        estimated_seconds: a.estimated_seconds,
        steps: strings_view(a.steps@),
        command: match a.command {
            Some(c) => Some(strings_view(c@)),
            None => None,
        },
    }
}

/// An available action with the given parts.
pub fn action(
    id: &str,
    title: &str,
    description: &str,
    category: &str,
    risk: RiskLevel,
    requires_root: bool,
    estimated_seconds: u32,
    steps: Vec<String>,
    command: Option<Vec<String>>,
) -> (r: ActionSpec)
    ensures
        action_row(r) == (CatalogRow {
            id: id@,
            title: title@,
            description: description@,
            category: category@,
            risk,
            requires_root,
            estimated_seconds,
            steps: strings_view(steps@),
            command: match command {
                Some(c) => Some(strings_view(c@)),
                None => None,
            },
        }),
        r.available,
        r.unavailable_reason is None,
{
    ActionSpec {
        id: owned(id),
        title: owned(title),
        description: owned(description),
        category: owned(category),
        risk,
        requires_root,
        available: true,
        unavailable_reason: None,
        estimated_seconds,
        steps,
        command,
    }
}

/// Row `i` of the catalog (there are 17).
pub open spec fn catalog_row(i: int) -> CatalogRow {
    if i == 0 {
        CatalogRow {
            id: "system.inspect"@,
            title: "Run system inspection"@,
            description: "Refresh board identity, health signals, services, and detected hardware."@,
            category: "Observe"@,
            risk: RiskLevel::Safe,
            requires_root: false,
            estimated_seconds: 2,
            steps: seq!["Read operating-system and device-tree identity"@, "Probe storage, network, thermal, and services"@, "Recalculate alerts"@],
            command: None,
        }
    } else if i == 1 {
        CatalogRow {
            id: "system.update"@,
            title: "Update operating system"@,
            description: "Refresh package indexes and upgrade installed packages."@,
            category: "Maintain"@,
            risk: RiskLevel::High,
            requires_root: true,
            estimated_seconds: 600,
            steps: seq!["Refresh package metadata"@, "Upgrade installed packages"@, "Report held packages"@],
            command: None,
        }
    } else if i == 2 {
        CatalogRow {
            id: "system.change-sources"@,
            title: "Change package mirrors"@,
            description: "Select a trusted Debian, Ubuntu, and Radxa mirror with a preview, backup, and automatic rollback if package refresh fails."@,
            category: "Maintain"@,
            risk: RiskLevel::Guarded,
            requires_root: true,
            estimated_seconds: 45,
            steps: seq!["Detect managed APT source entries"@, "Preview only recognized Debian, Ubuntu, and Radxa URL changes"@, "Back up and atomically replace affected files"@, "Refresh package metadata or restore the previous files on failure"@],
            command: None,
        }
    } else if i == 3 {
        CatalogRow {
            id: "service.ssh-install"@,
            title: "Install remote shell"@,
            description: "Install the OpenSSH server package without changing its current enablement state."@,
            category: "Connect"@,
            risk: RiskLevel::Guarded,
            requires_root: true,
            estimated_seconds: 90,
            steps: seq!["Install the OpenSSH server package"@, "Refresh the detected SSH service state"@],
            command: None,
        }
    } else if i == 4 {
        CatalogRow {
            id: "service.ssh-enable"@,
            title: "Enable remote shell"@,
            description: "Enable and start SSH. Confirm that remote-login accounts use strong credentials first."@,
            category: "Connect"@,
            risk: RiskLevel::Guarded,
            requires_root: true,
            estimated_seconds: 8,
            steps: seq!["Check SSH service and account security"@, "Enable service at boot"@, "Start the service"@],
            command: Some(seq!["systemctl"@, "enable"@, "--now"@, "ssh.service"@]),
        }
    } else if i == 5 {
        CatalogRow {
            id: "service.ssh-disable"@,
            title: "Disable remote shell"@,
            description: "Stop SSH and prevent it from starting automatically."@,
            category: "Connect"@,
            risk: RiskLevel::High,
            requires_root: true,
            estimated_seconds: 8,
            steps: seq!["Stop the SSH service"@, "Disable automatic startup"@, "Verify the service state"@],
            command: Some(seq!["systemctl"@, "disable"@, "--now"@, "ssh.service"@]),
        }
    } else if i == 6 {
        CatalogRow {
            id: "service.ssh-regenerate-host-keys"@,
            title: "Regenerate SSH host keys"@,
            description: "Replace this device's SSH server identity and restart the service."@,
            category: "Connect"@,
            risk: RiskLevel::High,
            requires_root: true,
            estimated_seconds: 30,
            steps: seq!["Remove existing SSH host key files"@, "Generate a new host key set"@, "Refresh the detected SSH service state"@],
            command: None,
        }
    } else if i == 7 {
        CatalogRow {
            id: "service.ssh-remove"@,
            title: "Remove remote shell"@,
            description: "Remove the OpenSSH server package from this device."@,
            category: "Connect"@,
            risk: RiskLevel::High,
            requires_root: true,
            estimated_seconds: 90,
            steps: seq!["Remove the OpenSSH server package"@, "Refresh the detected SSH service state"@],
            command: None,
        }
    } else if i == 8 {
        CatalogRow {
            id: "network.restart"@,
            title: "Restart network manager"@,
            description: "Restart NetworkManager and re-evaluate local interfaces."@,
            category: "Connect"@,
            risk: RiskLevel::High,
            requires_root: true,
            estimated_seconds: 20,
            steps: seq!["Record active interfaces"@, "Restart NetworkManager"@, "Wait for interface recovery"@],
            command: Some(seq!["systemctl"@, "restart"@, "NetworkManager.service"@]),
        }
    } else if i == 9 {
        CatalogRow {
            id: "service.docker-install"@,
            title: "Install container runtime"@,
            description: "Install the distribution Docker package without enabling the service."@,
            category: "Services"@,
            risk: RiskLevel::Guarded,
            requires_root: true,
            estimated_seconds: 180,
            steps: seq!["Install the Docker package"@, "Refresh the detected Docker service state"@],
            command: None,
        }
    } else if i == 10 {
        CatalogRow {
            id: "service.docker-enable"@,
            title: "Enable container runtime"@,
            description: "Enable and start the Docker service."@,
            category: "Services"@,
            risk: RiskLevel::Guarded,
            requires_root: true,
            estimated_seconds: 15,
            steps: seq!["Enable the Docker service at boot"@, "Start the Docker service"@, "Verify the service state"@],
            command: Some(seq!["systemctl"@, "enable"@, "--now"@, "docker.service"@]),
        }
    } else if i == 11 {
        CatalogRow {
            id: "service.docker-disable"@,
            title: "Disable container runtime"@,
            description: "Stop Docker and prevent it from starting automatically."@,
            category: "Services"@,
            risk: RiskLevel::High,
            requires_root: true,
            estimated_seconds: 20,
            steps: seq!["Stop running containers through the Docker service"@, "Disable automatic startup"@, "Verify the service state"@],
            command: Some(seq!["systemctl"@, "disable"@, "--now"@, "docker.service"@]),
        }
    } else if i == 12 {
        CatalogRow {
            id: "service.docker-remove"@,
            title: "Remove container runtime"@,
            description: "Remove the distribution Docker package while retaining container data."@,
            category: "Services"@,
            risk: RiskLevel::High,
            requires_root: true,
            estimated_seconds: 120,
            steps: seq!["Remove the Docker package"@, "Keep existing images and container data under /var/lib/docker"@],
            command: None,
        }
    } else if i == 13 {
        CatalogRow {
            id: "storage.expand-root"@,
            title: "Expand root filesystem"@,
            description: "Grow the supported root filesystem to occupy available storage."@,
            category: "Storage"@,
            risk: RiskLevel::High,
            requires_root: true,
            estimated_seconds: 120,
            steps: seq!["Resolve root block device"@, "Validate ext4 or btrfs"@, "Expand filesystem"@, "Verify resulting capacity"@],
            command: None,
        }
    } else if i == 14 {
        CatalogRow {
            id: "power.enable-sleep"@,
            title: "Enable sleep and hibernate"@,
            description: "Restore systemd sleep and hibernate targets."@,
            category: "Power"@,
            risk: RiskLevel::Guarded,
            requires_root: true,
            estimated_seconds: 5,
            steps: seq!["Unmask sleep targets"@, "Reload systemd"@, "Verify target state"@],
            command: None,
        }
    } else if i == 15 {
        CatalogRow {
            id: "power.disable-sleep"@,
            title: "Disable sleep and hibernate"@,
            description: "Keep the SBC available by masking system sleep and hibernate targets."@,
            category: "Power"@,
            risk: RiskLevel::Guarded,
            requires_root: true,
            estimated_seconds: 5,
            steps: seq!["Mask sleep targets"@, "Reload systemd"@, "Verify target state"@],
            command: None,
        }
    } else {
        CatalogRow {
            id: "system.reboot"@,
            title: "Reboot device"@,
            description: "Stop services and reboot the local board immediately."@,
            category: "Power"@,
            risk: RiskLevel::Critical,
            requires_root: true,
            estimated_seconds: 60,
            steps: seq!["Flush pending writes"@, "Stop services"@, "Request system reboot"@],
            command: Some(seq!["systemctl"@, "reboot"@]),
        }
    }
}

/// Row `i` of the catalog, available.
fn catalog_entry(i: usize) -> (r: ActionSpec)
    requires
        i < 17,
    ensures
        action_row(r) == catalog_row(i as int),
        r.available,
        r.unavailable_reason is None,
{
    if i == 0 {
        let mut steps: Vec<String> = Vec::new();
        push_str(&mut steps, "Read operating-system and device-tree identity");
        push_str(&mut steps, "Probe storage, network, thermal, and services");
        push_str(&mut steps, "Recalculate alerts");
        action(
            "system.inspect",
            "Run system inspection",
            "Refresh board identity, health signals, services, and detected hardware.",
            "Observe",
            RiskLevel::Safe,
            false,
            2,
            steps,
            None,
        )
    } else if i == 1 {
        let mut steps: Vec<String> = Vec::new();
        push_str(&mut steps, "Refresh package metadata");
        push_str(&mut steps, "Upgrade installed packages");
        push_str(&mut steps, "Report held packages");
        action(
            "system.update",
            "Update operating system",
            "Refresh package indexes and upgrade installed packages.",
            "Maintain",
            RiskLevel::High,
            true,
            600,
            steps,
            None,
        )
    } else if i == 2 {
        let mut steps: Vec<String> = Vec::new();
        push_str(&mut steps, "Detect managed APT source entries");
        push_str(&mut steps, "Preview only recognized Debian, Ubuntu, and Radxa URL changes");
        push_str(&mut steps, "Back up and atomically replace affected files");
        push_str(&mut steps, "Refresh package metadata or restore the previous files on failure");
        action(
            "system.change-sources",
            "Change package mirrors",
            "Select a trusted Debian, Ubuntu, and Radxa mirror with a preview, backup, and automatic rollback if package refresh fails.",
            "Maintain",
            RiskLevel::Guarded,
            true,
            45,
            steps,
            None,
        )
    } else if i == 3 {
        let mut steps: Vec<String> = Vec::new();
        push_str(&mut steps, "Install the OpenSSH server package");
        push_str(&mut steps, "Refresh the detected SSH service state");
        action(
            "service.ssh-install",
            "Install remote shell",
            "Install the OpenSSH server package without changing its current enablement state.",
            "Connect",
            RiskLevel::Guarded,
            true,
            90,
            steps,
            None,
        )
    } else if i == 4 {
        let mut steps: Vec<String> = Vec::new();
        push_str(&mut steps, "Check SSH service and account security");
        push_str(&mut steps, "Enable service at boot");
        push_str(&mut steps, "Start the service");
        let mut command: Vec<String> = Vec::new();
        push_str(&mut command, "systemctl");
        push_str(&mut command, "enable");
        push_str(&mut command, "--now");
        push_str(&mut command, "ssh.service");
        action(
            "service.ssh-enable",
            "Enable remote shell",
            "Enable and start SSH. Confirm that remote-login accounts use strong credentials first.",
            "Connect",
            RiskLevel::Guarded,
            true,
            8,
            steps,
            Some(command),
        )
    } else if i == 5 {
        let mut steps: Vec<String> = Vec::new();
        push_str(&mut steps, "Stop the SSH service");
        push_str(&mut steps, "Disable automatic startup");
        push_str(&mut steps, "Verify the service state");
        let mut command: Vec<String> = Vec::new();
        push_str(&mut command, "systemctl");
        push_str(&mut command, "disable");
        push_str(&mut command, "--now");
        push_str(&mut command, "ssh.service");
        action(
            "service.ssh-disable",
            "Disable remote shell",
            "Stop SSH and prevent it from starting automatically.",
            "Connect",
            RiskLevel::High,
            true,
            8,
            steps,
            Some(command),
        )
    } else if i == 6 {
        let mut steps: Vec<String> = Vec::new();
        push_str(&mut steps, "Remove existing SSH host key files");
        push_str(&mut steps, "Generate a new host key set");
        push_str(&mut steps, "Refresh the detected SSH service state");
        action(
            "service.ssh-regenerate-host-keys",
            "Regenerate SSH host keys",
            "Replace this device's SSH server identity and restart the service.",
            "Connect",
            RiskLevel::High,
            true,
            30,
            steps,
            None,
        )
    } else if i == 7 {
        let mut steps: Vec<String> = Vec::new();
        push_str(&mut steps, "Remove the OpenSSH server package");
        push_str(&mut steps, "Refresh the detected SSH service state");
        action(
            "service.ssh-remove",
            "Remove remote shell",
            "Remove the OpenSSH server package from this device.",
            "Connect",
            RiskLevel::High,
            true,
            90,
            steps,
            None,
        )
    } else if i == 8 {
        let mut steps: Vec<String> = Vec::new();
        push_str(&mut steps, "Record active interfaces");
        push_str(&mut steps, "Restart NetworkManager");
        push_str(&mut steps, "Wait for interface recovery");
        let mut command: Vec<String> = Vec::new();
        push_str(&mut command, "systemctl");
        push_str(&mut command, "restart");
        push_str(&mut command, "NetworkManager.service");
        action(
            "network.restart",
            "Restart network manager",
            "Restart NetworkManager and re-evaluate local interfaces.",
            "Connect",
            RiskLevel::High,
            true,
            20,
            steps,
            Some(command),
        )
    } else if i == 9 {
        let mut steps: Vec<String> = Vec::new();
        push_str(&mut steps, "Install the Docker package");
        push_str(&mut steps, "Refresh the detected Docker service state");
        action(
            "service.docker-install",
            "Install container runtime",
            "Install the distribution Docker package without enabling the service.",
            "Services",
            RiskLevel::Guarded,
            true,
            180,
            steps,
            None,
        )
    } else if i == 10 {
        let mut steps: Vec<String> = Vec::new();
        push_str(&mut steps, "Enable the Docker service at boot");
        push_str(&mut steps, "Start the Docker service");
        push_str(&mut steps, "Verify the service state");
        let mut command: Vec<String> = Vec::new();
        push_str(&mut command, "systemctl");
        push_str(&mut command, "enable");
        push_str(&mut command, "--now");
        push_str(&mut command, "docker.service");
        action(
            "service.docker-enable",
            "Enable container runtime",
            "Enable and start the Docker service.",
            "Services",
            RiskLevel::Guarded,
            true,
            15,
            steps,
            Some(command),
        )
    } else if i == 11 {
        let mut steps: Vec<String> = Vec::new();
        push_str(&mut steps, "Stop running containers through the Docker service");
        push_str(&mut steps, "Disable automatic startup");
        push_str(&mut steps, "Verify the service state");
        let mut command: Vec<String> = Vec::new();
        push_str(&mut command, "systemctl");
        push_str(&mut command, "disable");
        push_str(&mut command, "--now");
        push_str(&mut command, "docker.service");
        action(
            "service.docker-disable",
            "Disable container runtime",
            "Stop Docker and prevent it from starting automatically.",
            "Services",
            RiskLevel::High,
            true,
            20,
            steps,
            Some(command),
        )
    } else if i == 12 {
        let mut steps: Vec<String> = Vec::new();
        push_str(&mut steps, "Remove the Docker package");
        push_str(&mut steps, "Keep existing images and container data under /var/lib/docker");
        action(
            "service.docker-remove",
            "Remove container runtime",
            "Remove the distribution Docker package while retaining container data.",
            "Services",
            RiskLevel::High,
            true,
            120,
            steps,
            None,
        )
    } else if i == 13 {
        let mut steps: Vec<String> = Vec::new();
        push_str(&mut steps, "Resolve root block device");
        push_str(&mut steps, "Validate ext4 or btrfs");
        push_str(&mut steps, "Expand filesystem");
        push_str(&mut steps, "Verify resulting capacity");
        action(
            "storage.expand-root",
            "Expand root filesystem",
            "Grow the supported root filesystem to occupy available storage.",
            "Storage",
            RiskLevel::High,
            true,
            120,
            steps,
            None,
        )
    } else if i == 14 {
        let mut steps: Vec<String> = Vec::new();
        push_str(&mut steps, "Unmask sleep targets");
        push_str(&mut steps, "Reload systemd");
        push_str(&mut steps, "Verify target state");
        action(
            "power.enable-sleep",
            "Enable sleep and hibernate",
            "Restore systemd sleep and hibernate targets.",
            "Power",
            RiskLevel::Guarded,
            true,
            5,
            steps,
            None,
        )
    } else if i == 15 {
        let mut steps: Vec<String> = Vec::new();
        push_str(&mut steps, "Mask sleep targets");
        push_str(&mut steps, "Reload systemd");
        push_str(&mut steps, "Verify target state");
        action(
            "power.disable-sleep",
            "Disable sleep and hibernate",
            "Keep the SBC available by masking system sleep and hibernate targets.",
            "Power",
            RiskLevel::Guarded,
            true,
            5,
            steps,
            None,
        )
    } else {
        let mut steps: Vec<String> = Vec::new();
        push_str(&mut steps, "Flush pending writes");
        push_str(&mut steps, "Stop services");
        push_str(&mut steps, "Request system reboot");
        let mut command: Vec<String> = Vec::new();
        push_str(&mut command, "systemctl");
        push_str(&mut command, "reboot");
        action(
            "system.reboot",
            "Reboot device",
            "Stop services and reboot the local board immediately.",
            "Power",
            RiskLevel::Critical,
            true,
            60,
            steps,
            Some(command),
        )
    }
}


// ----------------------------------------------------------------------
// Availability on a live board
// ----------------------------------------------------------------------

/// What a live board shows of itself, as far as the catalog asks: the
/// programs found on the `PATH`, the installed packages, and the systemd
/// units that are installed, enabled, active and masked.
#[derive(Debug, Clone)]
pub struct HostFacts {
    pub commands: Vec<String>,
    pub packages: Vec<String>,
    pub units: Vec<String>,
    pub enabled_units: Vec<String>,
    pub active_units: Vec<String>,
    pub masked_units: Vec<String>,
}

/// `s` is one of the strings of `v`.
pub open spec fn listed(v: Seq<String>, s: Seq<char>) -> bool {
    strings_view(v).contains(s)
}

/// Whether `s` is one of the strings of `v`.
pub fn is_listed(v: &Vec<String>, s: &str) -> (r: bool)
    ensures
        r == listed(v@, s@),
{
    let k = chars_of(s);
    let mut i: usize = 0;
    while i < v.len()
        invariant
            i <= v.len(),
            k@ == s@,
            forall|j: int| 0 <= j < i ==> strings_view(v@)[j] != s@,
        decreases v.len() - i,
    {
        let c = chars_of(v[i].as_str());
        if seq_eq(&c, &k) {
            assert(strings_view(v@)[i as int] == s@);
            return true;
        }
        i = i + 1;
    }
    proof {
        if strings_view(v@).contains(s@) {
            let j = choose|j: int| 0 <= j < strings_view(v@).len() && strings_view(v@)[j] == s@;
            assert(strings_view(v@)[j] != s@);
        }
    }
    false
}

/// The programs of `programs` that are not on the `PATH`.
pub open spec fn missing_programs(programs: Seq<Seq<char>>, h: HostFacts) -> Seq<Seq<char>> {
    programs.filter(|p: Seq<char>| !listed(h.commands@, p))
}

/// Why an action needing `programs` cannot run: the ones not on the
/// `PATH`, in order; none when all are.
pub open spec fn missing_spec(programs: Seq<Seq<char>>, h: HostFacts) -> Option<Seq<char>> {
    let missing = missing_programs(programs, h);
    if missing.len() == 0 {
        None
    } else {
        Some("Missing required command(s): "@ + join_spec(missing, ", "@) + "."@)
    }
}

/// Why an action needing `programs` cannot run (see [`missing_spec`]).
pub fn missing_commands(programs: &Vec<String>, h: &HostFacts) -> (r: Option<String>)
    ensures
        opt_view(r) == missing_spec(strings_view(programs@), *h),
{
    let ghost pv = strings_view(programs@);
    let mut missing: Vec<String> = Vec::new();
    let mut i: usize = 0;
    while i < programs.len()
        invariant
            i <= programs.len(),
            pv == strings_view(programs@),
            strings_view(missing@) == missing_programs(pv.take(i as int), *h),
        decreases programs.len() - i,
    {
        let found = is_listed(&h.commands, programs[i].as_str());
        proof {
            let t = pv.take(i as int);
            let item = pv[i as int];
            assert(pv.take(i + 1) =~= t.push(item));
            assert(t.push(item).filter(|p: Seq<char>| !listed(h.commands@, p)) == if !listed(
                h.commands@,
                item,
            ) {
                t.filter(|p: Seq<char>| !listed(h.commands@, p)).push(item)
            } else {
                t.filter(|p: Seq<char>| !listed(h.commands@, p))
            }) by {
                reveal(Seq::filter);
                assert(t.push(item).drop_last() =~= t);
            }
        }
        if !found {
            push_str(&mut missing, programs[i].as_str());
        }
        i = i + 1;
    }
    assert(pv.take(programs@.len() as int) =~= pv);
    if missing.len() == 0 {
        None
    } else {
        let joined = join_exec(&missing, ", ");
        let mut v = chars_of("Missing required command(s): ");
        crate::text::extend_str(&mut v, joined.as_str());
        crate::text::extend_str(&mut v, ".");
        Some(string_of(&v))
    }
}

/// The characters of an optional string.
pub open spec fn opt_view(o: Option<String>) -> Option<Seq<char>> {
    match o {
        Some(s) => Some(s@),
        None => None,
    }
}

/// The first reason of two that is given.
pub open spec fn or_else(a: Option<Seq<char>>, b: Option<Seq<char>>) -> Option<Seq<char>> {
    if a is Some {
        a
    } else {
        b
    }
}

/// The list of one program.
fn programs1(a: &str) -> (r: Vec<String>)
    ensures
        strings_view(r@) == seq![a@],
{
    let mut v: Vec<String> = Vec::new();
    push_str(&mut v, a);
    v
}

/// The list of two programs.
fn programs2(a: &str, b: &str) -> (r: Vec<String>)
    ensures
        strings_view(r@) == seq![a@, b@],
{
    let mut v: Vec<String> = Vec::new();
    push_str(&mut v, a);
    push_str(&mut v, b);
    v
}

/// Why an action on package `p` cannot run: the package is not installed.
pub open spec fn package_only_spec(p: Seq<char>, h: HostFacts) -> Option<Seq<char>> {
    if listed(h.packages@, p) {
        None
    } else {
        Some("Package "@ + p + " is not installed."@)
    }
}

fn package_only_unavailable(p: &str, h: &HostFacts) -> (r: Option<String>)
    ensures
        opt_view(r) == package_only_spec(p@, *h),
{
    if is_listed(&h.packages, p) {
        None
    } else {
        let mut v = chars_of("Package ");
        crate::text::extend_str(&mut v, p);
        crate::text::extend_str(&mut v, " is not installed.");
        Some(string_of(&v))
    }
}

/// Why an action on systemd unit `u` cannot run: `systemctl` is missing,
/// or the unit is not installed.
pub open spec fn service_action_spec(u: Seq<char>, h: HostFacts) -> Option<Seq<char>> {
    or_else(
        missing_spec(seq!["systemctl"@], h),
        if listed(h.units@, u) {
            None
        } else {
            Some("Systemd unit "@ + u + " is not installed."@)
        },
    )
}

fn service_action_unavailable(u: &str, h: &HostFacts) -> (r: Option<String>)
    ensures
        opt_view(r) == service_action_spec(u@, *h),
{
    let m = missing_commands(&programs1("systemctl"), h);
    if m.is_some() {
        return m;
    }
    if is_listed(&h.units, u) {
        None
    } else {
        let mut v = chars_of("Systemd unit ");
        crate::text::extend_str(&mut v, u);
        crate::text::extend_str(&mut v, " is not installed.");
        Some(string_of(&v))
    }
}

/// Why an action on package `p` and its unit `u` cannot run.
pub open spec fn package_action_spec(p: Seq<char>, u: Seq<char>, h: HostFacts) -> Option<Seq<char>> {
    or_else(package_only_spec(p, h), service_action_spec(u, h))
}

fn package_action_unavailable(p: &str, u: &str, h: &HostFacts) -> (r: Option<String>)
    ensures
        opt_view(r) == package_action_spec(p@, u@, *h),
{
    let a = package_only_unavailable(p, h);
    if a.is_some() {
        a
    } else {
        service_action_unavailable(u, h)
    }
}

/// Why enabling the service `u` of package `p` cannot run: as for any
/// action on them, or because it is already enabled and running
/// (`current`).
pub open spec fn service_enable_spec(p: Seq<char>, u: Seq<char>, current: Seq<char>, h: HostFacts) -> Option<
    Seq<char>,
> {
    or_else(
        package_action_spec(p, u, h),
        if listed(h.enabled_units@, u) && listed(h.active_units@, u) {
            Some(current)
        } else {
            None
        },
    )
}

fn service_enable_unavailable(p: &str, u: &str, current: &str, h: &HostFacts) -> (r: Option<String>)
    ensures
        opt_view(r) == service_enable_spec(p@, u@, current@, *h),
{
    let a = package_action_unavailable(p, u, h);
    if a.is_some() {
        a
    } else if is_listed(&h.enabled_units, u) && is_listed(&h.active_units, u) {
        Some(owned(current))
    } else {
        None
    }
}

/// Why disabling the service `u` of package `p` cannot run: as for any
/// action on them, or because it is already disabled and stopped
/// (`current`).
pub open spec fn service_disable_spec(p: Seq<char>, u: Seq<char>, current: Seq<char>, h: HostFacts) -> Option<
    Seq<char>,
> {
    or_else(
        package_action_spec(p, u, h),
        if !listed(h.enabled_units@, u) && !listed(h.active_units@, u) {
            Some(current)
        } else {
            None
        },
    )
}

fn service_disable_unavailable(p: &str, u: &str, current: &str, h: &HostFacts) -> (r: Option<String>)
    ensures
        opt_view(r) == service_disable_spec(p@, u@, current@, *h),
{
    let a = package_action_unavailable(p, u, h);
    if a.is_some() {
        a
    } else if !is_listed(&h.enabled_units, u) && !is_listed(&h.active_units, u) {
        Some(owned(current))
    } else {
        None
    }
}

/// Some of the systemd sleep and hibernate targets are masked.
pub open spec fn some_sleep_masked(h: HostFacts) -> bool {
    let m = h.masked_units@;
    listed(m, "sleep.target"@) || listed(m, "suspend.target"@) || listed(m, "hibernate.target"@)
        || listed(m, "hybrid-sleep.target"@) || listed(m, "suspend-then-hibernate.target"@)
}

/// All of the systemd sleep and hibernate targets are masked.
pub open spec fn all_sleep_masked(h: HostFacts) -> bool {
    let m = h.masked_units@;
    listed(m, "sleep.target"@) && listed(m, "suspend.target"@) && listed(m, "hibernate.target"@)
        && listed(m, "hybrid-sleep.target"@) && listed(m, "suspend-then-hibernate.target"@)
}

/// Why the action `id` cannot run on a live board that shows `h`; none
/// when it can.
pub open spec fn unavailable_spec(id: Seq<char>, h: HostFacts) -> Option<Seq<char>> {
    if id == "system.update"@ {
        missing_spec(seq!["apt-get"@, "apt-mark"@], h)
    } else if id == "system.change-sources"@ {
        missing_spec(seq!["apt-get"@], h)
    } else if id == "service.ssh-install"@ {
        if listed(h.packages@, "openssh-server"@) {
            Some("OpenSSH server is already installed."@)
        } else {
            missing_spec(seq!["apt-get"@], h)
        }
    } else if id == "service.ssh-enable"@ {
        service_enable_spec("openssh-server"@, "ssh.service"@, "SSH is already enabled and running."@, h)
    } else if id == "service.ssh-disable"@ {
        service_disable_spec("openssh-server"@, "ssh.service"@, "SSH is already disabled and stopped."@, h)
    } else if id == "service.ssh-regenerate-host-keys"@ {
        or_else(
            package_action_spec("openssh-server"@, "ssh.service"@, h),
            missing_spec(seq!["dpkg-reconfigure"@], h),
        )
    } else if id == "service.ssh-remove"@ {
        or_else(package_only_spec("openssh-server"@, h), missing_spec(seq!["apt-get"@], h))
    } else if id == "network.restart"@ {
        service_action_spec("NetworkManager.service"@, h)
    } else if id == "service.docker-install"@ {
        if listed(h.packages@, "docker.io"@) {
            Some("Docker is already installed."@)
        } else {
            missing_spec(seq!["apt-get"@], h)
        }
    } else if id == "service.docker-enable"@ {
        service_enable_spec("docker.io"@, "docker.service"@, "Docker is already enabled and running."@, h)
    } else if id == "service.docker-disable"@ {
        service_disable_spec("docker.io"@, "docker.service"@, "Docker is already disabled and stopped."@, h)
    } else if id == "service.docker-remove"@ {
        or_else(package_only_spec("docker.io"@, h), missing_spec(seq!["apt-get"@], h))
    } else if id == "storage.expand-root"@ {
        or_else(
            missing_spec(seq!["findmnt"@, "blkid"@], h),
            if listed(h.commands@, "resize2fs"@) || listed(h.commands@, "btrfs"@) {
                None
            } else {
                Some("Neither resize2fs nor btrfs is installed."@)
            },
        )
    } else if id == "power.enable-sleep"@ {
        or_else(
            missing_spec(seq!["systemctl"@], h),
            if !some_sleep_masked(h) {
                Some("Sleep and hibernate targets are already enabled."@)
            } else {
                None
            },
        )
    } else if id == "power.disable-sleep"@ {
        or_else(
            missing_spec(seq!["systemctl"@], h),
            if all_sleep_masked(h) {
                Some("Sleep and hibernate targets are already disabled."@)
            } else {
                None
            },
        )
    } else if id == "system.reboot"@ {
        missing_spec(seq!["systemctl"@], h)
    } else {
        None
    }
}

/// Why the action `id` cannot run on a live board (see
/// [`unavailable_spec`]).
pub fn live_unavailable_reason(id: &str, h: &HostFacts) -> (r: Option<String>)
    ensures
        opt_view(r) == unavailable_spec(id@, *h),
{
    let k = chars_of(id);
    if eq_str(&k, "system.update") {
        missing_commands(&programs2("apt-get", "apt-mark"), h)
    } else if eq_str(&k, "system.change-sources") {
        missing_commands(&programs1("apt-get"), h)
    } else if eq_str(&k, "service.ssh-install") {
        if is_listed(&h.packages, "openssh-server") {
            Some(owned("OpenSSH server is already installed."))
        } else {
            missing_commands(&programs1("apt-get"), h)
        }
    } else if eq_str(&k, "service.ssh-enable") {
        service_enable_unavailable("openssh-server", "ssh.service", "SSH is already enabled and running.", h)
    } else if eq_str(&k, "service.ssh-disable") {
        service_disable_unavailable("openssh-server", "ssh.service", "SSH is already disabled and stopped.", h)
    } else if eq_str(&k, "service.ssh-regenerate-host-keys") {
        let a = package_action_unavailable("openssh-server", "ssh.service", h);
        if a.is_some() {
            a
        } else {
            missing_commands(&programs1("dpkg-reconfigure"), h)
        }
    } else if eq_str(&k, "service.ssh-remove") {
        let a = package_only_unavailable("openssh-server", h);
        if a.is_some() {
            a
        } else {
            missing_commands(&programs1("apt-get"), h)
        }
    } else if eq_str(&k, "network.restart") {
        service_action_unavailable("NetworkManager.service", h)
    } else if eq_str(&k, "service.docker-install") {
        if is_listed(&h.packages, "docker.io") {
            Some(owned("Docker is already installed."))
        } else {
            missing_commands(&programs1("apt-get"), h)
        }
    } else if eq_str(&k, "service.docker-enable") {
        service_enable_unavailable("docker.io", "docker.service", "Docker is already enabled and running.", h)
    } else if eq_str(&k, "service.docker-disable") {
        service_disable_unavailable("docker.io", "docker.service", "Docker is already disabled and stopped.", h)
    } else if eq_str(&k, "service.docker-remove") {
        let a = package_only_unavailable("docker.io", h);
        if a.is_some() {
            a
        } else {
            missing_commands(&programs1("apt-get"), h)
        }
    } else if eq_str(&k, "storage.expand-root") {
        let a = missing_commands(&programs2("findmnt", "blkid"), h);
        if a.is_some() {
            a
        } else if is_listed(&h.commands, "resize2fs") || is_listed(&h.commands, "btrfs") {
            None
        } else {
            Some(owned("Neither resize2fs nor btrfs is installed."))
        }
    } else if eq_str(&k, "power.enable-sleep") {
        let a = missing_commands(&programs1("systemctl"), h);
        if a.is_some() {
            a
        } else if !(is_listed(&h.masked_units, "sleep.target") || is_listed(&h.masked_units, "suspend.target")
            || is_listed(&h.masked_units, "hibernate.target") || is_listed(&h.masked_units, "hybrid-sleep.target")
            || is_listed(&h.masked_units, "suspend-then-hibernate.target")) {
            Some(owned("Sleep and hibernate targets are already enabled."))
        } else {
            None
        }
    } else if eq_str(&k, "power.disable-sleep") {
        let a = missing_commands(&programs1("systemctl"), h);
        if a.is_some() {
            a
        } else if is_listed(&h.masked_units, "sleep.target") && is_listed(&h.masked_units, "suspend.target")
            && is_listed(&h.masked_units, "hibernate.target") && is_listed(&h.masked_units, "hybrid-sleep.target")
            && is_listed(&h.masked_units, "suspend-then-hibernate.target") {
            Some(owned("Sleep and hibernate targets are already disabled."))
        } else {
            None
        }
    } else if eq_str(&k, "system.reboot") {
        missing_commands(&programs1("systemctl"), h)
    } else {
        None
    }
}

/// An action as a live board that shows `h` offers it: unavailable, with
/// the reason, when [`unavailable_spec`] gives one; otherwise as it was.
pub open spec fn live_action(old: ActionSpec, new: ActionSpec, h: HostFacts) -> bool {
    &&& action_row(new) == action_row(old)
    &&& match unavailable_spec(old.id@, h) {
        Some(m) => !new.available && opt_view(new.unavailable_reason) == Some(m),
        None => new.available == old.available && opt_view(new.unavailable_reason) == opt_view(
            old.unavailable_reason,
        ),
    }
}

/// Marks each action that cannot run on a live board that shows `h`
/// unavailable, with the reason.
pub fn apply_live_availability(actions: &mut Vec<ActionSpec>, h: &HostFacts)
    ensures
        final(actions)@.len() == old(actions)@.len(),
        forall|i: int| 0 <= i < old(actions)@.len() ==> live_action(#[trigger] old(actions)@[i], final(actions)@[i], *h),
{
    let ghost before = actions@;
    let mut i: usize = 0;
    while i < actions.len()
        invariant
            i <= actions@.len(),
            actions@.len() == before.len(),
            forall|j: int| 0 <= j < i ==> live_action(#[trigger] before[j], actions@[j], *h),
            forall|j: int| i <= j < actions@.len() ==> actions@[j] == before[j],
        decreases actions@.len() - i,
    {
        let mut a = actions.remove(i);
        assert(a == before[i as int]);
        let reason = live_unavailable_reason(a.id.as_str(), h);
        match reason {
            Some(m) => {
                a.available = false;
                a.unavailable_reason = Some(m);
            },
            None => {},
        }
        actions.insert(i, a);
        i = i + 1;
    }
}

/// The catalog: every row of [`catalog_row`], in order; all available on a
/// demo board, and on a live board as [`apply_live_availability`] leaves
/// them.
pub fn action_catalog(synthetic: bool, h: &HostFacts) -> (r: Vec<ActionSpec>)
    ensures
        r@.len() == 17,
        forall|i: int| 0 <= i < 17 ==> action_row(#[trigger] r@[i]) == catalog_row(i),
        forall|i: int|
            0 <= i < 17 ==> (#[trigger] r@[i]).available == (synthetic || unavailable_spec(catalog_row(i).id, *h) is None),
        forall|i: int|
            0 <= i < 17 ==> opt_view((#[trigger] r@[i]).unavailable_reason) == if synthetic {
                None
            } else {
                unavailable_spec(catalog_row(i).id, *h)
            },
{
    let mut actions: Vec<ActionSpec> = Vec::new();
    let mut i: usize = 0;
    while i < 17
        invariant
            i <= 17,
            actions@.len() == i,
            forall|j: int|
                0 <= j < i ==> action_row(#[trigger] actions@[j]) == catalog_row(j) && actions@[j].available
                    && actions@[j].unavailable_reason is None,
        decreases 17 - i,
    {
        actions.push(catalog_entry(i));
        i = i + 1;
    }
    if !synthetic {
        let ghost before = actions@;
        apply_live_availability(&mut actions, h);
        assert forall|j: int| 0 <= j < 17 implies action_row(#[trigger] actions@[j]) == catalog_row(j) by {
            assert(live_action(before[j], actions@[j], *h));
        }
        assert forall|j: int| 0 <= j < 17 implies (#[trigger] actions@[j]).available == unavailable_spec(
            catalog_row(j).id,
            *h,
        ) is None by {
            assert(live_action(before[j], actions@[j], *h));
        }
        assert forall|j: int| 0 <= j < 17 implies opt_view((#[trigger] actions@[j]).unavailable_reason)
            == unavailable_spec(catalog_row(j).id, *h) by {
            assert(live_action(before[j], actions@[j], *h));
        }
    }
    actions
}

// ----------------------------------------------------------------------
// Running an action
// ----------------------------------------------------------------------

/// The first row of the catalog at or after `from` whose id is `id`.
pub open spec fn catalog_index_from(id: Seq<char>, from: int) -> Option<int>
    decreases 17 - from,
{
    if from < 0 || from >= 17 {
        None
    } else if catalog_row(from).id == id {
        Some(from)
    } else {
        catalog_index_from(id, from + 1)
    }
}

/// The row of the catalog whose id is `id`.
pub open spec fn catalog_index(id: Seq<char>) -> Option<int> {
    catalog_index_from(id, 0)
}

proof fn lemma_catalog_index_from(id: Seq<char>, from: int, k: int)
    requires
        0 <= from <= k <= 17,
        forall|j: int| from <= j < k ==> catalog_row(j).id != id,
    ensures
        k < 17 && catalog_row(k).id == id ==> catalog_index_from(id, from) == Some(k),
        k == 17 ==> catalog_index_from(id, from) is None,
    decreases k - from,
{
    if from < k {
        lemma_catalog_index_from(id, from + 1, k);
    }
}

/// What running an action comes down to.
#[derive(Debug, Clone)]
pub enum ExecutionStep {
    /// Hand the action to the privileged helper.
    Privileged { id: String, title: String },
    /// Run nothing: the run succeeds with this summary and output.
    DryRun { summary: String, output: String },
    /// Run this program with these arguments.
    Command { program: String, args: Vec<String> },
    /// Run the built-in executor of the action.
    Builtin { id: String },
}

/// The output of a dry run of an action with these steps.
pub open spec fn dry_run_output(steps: Seq<Seq<char>>) -> Seq<char> {
    "planned steps:\n- "@ + join_spec(steps, "\n- "@)
}

/// What asking to run the action `id` (`confirmed` or not) comes to, on a
/// board that is a demo one (`synthetic`) or shows `h`, under `policy`,
/// for a user whose id is `uid` (`None` when it is unknown): an unknown
/// id, an action that cannot run here, the mirror change (which needs
/// guided input) and a risky action not confirmed are refused, in that
/// order; an action that needs root, run for real by another user, goes to
/// the privileged helper; a dry run runs nothing; otherwise the action's
/// command runs, or its built-in executor when it has none.
pub open spec fn execution_spec(
    synthetic: bool,
    h: HostFacts,
    policy: ExecutionPolicy,
    uid: Option<u32>,
    id: Seq<char>,
    confirmed: bool,
    r: Result<ExecutionStep, ActionError>,
) -> bool {
    match catalog_index(id) {
        None => r matches Err(ActionError::Unknown(x)) && x@ == id,
        Some(k) => {
            let row = catalog_row(k);
            if !(synthetic || unavailable_spec(row.id, h) is None) {
                r matches Err(ActionError::Unavailable(t)) && t@ == row.title
            } else if row.id == "system.change-sources"@ {
                r matches Err(ActionError::InputRequired(t)) && t@ == row.title
            } else if row.risk != RiskLevel::Safe && !confirmed {
                r matches Err(ActionError::ConfirmationRequired(t)) && t@ == row.title
            } else if policy == ExecutionPolicy::Live && row.requires_root && uid != Some(0u32) {
                r matches Ok(ExecutionStep::Privileged { id: i, title: t }) && i@ == row.id && t@ == row.title
            } else if policy == ExecutionPolicy::DryRun {
                r matches Ok(ExecutionStep::DryRun { summary, output }) && summary@
                    == "Dry run completed; no system state was changed."@ && output@ == dry_run_output(
                    row.steps,
                )
            } else {
                match row.command {
                    Some(c) => r matches Ok(ExecutionStep::Command { program, args }) && program@ == c[0]
                        && strings_view(args@) == c.drop_first(),
                    None => r matches Ok(ExecutionStep::Builtin { id: i }) && i@ == row.id,
                }
            }
        },
    }
}

proof fn lemma_catalog_index_row(id: Seq<char>, from: int)
    requires
        0 <= from,
    ensures
        catalog_index_from(id, from) matches Some(k) ==> from <= k < 17 && catalog_row(k).id == id,
    decreases 17 - from,
{
    if from < 17 && catalog_row(from).id != id {
        lemma_catalog_index_row(id, from + 1);
    }
}

/// A dry run never runs anything: under the dry-run policy, asking for an
/// action comes to a dry run or to a refusal, never to a command, the
/// built-in executor or the privileged helper.
pub proof fn law_dry_run_never_executes(
    synthetic: bool,
    h: HostFacts,
    uid: Option<u32>,
    id: Seq<char>,
    confirmed: bool,
    r: Result<ExecutionStep, ActionError>,
)
    requires
        execution_spec(synthetic, h, ExecutionPolicy::DryRun, uid, id, confirmed, r),
    ensures
        r is Err || r matches Ok(ExecutionStep::DryRun { .. }),
{
}

/// An action that is not safe never runs unconfirmed: asking for it
/// without confirmation is refused, whatever the policy and the user.
pub proof fn law_risky_actions_need_confirmation(
    synthetic: bool,
    h: HostFacts,
    policy: ExecutionPolicy,
    uid: Option<u32>,
    id: Seq<char>,
    r: Result<ExecutionStep, ActionError>,
)
    requires
        execution_spec(synthetic, h, policy, uid, id, false, r),
        catalog_index(id) matches Some(k) && catalog_row(k).risk != RiskLevel::Safe,
    ensures
        r is Err,
{
}

/// The mirror change never runs as a plain action: it needs the guided
/// plan-and-apply flow, so asking for it is always refused.
pub proof fn law_mirror_change_needs_guided_input(
    synthetic: bool,
    h: HostFacts,
    policy: ExecutionPolicy,
    uid: Option<u32>,
    confirmed: bool,
    r: Result<ExecutionStep, ActionError>,
)
    requires
        execution_spec(synthetic, h, policy, uid, "system.change-sources"@, confirmed, r),
    ensures
        r is Err,
{
    lemma_catalog_index_row("system.change-sources"@, 0);
}

/// The title of the catalog's action `id`, if the catalog has one.
pub fn catalog_title(synthetic: bool, h: &HostFacts, id: &str) -> (r: Option<String>)
    ensures
        match catalog_index(id@) {
            Some(k) => r matches Some(t) && t@ == catalog_row(k).title,
            None => r is None,
        },
{
    let actions = action_catalog(synthetic, h);
    let k = chars_of(id);
    let mut i: usize = 0;
    while i < actions.len()
        invariant
            i <= 17,
            actions@.len() == 17,
            k@ == id@,
            forall|j: int| 0 <= j < i ==> catalog_row(j).id != id@,
            forall|j: int| 0 <= j < 17 ==> action_row(#[trigger] actions@[j]) == catalog_row(j),
        decreases 17 - i,
    {
        let c = chars_of(actions[i].id.as_str());
        assert(action_row(actions@[i as int]).id == actions@[i as int].id@);
        if seq_eq(&c, &k) {
            proof {
                lemma_catalog_index_from(id@, 0, i as int);
            }
            assert(action_row(actions@[i as int]).title == actions@[i as int].title@);
            return Some(owned(actions[i].title.as_str()));
        }
        i = i + 1;
    }
    proof {
        lemma_catalog_index_from(id@, 0, 17);
    }
    None
}

/// What asking to run an action comes to (see [`execution_spec`]).
pub fn plan_execution(
    synthetic: bool,
    h: &HostFacts,
    policy: ExecutionPolicy,
    uid: Option<u32>,
    id: &str,
    confirmed: bool,
) -> (r: Result<ExecutionStep, ActionError>)
    ensures
        execution_spec(synthetic, *h, policy, uid, id@, confirmed, r),
{
    let actions = action_catalog(synthetic, h);
    let k = chars_of(id);
    let mut i: usize = 0;
    while i < actions.len()
        invariant
            i <= 17,
            actions@.len() == 17,
            k@ == id@,
            forall|j: int| 0 <= j < i ==> catalog_row(j).id != id@,
            forall|j: int| 0 <= j < 17 ==> action_row(#[trigger] actions@[j]) == catalog_row(j),
        ensures
            i <= 17,
            forall|j: int| 0 <= j < i ==> catalog_row(j).id != id@,
            i < 17 ==> catalog_row(i as int).id == id@,
        decreases 17 - i,
    {
        let c = chars_of(actions[i].id.as_str());
        assert(action_row(actions@[i as int]).id == actions@[i as int].id@);
        if seq_eq(&c, &k) {
            break;
        }
        i = i + 1;
    }
    proof {
        lemma_catalog_index_from(id@, 0, i as int);
    }
    if i == actions.len() {
        return Err(ActionError::Unknown(owned(id)));
    }
    let a = &actions[i];
    let ghost row = catalog_row(i as int);
    assert(action_row(*a) == row);
    if !a.available {
        return Err(ActionError::Unavailable(a.title.clone()));
    }
    let aid = chars_of(a.id.as_str());
    if eq_str(&aid, "system.change-sources") {
        return Err(ActionError::InputRequired(a.title.clone()));
    }
    let safe = match a.risk {
        RiskLevel::Safe => true,
        _ => false,
    };
    if !safe && !confirmed {
        return Err(ActionError::ConfirmationRequired(a.title.clone()));
    }
    let is_root = match uid {
        Some(u) => u == 0,
        None => false,
    };
    if policy == ExecutionPolicy::Live && a.requires_root && !is_root {
        return Ok(ExecutionStep::Privileged { id: a.id.clone(), title: a.title.clone() });
    }
    if policy == ExecutionPolicy::DryRun {
        let steps = join_exec(&a.steps, "\n- ");
        let mut out = chars_of("planned steps:\n- ");
        crate::text::extend_str(&mut out, steps.as_str());
        return Ok(
            ExecutionStep::DryRun {
                summary: owned("Dry run completed; no system state was changed."),
                output: string_of(&out),
            },
        );
    }
    match &a.command {
        Some(c) => {
            assert(strings_view(c@).len() > 0);
            let program = c[0].clone();
            let mut args: Vec<String> = Vec::new();
            let mut j: usize = 1;
            while j < c.len()
                invariant
                    1 <= j <= c@.len(),
                    strings_view(args@) == strings_view(c@).subrange(1, j as int),
                decreases c@.len() - j,
            {
                push_str(&mut args, c[j].as_str());
                assert(strings_view(c@).subrange(1, j + 1) =~= strings_view(c@).subrange(1, j as int).push(
                    c@[j as int]@,
                ));
                j = j + 1;
            }
            assert(strings_view(c@).subrange(1, c@.len() as int) =~= strings_view(c@).drop_first());
            Ok(ExecutionStep::Command { program, args })
        },
        None => Ok(ExecutionStep::Builtin { id: a.id.clone() }),
    }
}

// ----------------------------------------------------------------------
// Built-in executors
// ----------------------------------------------------------------------

/// A command run as one step of a built-in executor.
#[derive(Debug, Clone)]
pub struct CommandStep {
    pub label: String,
    pub program: String,
    pub args: Vec<String>,
}

/// A step as plain values: label, program, arguments.
pub open spec fn step_view(s: CommandStep) -> (Seq<char>, Seq<char>, Seq<Seq<char>>) {
    (s.label@, s.program@, strings_view(s.args@))
}

/// The steps as plain values.
pub open spec fn steps_view(v: Seq<CommandStep>) -> Seq<(Seq<char>, Seq<char>, Seq<Seq<char>>)> {
    v.map_values(|s: CommandStep| step_view(s))
}

fn step(label: &str, program: &str, args: Vec<String>) -> (r: CommandStep)
    ensures
        step_view(r) == (label@, program@, strings_view(args@)),
{
    CommandStep { label: owned(label), program: owned(program), args }
}

/// What the built-in executor of an action does.
#[derive(Debug, Clone)]
pub enum BuiltinPlan {
    /// Nothing to run: the run succeeds with this summary.
    Done { summary: String },
    /// Run these steps in order, stopping at the first that fails.
    Steps { steps: Vec<CommandStep> },
    /// Remove the SSH host key files, then regenerate the keys.
    RegenerateHostKeys,
    /// Find the root file system and grow it.
    ExpandRoot,
}

/// The systemd sleep and hibernate targets.
pub open spec fn sleep_targets() -> Seq<Seq<char>> {
    seq!["sleep.target"@, "suspend.target"@, "hibernate.target"@, "hybrid-sleep.target"@, "suspend-then-hibernate.target"@]
}

/// The steps that switch the sleep targets: `verb` (`mask` or `unmask`)
/// them, reload systemd, and show their state.
pub open spec fn sleep_steps(label: Seq<char>, verb: Seq<char>) -> Seq<(Seq<char>, Seq<char>, Seq<Seq<char>>)> {
    seq![
        (label, "systemctl"@, seq![verb] + sleep_targets()),
        ("Reload systemd"@, "systemctl"@, seq!["daemon-reload"@]),
        ("Verify target state"@, "systemctl"@, seq!["show"@, "--property=LoadState"@, "--property=UnitFileState"@] + sleep_targets()),
    ]
}

/// The one step of a package action: `apt-get --assume-yes <operation>
/// <package>`.
pub open spec fn package_steps(label: Seq<char>, operation: Seq<char>, package: Seq<char>) -> Seq<
    (Seq<char>, Seq<char>, Seq<Seq<char>>),
> {
    seq![(label, "apt-get"@, seq!["--assume-yes"@, operation, package])]
}

/// The steps the built-in executor of action `id` runs, for the actions
/// whose executor is a fixed list of commands.
pub open spec fn builtin_steps_spec(id: Seq<char>) -> Option<Seq<(Seq<char>, Seq<char>, Seq<Seq<char>>)>> {
    if id == "system.update"@ {
        Some(
            seq![
                ("Refresh package metadata"@, "apt-get"@, seq!["update"@]),
                ("Upgrade installed packages"@, "apt-get"@, seq!["--assume-yes"@, "dist-upgrade"@, "--allow-downgrades"@]),
                ("Report held packages"@, "apt-mark"@, seq!["showhold"@]),
            ],
        )
    } else if id == "service.ssh-install"@ {
        Some(package_steps("Install OpenSSH server"@, "install"@, "openssh-server"@))
    } else if id == "service.ssh-remove"@ {
        Some(package_steps("Remove OpenSSH server"@, "remove"@, "openssh-server"@))
    } else if id == "service.docker-install"@ {
        Some(package_steps("Install Docker"@, "install"@, "docker.io"@))
    } else if id == "service.docker-remove"@ {
        Some(package_steps("Remove Docker"@, "remove"@, "docker.io"@))
    } else if id == "power.enable-sleep"@ {
        Some(sleep_steps("Unmask sleep targets"@, "unmask"@))
    } else if id == "power.disable-sleep"@ {
        Some(sleep_steps("Mask sleep targets"@, "mask"@))
    } else {
        None
    }
}

fn push_sleep_targets(v: &mut Vec<String>)
    ensures
        strings_view(final(v)@) == strings_view(old(v)@) + sleep_targets(),
{
    let ghost before = strings_view(v@);
    push_str(v, "sleep.target");
    push_str(v, "suspend.target");
    push_str(v, "hibernate.target");
    push_str(v, "hybrid-sleep.target");
    push_str(v, "suspend-then-hibernate.target");
    assert(strings_view(v@) =~= before + sleep_targets());
}

fn sleep_plan(label: &str, verb: &str) -> (r: Vec<CommandStep>)
    ensures
        steps_view(r@) == sleep_steps(label@, verb@),
{
    let mut a: Vec<String> = Vec::new();
    push_str(&mut a, verb);
    push_sleep_targets(&mut a);
    let mut b: Vec<String> = Vec::new();
    push_str(&mut b, "daemon-reload");
    let mut c: Vec<String> = Vec::new();
    push_str(&mut c, "show");
    push_str(&mut c, "--property=LoadState");
    push_str(&mut c, "--property=UnitFileState");
    push_sleep_targets(&mut c);
    let mut r: Vec<CommandStep> = Vec::new();
    r.push(step(label, "systemctl", a));
    r.push(step("Reload systemd", "systemctl", b));
    r.push(step("Verify target state", "systemctl", c));
    assert(steps_view(r@) =~~= sleep_steps(label@, verb@));
    r
}

fn package_plan(label: &str, operation: &str, package: &str) -> (r: Vec<CommandStep>)
    ensures
        steps_view(r@) == package_steps(label@, operation@, package@),
{
    let mut a: Vec<String> = Vec::new();
    push_str(&mut a, "--assume-yes");
    push_str(&mut a, operation);
    push_str(&mut a, package);
    let mut r: Vec<CommandStep> = Vec::new();
    r.push(step(label, "apt-get", a));
    assert(steps_view(r@) =~~= package_steps(label@, operation@, package@));
    r
}

/// What the built-in executor of action `id` does: the inspection is done
/// at once; the update, package and sleep actions run fixed steps; the
/// host keys and the root file system have executors of their own; any
/// other action has none.
pub fn builtin_plan(id: &str) -> (r: Result<BuiltinPlan, ActionError>)
    ensures
        if id@ == "system.inspect"@ {
            r matches Ok(BuiltinPlan::Done { summary }) && summary@ == "Inspection completed."@
        } else {
            match builtin_steps_spec(id@) {
                Some(s) => r matches Ok(BuiltinPlan::Steps { steps }) && steps_view(steps@) == s,
                None => if id@ == "service.ssh-regenerate-host-keys"@ {
                    r matches Ok(BuiltinPlan::RegenerateHostKeys)
                } else if id@ == "storage.expand-root"@ {
                    r matches Ok(BuiltinPlan::ExpandRoot)
                } else {
                    r matches Err(ActionError::Launch(m)) && m@ == "no built-in executor is registered for "@ + id@
                },
            }
        },
{
    let k = chars_of(id);
    if eq_str(&k, "system.inspect") {
        Ok(BuiltinPlan::Done { summary: owned("Inspection completed.") })
    } else if eq_str(&k, "system.update") {
        let mut a: Vec<String> = Vec::new();
        push_str(&mut a, "update");
        let mut b: Vec<String> = Vec::new();
        push_str(&mut b, "--assume-yes");
        push_str(&mut b, "dist-upgrade");
        push_str(&mut b, "--allow-downgrades");
        let mut c: Vec<String> = Vec::new();
        push_str(&mut c, "showhold");
        let mut steps: Vec<CommandStep> = Vec::new();
        steps.push(step("Refresh package metadata", "apt-get", a));
        steps.push(step("Upgrade installed packages", "apt-get", b));
        steps.push(step("Report held packages", "apt-mark", c));
        assert(steps_view(steps@) =~~= builtin_steps_spec(id@)->Some_0);
        Ok(BuiltinPlan::Steps { steps })
    } else if eq_str(&k, "service.ssh-install") {
        Ok(BuiltinPlan::Steps { steps: package_plan("Install OpenSSH server", "install", "openssh-server") })
    } else if eq_str(&k, "service.ssh-remove") {
        Ok(BuiltinPlan::Steps { steps: package_plan("Remove OpenSSH server", "remove", "openssh-server") })
    } else if eq_str(&k, "service.docker-install") {
        Ok(BuiltinPlan::Steps { steps: package_plan("Install Docker", "install", "docker.io") })
    } else if eq_str(&k, "service.docker-remove") {
        Ok(BuiltinPlan::Steps { steps: package_plan("Remove Docker", "remove", "docker.io") })
    } else if eq_str(&k, "power.enable-sleep") {
        Ok(BuiltinPlan::Steps { steps: sleep_plan("Unmask sleep targets", "unmask") })
    } else if eq_str(&k, "power.disable-sleep") {
        Ok(BuiltinPlan::Steps { steps: sleep_plan("Mask sleep targets", "mask") })
    } else if eq_str(&k, "service.ssh-regenerate-host-keys") {
        Ok(BuiltinPlan::RegenerateHostKeys)
    } else if eq_str(&k, "storage.expand-root") {
        Ok(BuiltinPlan::ExpandRoot)
    } else {
        let mut m = chars_of("no built-in executor is registered for ");
        crate::text::extend_str(&mut m, id);
        Err(ActionError::Launch(string_of(&m)))
    }
}

/// The line of a transcript that opens a step: `== <label> ==`, then
/// `$ <program> <arguments joined by spaces>`.
pub open spec fn step_header_spec(s: (Seq<char>, Seq<char>, Seq<Seq<char>>)) -> Seq<char> {
    "== "@ + s.0 + " ==\n$ "@ + s.1 + " "@ + join_spec(s.2, " "@) + "\n"@
}

/// The line of a transcript that opens a step (see [`step_header_spec`]).
pub fn step_header(s: &CommandStep) -> (r: String)
    ensures
        r@ == step_header_spec(step_view(*s)),
{
    let args = join_exec(&s.args, " ");
    let mut v = chars_of("== ");
    crate::text::extend_str(&mut v, s.label.as_str());
    crate::text::extend_str(&mut v, " ==\n$ ");
    crate::text::extend_str(&mut v, s.program.as_str());
    crate::text::extend_str(&mut v, " ");
    crate::text::extend_str(&mut v, args.as_str());
    crate::text::extend_str(&mut v, "\n");
    string_of(&v)
}

/// The output kept of a command: its text without surrounding white space,
/// cut to its first 8000 characters; none when nothing is left.
pub open spec fn bounded_spec(value: Seq<char>) -> Option<Seq<char>> {
    let t = crate::text::trim(value);
    if t.len() == 0 {
        None
    } else if t.len() <= 8000 {
        Some(t)
    } else {
        Some(t.take(8000))
    }
}

/// The output kept of a command (see [`bounded_spec`]).
pub fn bounded_text(value: &str) -> (r: Option<String>)
    ensures
        opt_view(r) == bounded_spec(value@),
{
    let t = crate::text::trimmed_chars(value);
    if t.len() == 0 {
        None
    } else if t.len() <= 8000 {
        Some(string_of(&t))
    } else {
        let c = crate::text::slice(&t, 0, 8000);
        Some(string_of(&c))
    }
}

/// The summary of a run whose step `label` failed with exit status
/// `status`.
pub fn failed_step_summary(label: &str, status: &str) -> (r: String)
    ensures
        r@ == label@ + " failed with "@ + status@ + "."@,
{
    let mut v = chars_of(label);
    crate::text::extend_str(&mut v, " failed with ");
    crate::text::extend_str(&mut v, status);
    crate::text::extend_str(&mut v, ".");
    string_of(&v)
}

/// Whether a file of `/etc/ssh` is a host key file, which regenerating the
/// host keys removes.
pub fn is_host_key_file(name: &str) -> (r: bool)
    ensures
        r == crate::text::starts_with(name@, "ssh_host_"@),
{
    let v = chars_of(name);
    crate::text::starts_with_str(&v, "ssh_host_")
}

/// The step that regenerates the SSH host keys.
pub fn regenerate_host_keys_step() -> (r: CommandStep)
    ensures
        step_view(r) == ("Generate SSH host keys"@, "dpkg-reconfigure"@, seq!["-f"@, "noninteractive"@, "openssh-server"@]),
{
    let mut a: Vec<String> = Vec::new();
    push_str(&mut a, "-f");
    push_str(&mut a, "noninteractive");
    push_str(&mut a, "openssh-server");
    let s = step("Generate SSH host keys", "dpkg-reconfigure", a);
    assert(step_view(s) =~~= ("Generate SSH host keys"@, "dpkg-reconfigure"@, seq!["-f"@, "noninteractive"@, "openssh-server"@]));
    s
}

/// The step that finds the block device of the root file system.
pub fn find_root_step() -> (r: CommandStep)
    ensures
        step_view(r) == ("Resolve root block device"@, "findmnt"@, seq!["--nofsroot"@, "--noheadings"@, "--output"@, "SOURCE"@, "/"@]),
{
    let mut a: Vec<String> = Vec::new();
    push_str(&mut a, "--nofsroot");
    push_str(&mut a, "--noheadings");
    push_str(&mut a, "--output");
    push_str(&mut a, "SOURCE");
    push_str(&mut a, "/");
    let s = step("Resolve root block device", "findmnt", a);
    assert(step_view(s) =~~= ("Resolve root block device"@, "findmnt"@, seq!["--nofsroot"@, "--noheadings"@, "--output"@, "SOURCE"@, "/"@]));
    s
}

/// The step that finds the file system type of the root device, when
/// `findmnt` reported a block device (`/dev/...`, once trimmed); otherwise
/// the summary of the failed run.
pub fn detect_filesystem_step(findmnt_output: &str) -> (r: Result<CommandStep, String>)
    ensures
        crate::text::starts_with(crate::text::trim(findmnt_output@), "/dev/"@) ==> (r matches Ok(s) && step_view(s)
            == ("Detect root filesystem"@, "blkid"@, seq!["-s"@, "TYPE"@, "-o"@, "value"@, crate::text::trim(findmnt_output@)])),
        !crate::text::starts_with(crate::text::trim(findmnt_output@), "/dev/"@) ==> (r matches Err(m) && m@
            == "Root filesystem is not backed by a supported block device."@),
{
    let device = crate::text::trimmed_chars(findmnt_output);
    if !crate::text::starts_with_str(&device, "/dev/") {
        return Err(owned("Root filesystem is not backed by a supported block device."));
    }
    let mut a: Vec<String> = Vec::new();
    push_str(&mut a, "-s");
    push_str(&mut a, "TYPE");
    push_str(&mut a, "-o");
    push_str(&mut a, "value");
    let d = string_of(&device);
    push_str(&mut a, d.as_str());
    let s = step("Detect root filesystem", "blkid", a);
    assert(step_view(s) =~~= ("Detect root filesystem"@, "blkid"@, seq!["-s"@, "TYPE"@, "-o"@, "value"@, crate::text::trim(findmnt_output@)]));
    Ok(s)
}

/// The step that grows the root file system on `device`, given what
/// `blkid` reported of its type (trimmed and lower-cased): `resize2fs` for
/// ext4, `btrfs filesystem resize` for btrfs; for any other type, the
/// transcript line and summary of the failed run.
pub fn expand_step(device: &str, blkid_output: &str) -> (r: Result<CommandStep, (String, String)>)
    ensures
        ({
            let fs = crate::text::lower_seq(crate::text::trim(blkid_output@));
            if fs == "ext4"@ {
                r matches Ok(s) && step_view(s) == ("Expand ext4 filesystem"@, "resize2fs"@, seq![device@])
            } else if fs == "btrfs"@ {
                r matches Ok(s) && step_view(s) == ("Expand btrfs filesystem"@, "btrfs"@, seq!["filesystem"@, "resize"@, "max"@, "/"@])
            } else {
                r matches Err((line, summary)) && line@ == "Unsupported filesystem: "@ + fs + "\n"@ && summary@
                    == "Unsupported root filesystem: "@ + fs + "."@
            }
        }),
{
    let t = crate::text::trimmed_chars(blkid_output);
    let fs = crate::text::lower_all(&t);
    if eq_str(&fs, "ext4") {
        let mut a: Vec<String> = Vec::new();
        push_str(&mut a, device);
        let s = step("Expand ext4 filesystem", "resize2fs", a);
        assert(step_view(s) =~~= ("Expand ext4 filesystem"@, "resize2fs"@, seq![device@]));
        Ok(s)
    } else if eq_str(&fs, "btrfs") {
        let mut a: Vec<String> = Vec::new();
        push_str(&mut a, "filesystem");
        push_str(&mut a, "resize");
        push_str(&mut a, "max");
        push_str(&mut a, "/");
        let s = step("Expand btrfs filesystem", "btrfs", a);
        assert(step_view(s) =~~= ("Expand btrfs filesystem"@, "btrfs"@, seq!["filesystem"@, "resize"@, "max"@, "/"@]));
        Ok(s)
    } else {
        let mut line = chars_of("Unsupported filesystem: ");
        crate::text::extend(&mut line, &fs);
        crate::text::extend_str(&mut line, "\n");
        let mut summary = chars_of("Unsupported root filesystem: ");
        crate::text::extend(&mut summary, &fs);
        crate::text::extend_str(&mut summary, ".");
        Err((string_of(&line), string_of(&summary)))
    }
}

/// The output kept of a command that printed `stdout` and `stderr`: their
/// text, one after the other, as [`bounded_spec`] keeps it.
pub fn bounded_output(stdout: &[u8], stderr: &[u8]) -> (r: Option<String>)
    ensures
        vstd::utf8::valid_utf8(stdout@) && vstd::utf8::valid_utf8(stderr@) ==> opt_view(r) == bounded_spec(
            vstd::utf8::decode_utf8(stdout@) + vstd::utf8::decode_utf8(stderr@),
        ),
{
    let out = crate::text::utf8_lossy(stdout);
    let err = crate::text::utf8_lossy(stderr);
    let mut v = chars_of(out.as_str());
    crate::text::extend_str(&mut v, err.as_str());
    let joined = string_of(&v);
    bounded_text(joined.as_str())
}

/// How a run of an action's command ended: succeeded when the command
/// exited successfully, failed otherwise with its exit `status` in the
/// summary; the output is what [`bounded_output`] keeps.
pub fn command_outcome(success: bool, status: &str, stdout: &[u8], stderr: &[u8]) -> (r: (
    ActionStatus,
    String,
    Option<String>,
))
    ensures
        success ==> r.0 == ActionStatus::Succeeded && r.1@ == "Operation completed successfully."@,
        !success ==> r.0 == ActionStatus::Failed && r.1@ == "Operation exited with "@ + status@ + "."@,
        vstd::utf8::valid_utf8(stdout@) && vstd::utf8::valid_utf8(stderr@) ==> opt_view(r.2) == bounded_spec(
            vstd::utf8::decode_utf8(stdout@) + vstd::utf8::decode_utf8(stderr@),
        ),
{
    let output = bounded_output(stdout, stderr);
    if success {
        (ActionStatus::Succeeded, owned("Operation completed successfully."), output)
    } else {
        let mut v = chars_of("Operation exited with ");
        crate::text::extend_str(&mut v, status);
        crate::text::extend_str(&mut v, ".");
        (ActionStatus::Failed, string_of(&v), output)
    }
}

proof fn lemma_enable_sleep_steps()
    ensures
        ({
            let verb = "unmask"@;
            builtin_steps_spec("power.enable-sleep"@) == Some(sleep_steps("Unmask sleep targets"@, verb))
        }),
{
    reveal_strlit("power.enable-sleep");
    reveal_strlit("system.update");
    assert("power.enable-sleep"@.len() != "system.update"@.len() || "power.enable-sleep"@[0] != "system.update"@[0]);
    reveal_strlit("service.ssh-install");
    assert("power.enable-sleep"@.len() != "service.ssh-install"@.len() || "power.enable-sleep"@[0] != "service.ssh-install"@[0]);
    reveal_strlit("service.ssh-remove");
    assert("power.enable-sleep"@.len() != "service.ssh-remove"@.len() || "power.enable-sleep"@[0] != "service.ssh-remove"@[0]);
    reveal_strlit("service.docker-install");
    assert("power.enable-sleep"@.len() != "service.docker-install"@.len() || "power.enable-sleep"@[0] != "service.docker-install"@[0]);
    reveal_strlit("service.docker-remove");
    assert("power.enable-sleep"@.len() != "service.docker-remove"@.len() || "power.enable-sleep"@[0] != "service.docker-remove"@[0]);
}

proof fn lemma_disable_sleep_steps()
    ensures
        ({
            let verb = "mask"@;
            builtin_steps_spec("power.disable-sleep"@) == Some(sleep_steps("Mask sleep targets"@, verb))
        }),
{
    reveal_strlit("power.disable-sleep");
    reveal_strlit("system.update");
    assert("power.disable-sleep"@.len() != "system.update"@.len() || "power.disable-sleep"@[0] != "system.update"@[0]);
    reveal_strlit("service.ssh-install");
    assert("power.disable-sleep"@.len() != "service.ssh-install"@.len() || "power.disable-sleep"@[0] != "service.ssh-install"@[0]);
    reveal_strlit("service.ssh-remove");
    assert("power.disable-sleep"@.len() != "service.ssh-remove"@.len() || "power.disable-sleep"@[0] != "service.ssh-remove"@[0]);
    reveal_strlit("service.docker-install");
    assert("power.disable-sleep"@.len() != "service.docker-install"@.len() || "power.disable-sleep"@[0] != "service.docker-install"@[0]);
    reveal_strlit("service.docker-remove");
    assert("power.disable-sleep"@.len() != "service.docker-remove"@.len() || "power.disable-sleep"@[0] != "service.docker-remove"@[0]);
    reveal_strlit("power.enable-sleep");
    assert("power.disable-sleep"@.len() != "power.enable-sleep"@.len() || "power.disable-sleep"@[0] != "power.enable-sleep"@[0]);
}

proof fn lemma_enable_sleep_offered(h: HostFacts)
    ensures
        unavailable_spec("power.enable-sleep"@, h) == or_else(missing_spec(seq!["systemctl"@], h), if !some_sleep_masked(h) {
            Some("Sleep and hibernate targets are already enabled."@)
        } else {
            None
        }),
{
    reveal_strlit("power.enable-sleep");
    reveal_strlit("system.update");
    assert("power.enable-sleep"@.len() != "system.update"@.len() || "power.enable-sleep"@[0] != "system.update"@[0]);
    reveal_strlit("system.change-sources");
    assert("power.enable-sleep"@.len() != "system.change-sources"@.len() || "power.enable-sleep"@[0] != "system.change-sources"@[0]);
    reveal_strlit("service.ssh-install");
    assert("power.enable-sleep"@.len() != "service.ssh-install"@.len() || "power.enable-sleep"@[0] != "service.ssh-install"@[0]);
    reveal_strlit("service.ssh-enable");
    assert("power.enable-sleep"@.len() != "service.ssh-enable"@.len() || "power.enable-sleep"@[0] != "service.ssh-enable"@[0]);
    reveal_strlit("service.ssh-disable");
    assert("power.enable-sleep"@.len() != "service.ssh-disable"@.len() || "power.enable-sleep"@[0] != "service.ssh-disable"@[0]);
    reveal_strlit("service.ssh-regenerate-host-keys");
    assert("power.enable-sleep"@.len() != "service.ssh-regenerate-host-keys"@.len() || "power.enable-sleep"@[0] != "service.ssh-regenerate-host-keys"@[0]);
    reveal_strlit("service.ssh-remove");
    assert("power.enable-sleep"@.len() != "service.ssh-remove"@.len() || "power.enable-sleep"@[0] != "service.ssh-remove"@[0]);
    reveal_strlit("network.restart");
    assert("power.enable-sleep"@.len() != "network.restart"@.len() || "power.enable-sleep"@[0] != "network.restart"@[0]);
    reveal_strlit("service.docker-install");
    assert("power.enable-sleep"@.len() != "service.docker-install"@.len() || "power.enable-sleep"@[0] != "service.docker-install"@[0]);
    reveal_strlit("service.docker-enable");
    assert("power.enable-sleep"@.len() != "service.docker-enable"@.len() || "power.enable-sleep"@[0] != "service.docker-enable"@[0]);
    reveal_strlit("service.docker-disable");
    assert("power.enable-sleep"@.len() != "service.docker-disable"@.len() || "power.enable-sleep"@[0] != "service.docker-disable"@[0]);
    reveal_strlit("service.docker-remove");
    assert("power.enable-sleep"@.len() != "service.docker-remove"@.len() || "power.enable-sleep"@[0] != "service.docker-remove"@[0]);
    reveal_strlit("storage.expand-root");
    assert("power.enable-sleep"@.len() != "storage.expand-root"@.len() || "power.enable-sleep"@[0] != "storage.expand-root"@[0]);
}

proof fn lemma_disable_sleep_offered(h: HostFacts)
    ensures
        unavailable_spec("power.disable-sleep"@, h) == or_else(missing_spec(seq!["systemctl"@], h), if all_sleep_masked(h) {
            Some("Sleep and hibernate targets are already disabled."@)
        } else {
            None
        }),
{
    reveal_strlit("power.disable-sleep");
    reveal_strlit("system.update");
    assert("power.disable-sleep"@.len() != "system.update"@.len() || "power.disable-sleep"@[0] != "system.update"@[0]);
    reveal_strlit("system.change-sources");
    assert("power.disable-sleep"@.len() != "system.change-sources"@.len() || "power.disable-sleep"@[0] != "system.change-sources"@[0]);
    reveal_strlit("service.ssh-install");
    assert("power.disable-sleep"@.len() != "service.ssh-install"@.len() || "power.disable-sleep"@[0] != "service.ssh-install"@[0]);
    reveal_strlit("service.ssh-enable");
    assert("power.disable-sleep"@.len() != "service.ssh-enable"@.len() || "power.disable-sleep"@[0] != "service.ssh-enable"@[0]);
    reveal_strlit("service.ssh-disable");
    assert("power.disable-sleep"@.len() != "service.ssh-disable"@.len() || "power.disable-sleep"@[0] != "service.ssh-disable"@[0]);
    reveal_strlit("service.ssh-regenerate-host-keys");
    assert("power.disable-sleep"@.len() != "service.ssh-regenerate-host-keys"@.len() || "power.disable-sleep"@[0] != "service.ssh-regenerate-host-keys"@[0]);
    reveal_strlit("service.ssh-remove");
    assert("power.disable-sleep"@.len() != "service.ssh-remove"@.len() || "power.disable-sleep"@[0] != "service.ssh-remove"@[0]);
    reveal_strlit("network.restart");
    assert("power.disable-sleep"@.len() != "network.restart"@.len() || "power.disable-sleep"@[0] != "network.restart"@[0]);
    reveal_strlit("service.docker-install");
    assert("power.disable-sleep"@.len() != "service.docker-install"@.len() || "power.disable-sleep"@[0] != "service.docker-install"@[0]);
    reveal_strlit("service.docker-enable");
    assert("power.disable-sleep"@.len() != "service.docker-enable"@.len() || "power.disable-sleep"@[0] != "service.docker-enable"@[0]);
    reveal_strlit("service.docker-disable");
    assert("power.disable-sleep"@.len() != "service.docker-disable"@.len() || "power.disable-sleep"@[0] != "service.docker-disable"@[0]);
    reveal_strlit("service.docker-remove");
    assert("power.disable-sleep"@.len() != "service.docker-remove"@.len() || "power.disable-sleep"@[0] != "service.docker-remove"@[0]);
    reveal_strlit("storage.expand-root");
    assert("power.disable-sleep"@.len() != "storage.expand-root"@.len() || "power.disable-sleep"@[0] != "storage.expand-root"@[0]);
    reveal_strlit("power.enable-sleep");
    assert("power.disable-sleep"@.len() != "power.enable-sleep"@.len() || "power.disable-sleep"@[0] != "power.enable-sleep"@[0]);
}

/// Enabling and disabling sleep undo each other: both actions run the
/// same three `systemctl` steps on the same targets (every systemd sleep
/// and hibernate target), except that enabling unmasks the targets and
/// disabling masks them; and enabling is offered on a board with a
/// `systemctl` exactly when some of those targets are masked, disabling
/// exactly when not all of them are.
pub proof fn law_sleep_actions_are_inverse(h: HostFacts)
    ensures
        ({
            let e = builtin_steps_spec("power.enable-sleep"@)->0;
            let d = builtin_steps_spec("power.disable-sleep"@)->0;
            &&& builtin_steps_spec("power.enable-sleep"@) is Some
            &&& builtin_steps_spec("power.disable-sleep"@) is Some
            &&& e.len() == 3 && d.len() == 3
            &&& e[0].1 == "systemctl"@ && d[0].1 == "systemctl"@
            &&& e[0].2[0] == "unmask"@ && d[0].2[0] == "mask"@
            &&& e[0].2.drop_first() == d[0].2.drop_first()
            &&& e[0].2.drop_first() == seq![
                "sleep.target"@,
                "suspend.target"@,
                "hibernate.target"@,
                "hybrid-sleep.target"@,
                "suspend-then-hibernate.target"@,
            ]
            &&& e[1] == d[1] && e[2] == d[2]
            &&& missing_spec(seq!["systemctl"@], h) is None ==> (unavailable_spec("power.enable-sleep"@, h) is None
                <==> exists|k: int| 0 <= k < 5 && listed(h.masked_units@, #[trigger] e[0].2[k + 1]))
            &&& missing_spec(seq!["systemctl"@], h) is None ==> (unavailable_spec("power.disable-sleep"@, h) is None
                <==> exists|k: int| 0 <= k < 5 && !listed(h.masked_units@, #[trigger] d[0].2[k + 1]))
        }),
{
    lemma_enable_sleep_steps();
    lemma_disable_sleep_steps();
    lemma_enable_sleep_offered(h);
    lemma_disable_sleep_offered(h);
    reveal_strlit("unmask");
    reveal_strlit("mask");
    let e = builtin_steps_spec("power.enable-sleep"@)->0;
    let d = builtin_steps_spec("power.disable-sleep"@)->0;
    assert(e[0].2 == seq!["unmask"@] + sleep_targets());
    assert(d[0].2 == seq!["mask"@] + sleep_targets());
    assert(e[0].2.drop_first() =~= sleep_targets());
    assert(d[0].2.drop_first() =~= sleep_targets());
    let t = e[0].2;
    let m = h.masked_units@;
    assert(t[1] == "sleep.target"@ && t[2] == "suspend.target"@ && t[3] == "hibernate.target"@ && t[4]
        == "hybrid-sleep.target"@ && t[5] == "suspend-then-hibernate.target"@);
    if some_sleep_masked(h) {
        if listed(m, "sleep.target"@) {
            assert(listed(m, t[0int + 1]));
        } else if listed(m, "suspend.target"@) {
            assert(listed(m, t[1int + 1]));
        } else if listed(m, "hibernate.target"@) {
            assert(listed(m, t[2int + 1]));
        } else if listed(m, "hybrid-sleep.target"@) {
            assert(listed(m, t[3int + 1]));
        } else {
            assert(listed(m, t[4int + 1]));
        }
    }
    if !all_sleep_masked(h) {
        if !listed(m, "sleep.target"@) {
            assert(!listed(m, t[0int + 1]));
        } else if !listed(m, "suspend.target"@) {
            assert(!listed(m, t[1int + 1]));
        } else if !listed(m, "hibernate.target"@) {
            assert(!listed(m, t[2int + 1]));
        } else if !listed(m, "hybrid-sleep.target"@) {
            assert(!listed(m, t[3int + 1]));
        } else {
            assert(!listed(m, t[4int + 1]));
        }
    }
}

} // verus!
