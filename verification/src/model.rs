//! The data the library reports about a board: storage devices, their
//! telemetry and health, services and capabilities.
use vstd::prelude::*;

verus! {

/// The characters of each string of a list.
pub open spec fn strings_view(v: Seq<String>) -> Seq<Seq<char>> {
    v.map_values(|s: String| s@)
}

/// Appends an owned copy of `s` to a list of strings.
pub fn push_str(v: &mut Vec<String>, s: &str)
    ensures
        strings_view(final(v)@) == strings_view(old(v)@).push(s@),
        final(v)@.len() == old(v)@.len() + 1,
{
    let ghost before = strings_view(v@);
    v.push(s.to_string());
    assert(strings_view(v@) =~= before.push(s@));
}

/// How a board was probed.
#[derive(Debug, Clone, Copy, PartialEq, Eq, Structural)]
pub enum ProbeMode {
    Auto,
    Live,
    Demo,
}

/// The state a systemd unit reports.
#[derive(Debug, Clone, Copy, PartialEq, Eq, Structural)]
pub enum ServiceState {
    Active,
    Inactive,
    Failed,
    Unknown,
}

/// How serious an alert is.
#[derive(Debug, Clone, Copy, PartialEq, Eq, Structural)]
pub enum AlertLevel {
    Info,
    Warning,
    Critical,
}

/// How risky an action is, from the least to the most.
#[derive(Debug, Clone, Copy, PartialEq, Eq, Structural)]
pub enum RiskLevel {
    Safe,
    Guarded,
    High,
    Critical,
}

/// An action the tool offers: what it does, how risky it is, whether it
/// needs root, whether it can run on this board (and why not), how long it
/// takes, its steps, and the command that runs it when one does.
#[derive(Debug, Clone)]
pub struct ActionSpec {
    pub id: String,
    pub title: String,
    pub description: String,
    pub category: String,
    pub risk: RiskLevel,
    pub requires_root: bool,
    pub available: bool,
    pub unavailable_reason: Option<String>,
    pub estimated_seconds: u32,
    pub steps: Vec<String>,
    pub command: Option<Vec<String>>,
}

/// Where a run of an action stands.
#[derive(Debug, Clone, Copy, PartialEq, Eq, Structural)]
pub enum ActionStatus {
    Planned,
    Running,
    Succeeded,
    Failed,
}

/// The health verdict on one storage device.
#[derive(Debug, Clone, Copy, PartialEq, Eq, Structural)]
pub enum HealthState {
    Healthy,
    Warning,
    Critical,
    Unknown,
}

impl Default for HealthState {
    fn default() -> (r: Self)
        ensures
            r == HealthState::Unknown,
    {
        HealthState::Unknown
    }
}

/// Whether the health data of a device could be read.
#[derive(Debug, Clone, Copy, PartialEq, Eq, Structural)]
pub enum TelemetryReadState {
    Available,
    Unsupported,
    Unavailable,
}

/// Why the health data of a device could not be read.
#[derive(Debug, Clone, Copy, PartialEq, Eq, Structural)]
pub enum TelemetryErrorKind {
    PermissionDenied,
    Io,
    NvmeStatus,
}

/// The error behind unavailable telemetry, with the system's code if any.
#[derive(Debug, Clone, Copy, PartialEq, Eq, Structural)]
pub struct TelemetryError {
    pub kind: TelemetryErrorKind,
    pub code: Option<i32>,
}

/// Whether telemetry was read, and the error if it was not.
#[derive(Debug, Clone, Copy, PartialEq, Eq, Structural)]
pub struct TelemetryStatus {
    pub state: TelemetryReadState,
    pub error: Option<TelemetryError>,
}

impl Default for TelemetryStatus {
    fn default() -> (r: Self)
        ensures
            r.state == TelemetryReadState::Unavailable,
            r.error is None,
    {
        TelemetryStatus { state: TelemetryReadState::Unavailable, error: None }
    }
}

/// Telemetry that was read.
pub open spec fn available() -> TelemetryStatus {
    TelemetryStatus { state: TelemetryReadState::Available, error: None }
}

/// Telemetry the device does not offer.
pub open spec fn unsupported() -> TelemetryStatus {
    TelemetryStatus { state: TelemetryReadState::Unsupported, error: None }
}

/// Telemetry lost to an input/output failure without a code.
pub open spec fn io_unavailable() -> TelemetryStatus {
    TelemetryStatus {
        state: TelemetryReadState::Unavailable,
        error: Some(TelemetryError { kind: TelemetryErrorKind::Io, code: None }),
    }
}

/// The SMART / health information log of an NVMe controller.
///
/// The composite temperature is kept as the controller reports it, in
/// kelvin; 0 means that the controller reports none.
#[derive(Debug, Default, PartialEq)]
pub struct NvmeSmartLog {
    pub critical_warning: u8,
    pub warning_flags: Vec<String>,
    pub temperature_kelvin: u16,
    pub available_spare_percent: u8,
    pub spare_threshold_percent: u8,
    pub percentage_used: u8,
    pub data_read_bytes: u64,
    pub data_written_bytes: u64,
    pub host_read_commands: u64,
    pub host_write_commands: u64,
    pub power_on_hours: u64,
    pub unsafe_shutdowns: u64,
    pub media_errors: u64,
    pub num_err_log_entries: u64,
}

/// One NVMe controller.
#[derive(Debug, PartialEq)]
pub struct NvmeDevice {
    pub name: String,
    pub path: String,
    pub model: String,
    pub serial: String,
    pub firmware: String,
    pub total_bytes: u64,
    pub smart: Option<NvmeSmartLog>,
    pub telemetry: TelemetryStatus,
    pub health_state: HealthState,
}

/// The NVMe controllers of a board.
#[derive(Debug, PartialEq)]
pub struct NvmeStatus {
    pub initialized: bool,
    pub devices: Vec<NvmeDevice>,
    pub message: Option<String>,
}

/// The health registers of an eMMC or SD card.
#[derive(Debug, Default, PartialEq)]
pub struct MmcHealth {
    pub pre_eol_info: u8,
    pub life_time_est_a_percent: Option<u8>,
    pub life_time_est_b_percent: Option<u8>,
    pub warning_flags: Vec<String>,
}

/// One eMMC or SD card.
#[derive(Debug, PartialEq)]
pub struct MmcDevice {
    pub name: String,
    pub block_path: String,
    pub card_type: String,
    pub model: String,
    pub manufacturer: String,
    pub serial: String,
    pub firmware: String,
    pub total_bytes: u64,
    pub health: MmcHealth,
    pub telemetry: TelemetryStatus,
    pub health_state: HealthState,
}

/// The eMMC and SD cards of a board.
#[derive(Debug, PartialEq)]
pub struct MmcStatus {
    pub initialized: bool,
    pub devices: Vec<MmcDevice>,
    pub message: Option<String>,
}

/// Both kinds of storage.
#[derive(Debug, PartialEq)]
pub struct StorageStatus {
    pub nvme: NvmeStatus,
    pub mmc: MmcStatus,
}

/// What a board is.
#[derive(Debug, Clone, PartialEq)]
pub struct DeviceIdentity {
    pub id: String,
    pub hostname: String,
    pub product: String,
    pub soc: String,
    pub soc_vendor: Option<String>,
    pub operating_system: String,
    pub kernel: String,
    pub architecture: String,
    pub mode: ProbeMode,
}

/// One mounted file system.
#[derive(Debug, Clone, PartialEq)]
pub struct StorageMetric {
    pub name: String,
    pub mount_point: String,
    pub used_bytes: u64,
    pub total_bytes: u64,
    pub removable: bool,
}

/// One network interface.
#[derive(Debug, Clone, PartialEq)]
pub struct NetworkInterface {
    pub name: String,
    pub kind: String,
    pub state: String,
    pub address: Option<String>,
    pub received_bytes: u64,
    pub transmitted_bytes: u64,
}

/// One systemd service.
#[derive(Debug, Clone, PartialEq)]
pub struct ServiceSummary {
    pub id: String,
    pub label: String,
    pub state: ServiceState,
    pub detail: String,
}

/// One hardware feature and whether the board has it.
#[derive(Debug, Clone, PartialEq)]
pub struct Capability {
    pub id: String,
    pub label: String,
    pub available: bool,
    pub detail: String,
}

/// A condition the operator should know of.
#[derive(Debug, Clone, PartialEq)]
pub struct Alert {
    pub id: String,
    pub level: AlertLevel,
    pub title: String,
    pub detail: String,
}

/// A copy of a list of strings.
pub fn clone_strings(v: &Vec<String>) -> (r: Vec<String>)
    ensures
        r@ == v@,
{
    let mut r: Vec<String> = Vec::new();
    let mut i: usize = 0;
    while i < v.len()
        invariant
            i <= v.len(),
            r@ == v@.take(i as int),
        decreases v.len() - i,
    {
        r.push(v[i].clone());
        i = i + 1;
        assert(r@ == v@.take(i as int));
    }
    assert(v@.take(v@.len() as int) == v@);
    r
}

fn clone_option_string(v: &Option<String>) -> (r: Option<String>)
    ensures
        r == *v,
{
    match v {
        Some(s) => Some(s.clone()),
        None => None,
    }
}

/// Two SMART logs hold the same values.
pub open spec fn same_smart(a: NvmeSmartLog, b: NvmeSmartLog) -> bool {
    &&& a.critical_warning == b.critical_warning
    &&& a.warning_flags@ == b.warning_flags@
    &&& a.temperature_kelvin == b.temperature_kelvin
    &&& a.available_spare_percent == b.available_spare_percent
    &&& a.spare_threshold_percent == b.spare_threshold_percent
    &&& a.percentage_used == b.percentage_used
    &&& a.data_read_bytes == b.data_read_bytes
    &&& a.data_written_bytes == b.data_written_bytes
    &&& a.host_read_commands == b.host_read_commands
    &&& a.host_write_commands == b.host_write_commands
    &&& a.power_on_hours == b.power_on_hours
    &&& a.unsafe_shutdowns == b.unsafe_shutdowns
    &&& a.media_errors == b.media_errors
    &&& a.num_err_log_entries == b.num_err_log_entries
}

/// Two NVMe device records hold the same values.
pub open spec fn same_nvme_device(a: NvmeDevice, b: NvmeDevice) -> bool {
    &&& a.name == b.name
    &&& a.path == b.path
    &&& a.model == b.model
    &&& a.serial == b.serial
    &&& a.firmware == b.firmware
    &&& a.total_bytes == b.total_bytes
    &&& match (a.smart, b.smart) {
        (Some(x), Some(y)) => same_smart(x, y),
        (None, None) => true,
        _ => false,
    }
    &&& a.telemetry == b.telemetry
    &&& a.health_state == b.health_state
}

/// Two NVMe status reports hold the same values.
pub open spec fn same_nvme_status(a: NvmeStatus, b: NvmeStatus) -> bool {
    &&& a.initialized == b.initialized
    &&& a.message == b.message
    &&& a.devices@.len() == b.devices@.len()
    &&& forall|i: int|
        0 <= i < a.devices@.len() ==> same_nvme_device(#[trigger] a.devices@[i], b.devices@[i])
}

/// Two card health records hold the same values.
pub open spec fn same_mmc_health(a: MmcHealth, b: MmcHealth) -> bool {
    &&& a.pre_eol_info == b.pre_eol_info
    &&& a.life_time_est_a_percent == b.life_time_est_a_percent
    &&& a.life_time_est_b_percent == b.life_time_est_b_percent
    &&& a.warning_flags@ == b.warning_flags@
}

/// Two card records hold the same values.
pub open spec fn same_mmc_device(a: MmcDevice, b: MmcDevice) -> bool {
    &&& a.name == b.name
    &&& a.block_path == b.block_path
    &&& a.card_type == b.card_type
    &&& a.model == b.model
    &&& a.manufacturer == b.manufacturer
    &&& a.serial == b.serial
    &&& a.firmware == b.firmware
    &&& a.total_bytes == b.total_bytes
    &&& same_mmc_health(a.health, b.health)
    &&& a.telemetry == b.telemetry
    &&& a.health_state == b.health_state
}

/// Two card status reports hold the same values.
pub open spec fn same_mmc_status(a: MmcStatus, b: MmcStatus) -> bool {
    &&& a.initialized == b.initialized
    &&& a.message == b.message
    &&& a.devices@.len() == b.devices@.len()
    &&& forall|i: int|
        0 <= i < a.devices@.len() ==> same_mmc_device(#[trigger] a.devices@[i], b.devices@[i])
}

impl Clone for NvmeSmartLog {
    fn clone(&self) -> (r: Self)
        ensures
            same_smart(r, *self),
    {
        NvmeSmartLog {
            critical_warning: self.critical_warning,
            warning_flags: clone_strings(&self.warning_flags),
            temperature_kelvin: self.temperature_kelvin,
            available_spare_percent: self.available_spare_percent,
            spare_threshold_percent: self.spare_threshold_percent,
            percentage_used: self.percentage_used,
            data_read_bytes: self.data_read_bytes,
            data_written_bytes: self.data_written_bytes,
            host_read_commands: self.host_read_commands,
            host_write_commands: self.host_write_commands,
            power_on_hours: self.power_on_hours,
            unsafe_shutdowns: self.unsafe_shutdowns,
            media_errors: self.media_errors,
            num_err_log_entries: self.num_err_log_entries,
        }
    }
}

impl Clone for NvmeDevice {
    fn clone(&self) -> (r: Self)
        ensures
            same_nvme_device(r, *self),
    {
        NvmeDevice {
            name: self.name.clone(),
            path: self.path.clone(),
            model: self.model.clone(),
            serial: self.serial.clone(),
            firmware: self.firmware.clone(),
            total_bytes: self.total_bytes,
            smart: match &self.smart {
                Some(s) => Some(s.clone()),
                None => None,
            },
            telemetry: self.telemetry,
            health_state: self.health_state,
        }
    }
}

impl Clone for NvmeStatus {
    fn clone(&self) -> (r: Self)
        ensures
            same_nvme_status(r, *self),
    {
        let mut devices: Vec<NvmeDevice> = Vec::new();
        let mut i: usize = 0;
        while i < self.devices.len()
            invariant
                i <= self.devices.len(),
                devices@.len() == i,
                forall|j: int| 0 <= j < i ==> same_nvme_device(#[trigger] devices@[j], self.devices@[j]),
            decreases self.devices.len() - i,
        {
            devices.push(self.devices[i].clone());
            i = i + 1;
        }
        NvmeStatus {
            initialized: self.initialized,
            devices,
            message: clone_option_string(&self.message),
        }
    }
}

impl Clone for MmcHealth {
    fn clone(&self) -> (r: Self)
        ensures
            same_mmc_health(r, *self),
    {
        MmcHealth {
            pre_eol_info: self.pre_eol_info,
            life_time_est_a_percent: self.life_time_est_a_percent,
            life_time_est_b_percent: self.life_time_est_b_percent,
            warning_flags: clone_strings(&self.warning_flags),
        }
    }
}

impl Clone for MmcDevice {
    fn clone(&self) -> (r: Self)
        ensures
            same_mmc_device(r, *self),
    {
        MmcDevice {
            name: self.name.clone(),
            block_path: self.block_path.clone(),
            card_type: self.card_type.clone(),
            model: self.model.clone(),
            manufacturer: self.manufacturer.clone(),
            serial: self.serial.clone(),
            firmware: self.firmware.clone(),
            total_bytes: self.total_bytes,
            health: self.health.clone(),
            telemetry: self.telemetry,
            health_state: self.health_state,
        }
    }
}

impl Clone for MmcStatus {
    fn clone(&self) -> (r: Self)
        ensures
            same_mmc_status(r, *self),
    {
        let mut devices: Vec<MmcDevice> = Vec::new();
        let mut i: usize = 0;
        while i < self.devices.len()
            invariant
                i <= self.devices.len(),
                devices@.len() == i,
                forall|j: int| 0 <= j < i ==> same_mmc_device(#[trigger] devices@[j], self.devices@[j]),
            decreases self.devices.len() - i,
        {
            devices.push(self.devices[i].clone());
            i = i + 1;
        }
        MmcStatus {
            initialized: self.initialized,
            devices,
            message: clone_option_string(&self.message),
        }
    }
}

impl Clone for StorageStatus {
    fn clone(&self) -> (r: Self)
        ensures
            same_nvme_status(r.nvme, self.nvme),
            same_mmc_status(r.mmc, self.mmc),
    {
        StorageStatus { nvme: self.nvme.clone(), mmc: self.mmc.clone() }
    }
}

} // verus!
