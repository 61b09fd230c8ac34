//! NVMe controllers: the SMART / health information log, the outcome of an
//! admin command, and the controller records built from sysfs.
use vstd::prelude::*;
use crate::health::{nvme_health_spec, nvme_health_state};
use crate::lex::{parse_decimal, parse_unsigned};
use crate::order::{sorted_set_of, sorted_unique};
use crate::mmc::{EACCES, EPERM};
use crate::model::{
    HealthState, NvmeDevice, NvmeSmartLog, NvmeStatus, TelemetryError, TelemetryErrorKind,
    TelemetryReadState, TelemetryStatus, available, io_unavailable, strings_view,
};
use crate::text::{chars_of, digit, extend, has_char, is_digit, owned, starts_with, starts_with_str, string_of, trim, trimmed_chars};

verus! {

/// Why a controller could not be read.
#[derive(Debug, Clone, PartialEq, Eq)]
pub enum NvmeError {
    InvalidBufferLength { expected: usize, actual: usize },
    NotSupported(String),
    CommandStatus(i32),
    IoCode(i32),
    Io(String),
}

/// The flag names of the critical-warning bits 0..=5, in bit order.
pub open spec fn warning_bit_name(bit: int) -> Seq<char> {
    if bit == 0 {
        "available_spare_below_threshold"@
    } else if bit == 1 {
        "temperature_exceeded"@
    } else if bit == 2 {
        "reliability_degraded"@
    } else if bit == 3 {
        "read_only"@
    } else if bit == 4 {
        "volatile_memory_backup_failed"@
    } else {
        "persistent_memory_read_only"@
    }
}

/// Whether bit `bit` of `mask` is set.
pub open spec fn bit_set(mask: u8, bit: int) -> bool {
    (mask as int / pow2_u8(bit)) % 2 == 1
}

pub open spec fn pow2_u8(bit: int) -> int {
    if bit == 0 {
        1
    } else if bit == 1 {
        2
    } else if bit == 2 {
        4
    } else if bit == 3 {
        8
    } else if bit == 4 {
        16
    } else if bit == 5 {
        32
    } else if bit == 6 {
        64
    } else {
        128
    }
}

/// The names of the bits of `mask` among 0..`n`, lowest bit first.
pub open spec fn warning_flags_upto(mask: u8, n: int) -> Seq<Seq<char>>
    decreases n,
{
    if n <= 0 {
        Seq::empty()
    } else {
        warning_flags_upto(mask, n - 1) + if bit_set(mask, n - 1) {
            seq![warning_bit_name(n - 1)]
        } else {
            Seq::<Seq<char>>::empty()
        }
    }
}

/// The warning flags of a critical-warning byte: the names of bits 0..=5
/// that are set, lowest first; bits 6 and 7 have no name.
pub open spec fn nvme_warning_flags_spec(mask: u8) -> Seq<Seq<char>> {
    warning_flags_upto(mask, 6)
}

fn bit_is_set(mask: u8, bit: u8) -> (r: bool)
    requires
        bit < 8,
    ensures
        r == bit_set(mask, bit as int),
{
    let p: u8 = if bit == 0 {
        1
    } else if bit == 1 {
        2
    } else if bit == 2 {
        4
    } else if bit == 3 {
        8
    } else if bit == 4 {
        16
    } else if bit == 5 {
        32
    } else if bit == 6 {
        64
    } else {
        128
    };
    assert(p as int == pow2_u8(bit as int));
    (mask / p) % 2 == 1
}

fn bit_name(bit: u8) -> (r: &'static str)
    ensures
        r@ == warning_bit_name(bit as int),
{
    if bit == 0 {
        "available_spare_below_threshold"
    } else if bit == 1 {
        "temperature_exceeded"
    } else if bit == 2 {
        "reliability_degraded"
    } else if bit == 3 {
        "read_only"
    } else if bit == 4 {
        "volatile_memory_backup_failed"
    } else {
        "persistent_memory_read_only"
    }
}

pub fn parse_warning_flags(mask: u8) -> (r: Vec<String>)
    ensures
        strings_view(r@) == nvme_warning_flags_spec(mask),
{
    let mut flags: Vec<String> = Vec::new();
    let mut bit: u8 = 0;
    while bit < 6
        invariant
            bit <= 6,
            strings_view(flags@) == warning_flags_upto(mask, bit as int),
        decreases 6 - bit,
    {
        let ghost before = strings_view(flags@);
        if bit_is_set(mask, bit) {
            flags.push(owned(bit_name(bit)));
            assert(strings_view(flags@) =~= before.push(warning_bit_name(bit as int)));
        } else {
            assert(strings_view(flags@) =~= before + Seq::<Seq<char>>::empty());
        }
        bit = bit + 1;
        assert(strings_view(flags@) =~= warning_flags_upto(mask, bit as int));
    }
    flags
}

/// The unsigned number whose little-endian bytes are `b`.
pub open spec fn le_value(b: Seq<u8>) -> nat
    decreases b.len(),
{
    if b.len() == 0 {
        0
    } else {
        b[0] as nat + 256 * le_value(b.drop_first())
    }
}

/// 256 to the power `n`.
pub open spec fn pow256(n: nat) -> nat
    decreases n,
{
    if n == 0 {
        1
    } else {
        256 * pow256((n - 1) as nat)
    }
}

proof fn lemma_le_value_bound(b: Seq<u8>)
    ensures
        le_value(b) < pow256(b.len()),
    decreases b.len(),
{
    if b.len() > 0 {
        lemma_le_value_bound(b.drop_first());
    }
}

/// Reads the 128-bit little-endian number at the start of `slice`.
pub fn read_u128_le(slice: &[u8]) -> (r: u128)
    requires
        slice@.len() >= 16,
    ensures
        r as nat == le_value(slice@.take(16)),
{
    let ghost b = slice@.take(16);
    let mut v: u128 = 0;
    let mut i: usize = 16;
    proof {
        assert(b.skip(16) =~= Seq::<u8>::empty());
        reveal_with_fuel(pow256, 17);
        assert(pow256(16) == 0x1_0000_0000_0000_0000_0000_0000_0000_0000);
    }
    while i > 0
        invariant
            i <= 16,
            slice@.len() >= 16,
            b == slice@.take(16),
            v as nat == le_value(b.skip(i as int)),
            pow256(16) == 0x1_0000_0000_0000_0000_0000_0000_0000_0000,
        decreases i,
    {
        proof {
            lemma_le_value_bound(b.skip(i as int));
            assert(pow256((16 - i) as nat) * 256 == pow256((16 - i + 1) as nat));
            lemma_pow256_monotone((16 - i + 1) as nat, 16);
        }
        let byte = slice[i - 1];
        v = v * 256 + byte as u128;
        i = i - 1;
        proof {
            assert(b.skip(i as int).drop_first() =~= b.skip(i + 1));
            assert(b.skip(i as int)[0] == byte);
        }
    }
    assert(b.skip(0) =~= b);
    v
}

proof fn lemma_pow256_monotone(a: nat, b: nat)
    requires
        a <= b,
    ensures
        pow256(a) <= pow256(b),
    decreases b,
{
    if a < b {
        lemma_pow256_monotone(a, (b - 1) as nat);
    }
}

/// A count clamped to 64 bits.
pub open spec fn clamp_u64(v: nat) -> u64 {
    if v > 0xffff_ffff_ffff_ffff {
        0xffff_ffff_ffff_ffffu64
    } else {
        v as u64
    }
}

/// Reads a 128-bit little-endian counter, clamped to 64 bits.
pub fn read_u128_as_u64_saturating(slice: &[u8]) -> (r: u64)
    requires
        slice@.len() >= 16,
    ensures
        r == clamp_u64(le_value(slice@.take(16))),
{
    let val = read_u128_le(slice);
    if val > 0xffff_ffff_ffff_ffff {
        0xffff_ffff_ffff_ffff
    } else {
        val as u64
    }
}

/// The 128-bit counter at bytes `from..from + 16` of a log.
pub open spec fn counter(buf: Seq<u8>, from: int) -> nat {
    le_value(buf.subrange(from, from + 16))
}

fn counter_at(buf: &[u8; 512], from: usize) -> (r: u128)
    requires
        from + 16 <= 512,
    ensures
        r as nat == counter(buf@, from as int),
{
    let mut part: Vec<u8> = Vec::new();
    let mut i: usize = 0;
    while i < 16
        invariant
            i <= 16,
            from + 16 <= 512,
            buf@.len() == 512,
            part@ == buf@.subrange(from as int, from + i),
        decreases 16 - i,
    {
        part.push(buf[from + i]);
        i = i + 1;
        assert(part@ =~= buf@.subrange(from as int, from + i));
    }
    assert(part@.take(16) =~= part@);
    read_u128_le(part.as_slice())
}

/// Data units are thousands of 512-byte blocks; the byte count is clamped
/// to 64 bits.
pub open spec fn data_bytes(units: nat) -> u64 {
    clamp_u64(units * 512000)
}

/// The SMART log of a 512-byte log page: byte 0 critical warnings, bytes
/// 1..3 composite temperature in kelvin, bytes 3, 4, 5 spare, threshold and
/// percentage used, and the 128-bit counters from byte 32 on.
pub open spec fn smart_log_matches(buf: Seq<u8>, s: NvmeSmartLog) -> bool {
    &&& s.critical_warning == buf[0]
    &&& strings_view(s.warning_flags@) == nvme_warning_flags_spec(buf[0])
    &&& s.temperature_kelvin as int == buf[1] as int + 256 * buf[2] as int
    &&& s.available_spare_percent == buf[3]
    &&& s.spare_threshold_percent == buf[4]
    &&& s.percentage_used == buf[5]
    &&& s.data_read_bytes == data_bytes(counter(buf, 32))
    &&& s.data_written_bytes == data_bytes(counter(buf, 48))
    &&& s.host_read_commands == clamp_u64(counter(buf, 64))
    &&& s.host_write_commands == clamp_u64(counter(buf, 80))
    &&& s.power_on_hours == clamp_u64(counter(buf, 128))
    &&& s.unsafe_shutdowns == clamp_u64(counter(buf, 144))
    &&& s.media_errors == clamp_u64(counter(buf, 160))
    &&& s.num_err_log_entries == clamp_u64(counter(buf, 176))
}

fn clamp(v: u128) -> (r: u64)
    ensures
        r == clamp_u64(v as nat),
{
    if v > 0xffff_ffff_ffff_ffff {
        0xffff_ffff_ffff_ffff
    } else {
        v as u64
    }
}

fn data_bytes_exec(units: u128) -> (r: u64)
    ensures
        r == data_bytes(units as nat),
{
    if units > 0xffff_ffff_ffff_ffff / 512000 {
        assert(units * 512000 > 0xffff_ffff_ffff_ffff) by (nonlinear_arith)
            requires
                units > 0xffff_ffff_ffff_ffffu128 / 512000,
        ;
        0xffff_ffff_ffff_ffff
    } else {
        assert(units * 512000 <= 0xffff_ffff_ffff_ffff) by (nonlinear_arith)
            requires
                units <= 0xffff_ffff_ffff_ffffu128 / 512000,
        ;
        (units * 512000) as u64
    }
}

/// Reads a SMART / health information log page. Every page decodes.
pub fn parse_smart_log(buf: &[u8; 512]) -> (r: Result<NvmeSmartLog, NvmeError>)
    ensures
        r matches Ok(s) && smart_log_matches(buf@, s),
{
    let critical_warning = buf[0];
    let warning_flags = parse_warning_flags(critical_warning);
    let temperature_kelvin: u16 = buf[1] as u16 + 256 * buf[2] as u16;
    Ok(
        NvmeSmartLog {
            critical_warning,
            warning_flags,
            temperature_kelvin,
            available_spare_percent: buf[3],
            spare_threshold_percent: buf[4],
            percentage_used: buf[5],
            data_read_bytes: data_bytes_exec(counter_at(buf, 32)),
            data_written_bytes: data_bytes_exec(counter_at(buf, 48)),
            host_read_commands: clamp(counter_at(buf, 64)),
            host_write_commands: clamp(counter_at(buf, 80)),
            power_on_hours: clamp(counter_at(buf, 128)),
            unsafe_shutdowns: clamp(counter_at(buf, 144)),
            media_errors: clamp(counter_at(buf, 160)),
            num_err_log_entries: clamp(counter_at(buf, 176)),
        },
    )
}

/// The outcome of an NVMe admin command: a negative return is a system
/// error with `errno`; a positive one is the controller's status code.
pub fn check_admin_result(ret: i32, errno: i32) -> (r: Result<(), NvmeError>)
    ensures
        ret == 0 ==> r is Ok,
        ret > 0 ==> r == Err::<(), NvmeError>(NvmeError::CommandStatus(ret)),
        ret < 0 ==> r == Err::<(), NvmeError>(NvmeError::IoCode(errno)),
{
    if ret < 0 {
        Err(NvmeError::IoCode(errno))
    } else if ret != 0 {
        Err(NvmeError::CommandStatus(ret))
    } else {
        Ok(())
    }
}

/// The telemetry state an error reading a controller leaves.
pub open spec fn telemetry_from_nvme_error_spec(err: NvmeError) -> TelemetryStatus {
    TelemetryStatus {
        state: TelemetryReadState::Unavailable,
        error: Some(
            match err {
                NvmeError::IoCode(code) => if code == EACCES || code == EPERM {
                    TelemetryError { kind: TelemetryErrorKind::PermissionDenied, code: Some(code) }
                } else {
                    TelemetryError { kind: TelemetryErrorKind::Io, code: Some(code) }
                },
                NvmeError::CommandStatus(code) => TelemetryError {
                    kind: TelemetryErrorKind::NvmeStatus,
                    code: Some(code),
                },
                _ => TelemetryError { kind: TelemetryErrorKind::Io, code: None },
            },
        ),
    }
}

pub fn telemetry_from_nvme_error(err: &NvmeError) -> (r: TelemetryStatus)
    ensures
        r == telemetry_from_nvme_error_spec(*err),
{
    let error = match err {
        NvmeError::IoCode(code) => {
            if *code == EACCES || *code == EPERM {
                TelemetryError { kind: TelemetryErrorKind::PermissionDenied, code: Some(*code) }
            } else {
                TelemetryError { kind: TelemetryErrorKind::Io, code: Some(*code) }
            }
        },
        NvmeError::CommandStatus(code) => TelemetryError {
            kind: TelemetryErrorKind::NvmeStatus,
            code: Some(*code),
        },
        _ => TelemetryError { kind: TelemetryErrorKind::Io, code: None },
    };
    TelemetryStatus { state: TelemetryReadState::Unavailable, error: Some(error) }
}

} // verus!

verus! {

/// A controller name of `sys/class/nvme`: `nvme` followed by digits only
/// (namespaces such as `nvme0n1` are not controllers).
pub open spec fn controller_name(name: Seq<char>) -> bool {
    starts_with(name, "nvme"@) && name.len() > 4 && forall|i: int|
        4 <= i < name.len() ==> is_digit(#[trigger] name[i])
}

pub fn is_controller_name(name: &str) -> (r: bool)
    ensures
        r == controller_name(name@),
{
    let v = chars_of(name);
    if !starts_with_str(&v, "nvme") {
        return false;
    }
    proof {
        reveal_strlit("nvme");
    }
    if v.len() <= 4 {
        return false;
    }
    let mut i: usize = 4;
    while i < v.len()
        invariant
            4 <= i <= v.len(),
            v@ == name@,
            forall|j: int| 4 <= j < i ==> is_digit(#[trigger] v@[j]),
        decreases v.len() - i,
    {
        if !digit(v[i]) {
            assert(!is_digit(name@[i as int]));
            return false;
        }
        i = i + 1;
    }
    true
}

/// One entry of a controller directory: its name, whether it is a
/// directory, and its `size` attribute (512-byte sectors) if it has one.
#[derive(Debug, Clone, PartialEq)]
pub struct NamespaceEntry {
    pub name: String,
    pub is_dir: bool,
    pub size: Option<String>,
}

/// The bytes one entry adds to the capacity: a directory whose name holds
/// an `n` (a namespace) with a readable size, saturating.
pub open spec fn namespace_bytes(e: NamespaceEntry) -> nat {
    if e.name@.contains('n') && e.is_dir {
        match e.size {
            Some(s) => match parse_unsigned(trim(s@), 10, 0xffff_ffff_ffff_ffff) {
                Some(n) => clamp_u64(n * 512) as nat,
                None => 0,
            },
            None => 0,
        }
    } else {
        0
    }
}

/// The capacity of the first `n` entries, saturating at each step.
pub open spec fn namespaces_total(es: Seq<NamespaceEntry>, n: int) -> u64
    decreases n,
{
    if n <= 0 {
        0
    } else {
        clamp_u64(namespaces_total(es, n - 1) as nat + namespace_bytes(es[n - 1]))
    }
}

/// The capacity of a controller: the sum of its namespaces' sizes.
pub fn read_namespaces_total_bytes(entries: &Vec<NamespaceEntry>) -> (r: u64)
    ensures
        r == namespaces_total(entries@, entries@.len() as int),
{
    let mut total: u64 = 0;
    let mut i: usize = 0;
    while i < entries.len()
        invariant
            i <= entries.len(),
            total == namespaces_total(entries@, i as int),
        decreases entries.len() - i,
    {
        let e = &entries[i];
        let nv = chars_of(e.name.as_str());
        let mut add: u64 = 0;
        if has_char(&nv, 'n') && e.is_dir {
            match &e.size {
                Some(s) => {
                    let t = trimmed_chars(s.as_str());
                    match parse_decimal(&t, 0xffff_ffff_ffff_ffff) {
                        Some(n) => {
                            add = if n > 0xffff_ffff_ffff_ffff / 512 {
                                0xffff_ffff_ffff_ffff
                            } else {
                                n * 512
                            };
                        },
                        None => {},
                    }
                },
                None => {},
            }
        }
        assert(add as nat == namespace_bytes(entries@[i as int]));
        total = if add > 0xffff_ffff_ffff_ffff - total {
            0xffff_ffff_ffff_ffff
        } else {
            total + add
        };
        i = i + 1;
    }
    total
}

/// What sysfs shows of a controller under `sys/class/nvme/<name>`.
#[derive(Debug, Clone, PartialEq)]
pub struct NvmeSysfsAttributes {
    pub model: Option<String>,
    pub serial: Option<String>,
    pub firmware_rev: Option<String>,
    pub namespaces: Vec<NamespaceEntry>,
}

/// A sysfs attribute with white space around it removed, or nothing.
pub open spec fn attr_spec(a: Option<String>) -> Seq<char> {
    match a {
        Some(s) => trim(s@),
        None => Seq::empty(),
    }
}

fn attr(a: &Option<String>) -> (r: String)
    ensures
        r@ == attr_spec(*a),
{
    match a {
        Some(s) => {
            let t = trimmed_chars(s.as_str());
            string_of(&t)
        },
        None => String::new(),
    }
}

/// Builds the record of controller `name` from its sysfs attributes and the
/// result of reading its SMART log.
pub fn read_controller_sysfs_with(
    name: &str,
    attrs: &NvmeSysfsAttributes,
    smart_log: Result<[u8; 512], NvmeError>,
) -> (r: NvmeDevice)
    ensures
        r.name@ == name@,
        r.path@ == "/dev/"@ + name@,
        r.model@ == attr_spec(attrs.model),
        r.serial@ == attr_spec(attrs.serial),
        r.firmware@ == attr_spec(attrs.firmware_rev),
        r.total_bytes == namespaces_total(attrs.namespaces@, attrs.namespaces@.len() as int),
        smart_log matches Ok(buf) ==> (r.smart matches Some(s) && smart_log_matches(buf@, s))
            && r.telemetry == available(),
        smart_log matches Err(e) ==> r.smart is None && r.telemetry
            == telemetry_from_nvme_error_spec(e),
        r.health_state == nvme_health_spec(r.telemetry, r.smart),
{
    let (smart, telemetry) = match &smart_log {
        Ok(buf) => {
            let parsed = parse_smart_log(buf);
            match parsed {
                Ok(s) => (Some(s), TelemetryStatus { state: TelemetryReadState::Available, error: None }),
                Err(e) => (None, telemetry_from_nvme_error(&e)),
            }
        },
        Err(e) => (None, telemetry_from_nvme_error(e)),
    };
    let health_state = match &smart {
        Some(s) => nvme_health_state(&telemetry, Some(s)),
        None => nvme_health_state(&telemetry, None),
    };
    let mut path = chars_of("/dev/");
    let nv = chars_of(name);
    extend(&mut path, &nv);
    NvmeDevice {
        name: owned(name),
        path: string_of(&path),
        model: attr(&attrs.model),
        serial: attr(&attrs.serial),
        firmware: attr(&attrs.firmware_rev),
        total_bytes: read_namespaces_total_bytes(&attrs.namespaces),
        smart,
        telemetry,
        health_state,
    }
}

/// The record kept for a controller whose directory could not be read.
pub open spec fn placeholder_matches(name: Seq<char>, d: NvmeDevice) -> bool {
    &&& d.name@ == name
    &&& d.path@ == "/dev/"@ + name
    &&& d.model@.len() == 0
    &&& d.serial@.len() == 0
    &&& d.firmware@.len() == 0
    &&& d.total_bytes == 0
    &&& d.smart is None
    &&& d.telemetry == io_unavailable()
    &&& d.health_state == HealthState::Unknown
}

fn placeholder(name: &String) -> (r: NvmeDevice)
    ensures
        placeholder_matches(name@, r),
{
    let mut path = chars_of("/dev/");
    let nv = chars_of(name.as_str());
    extend(&mut path, &nv);
    NvmeDevice {
        name: name.clone(),
        path: string_of(&path),
        model: String::new(),
        serial: String::new(),
        firmware: String::new(),
        total_bytes: 0,
        smart: None,
        telemetry: TelemetryStatus {
            state: TelemetryReadState::Unavailable,
            error: Some(TelemetryError { kind: TelemetryErrorKind::Io, code: None }),
        },
        health_state: HealthState::Unknown,
    }
}

/// The controllers of a board, read from a sysfs root each time their
/// status is asked for.
#[derive(Debug, Clone)]
pub struct NvmeManager {
    sysfs_root: String,
}

impl NvmeManager {
    pub closed spec fn root_spec(&self) -> Seq<char> {
        self.sysfs_root@
    }

    /// A manager reading under `sysfs_root`, `/` when none is given. No
    /// storage is touched.
    pub fn probe_and_init(sysfs_root: Option<&str>) -> (r: Self)
        ensures
            r.root_spec() == (match sysfs_root {
                Some(p) => p@,
                None => "/"@,
            }),
    {
        let root = match sysfs_root {
            Some(p) => owned(p),
            None => owned("/"),
        };
        NvmeManager { sysfs_root: root }
    }

    /// A manager reading under `/`.
    pub fn new() -> (r: Self)
        ensures
            r.root_spec() == "/"@,
    {
        Self::probe_and_init(None)
    }

    /// The sysfs root.
    pub fn sysfs_root(&self) -> (r: &str)
        ensures
            r@ == self.root_spec(),
    {
        self.sysfs_root.as_str()
    }

    /// The controller names among the entries of `sys/class/nvme`, sorted.
    /// The entries of a directory have distinct names, so this is the
    /// sorted list of those names.
    pub fn probe_sysfs(entries: &Vec<String>) -> (r: Vec<String>)
        ensures
            sorted_set_of(strings_view(r@), strings_view(entries@.filter(|e: String| controller_name(e@)))),
    {
        let names = Self::controller_entries(entries);
        sorted_unique(&names)
    }

    /// The controller names among the entries of `sys/class/nvme`, in the
    /// order given.
    fn controller_entries(entries: &Vec<String>) -> (r: Vec<String>)
        ensures
            r@ == entries@.filter(|e: String| controller_name(e@)),
    {
        let mut r: Vec<String> = Vec::new();
        let mut i: usize = 0;
        while i < entries.len()
            invariant
                i <= entries.len(),
                r@ == entries@.take(i as int).filter(|e: String| controller_name(e@)),
            decreases entries.len() - i,
        {
            let keep = is_controller_name(entries[i].as_str());
            proof {
                let t = entries@.take(i as int);
                let item = entries@[i as int];
                assert(entries@.take(i + 1) =~= t.push(item));
                assert(t.push(item).filter(|e: String| controller_name(e@)) == if controller_name(
                    item@,
                ) {
                    t.filter(|e: String| controller_name(e@)).push(item)
                } else {
                    t.filter(|e: String| controller_name(e@))
                }) by {
                    reveal(Seq::filter);
                    assert(t.push(item).drop_last() =~= t);
                }
            }
            if keep {
                r.push(entries[i].clone());
            }
            i = i + 1;
        }
        assert(entries@.take(entries@.len() as int) =~= entries@);
        r
    }

    /// Whether a status read found any controller: false when the read
    /// failed.
    pub fn is_initialized(status: &Result<NvmeStatus, NvmeError>) -> (r: bool)
        ensures
            r == (status matches Ok(s) && s.initialized),
    {
        match status {
            Ok(s) => s.initialized,
            Err(_) => false,
        }
    }

    /// The status of the controllers found, given one entry per controller
    /// name: its record, or the error that kept its directory from being
    /// read. No controller leaves the status uninitialized with a message;
    /// a controller that could not be read keeps a placeholder record.
    pub fn status_with(probed: Vec<(String, Result<NvmeDevice, NvmeError>)>) -> (r: NvmeStatus)
        ensures
            probed@.len() == 0 ==> !r.initialized && r.devices@.len() == 0 && (r.message matches Some(
                m,
            ) && m@ == "No NVMe controller detected in system"@),
            probed@.len() != 0 ==> r.initialized && r.message is None && r.devices@.len()
                == probed@.len() && forall|i: int|
                0 <= i < probed@.len() ==> match #[trigger] probed@[i].1 {
                    Ok(d) => r.devices@[i] == d,
                    Err(_) => placeholder_matches(probed@[i].0@, r.devices@[i]),
                },
    {
        if probed.len() == 0 {
            return NvmeStatus {
                initialized: false,
                devices: Vec::new(),
                message: Some(owned("No NVMe controller detected in system")),
            };
        }
        let ghost pv = probed@;
        let n = probed.len();
        let mut rest = probed;
        let mut devices: Vec<NvmeDevice> = Vec::new();
        let mut i: usize = 0;
        while i < n
            invariant
                n == pv.len(),
                i <= n,
                rest@ == pv.skip(i as int),
                devices@.len() == i,
                forall|j: int|
                    0 <= j < i ==> match #[trigger] pv[j].1 {
                        Ok(d) => devices@[j] == d,
                        Err(_) => placeholder_matches(pv[j].0@, devices@[j]),
                    },
            decreases n - i,
        {
            let (name, result) = rest.remove(0);
            assert(rest@ =~= pv.skip(i + 1));
            let d = match result {
                Ok(d) => d,
                Err(_) => placeholder(&name),
            };
            devices.push(d);
            i = i + 1;
        }
        NvmeStatus { initialized: true, devices, message: None }
    }
}

} // verus!
