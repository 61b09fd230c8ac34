//! eMMC and SD cards: the sysfs attributes and EXT_CSD register they expose,
//! and the device record built from them.
use vstd::prelude::*;
use crate::health::{mmc_health_spec, mmc_health_state};
use crate::order::{sorted_set_of, sorted_unique};
use crate::lex::{parse_unsigned, parse_unsigned_exec, words, words_exec};
use crate::model::{MmcDevice, MmcHealth, MmcStatus, TelemetryError, TelemetryErrorKind, TelemetryReadState, TelemetryStatus, available, io_unavailable, strings_view, unsupported};
use crate::text::{chars_of, eq_str, utf8_lossy, extend, extend_str, is_digit, owned, slice, starts_with, starts_with_str, string_of, trim, trimmed_chars};

verus! {

/// `errno` for "permission denied".
pub const EACCES: i32 = 13;

/// `errno` for "operation not permitted".
pub const EPERM: i32 = 1;

/// Why a card could not be read.
#[derive(Debug, Clone, PartialEq, Eq)]
pub enum MmcError {
    InvalidBufferLength { expected: usize, actual: usize },
    NotSupported(String),
    Io(String),
    IoCode(i32),
}

// ----------------------------------------------------------------------
// Attribute parsers
// ----------------------------------------------------------------------

/// A byte written in hexadecimal after `0x` or `0X`, or else in decimal,
/// with white space around it.
pub open spec fn hex_or_dec_u8_spec(s: Seq<char>) -> Option<nat> {
    let t = trim(s);
    if starts_with(t, "0x"@) || starts_with(t, "0X"@) {
        parse_unsigned(t.skip(2), 16, 255)
    } else {
        parse_unsigned(t, 10, 255)
    }
}

/// The same for a 32-bit number.
pub open spec fn hex_or_dec_u32_spec(t: Seq<char>) -> Option<nat> {
    if starts_with(t, "0x"@) || starts_with(t, "0X"@) {
        parse_unsigned(t.skip(2), 16, 0xffff_ffff)
    } else {
        parse_unsigned(t, 10, 0xffff_ffff)
    }
}

fn hex_or_dec(t: &Vec<char>, max: u64) -> (r: Option<u64>)
    ensures
        starts_with(t@, "0x"@) || starts_with(t@, "0X"@) ==> (r matches Some(v) ==> parse_unsigned(
            t@.skip(2),
            16,
            max as nat,
        ) == Some(v as nat)) && (r is None ==> parse_unsigned(t@.skip(2), 16, max as nat) is None),
        !(starts_with(t@, "0x"@) || starts_with(t@, "0X"@)) ==> (r matches Some(v)
            ==> parse_unsigned(t@, 10, max as nat) == Some(v as nat)) && (r is None
            ==> parse_unsigned(t@, 10, max as nat) is None),
{
    if starts_with_str(t, "0x") || starts_with_str(t, "0X") {
        proof {
            reveal_strlit("0x");
            reveal_strlit("0X");
        }
        let rest = slice(t, 2, t.len());
        assert(rest@ == t@.skip(2));
        parse_unsigned_exec(&rest, 16, max)
    } else {
        parse_unsigned_exec(t, 10, max)
    }
}

/// Reads a byte written in hexadecimal (`0x..`) or decimal.
pub fn parse_hex_or_dec_u8(s: &str) -> (r: Option<u8>)
    ensures
        r matches Some(v) ==> hex_or_dec_u8_spec(s@) == Some(v as nat),
        r is None ==> hex_or_dec_u8_spec(s@) is None,
{
    let t = trimmed_chars(s);
    match hex_or_dec(&t, 255) {
        Some(v) => Some(v as u8),
        None => None,
    }
}

/// The percentage a life-time estimate byte stands for: 0x01..=0x0A are
/// 10%..100% of the rated life used, 0x0B is "exceeded" (101), and 0x00
/// (undefined) and reserved values carry none.
pub open spec fn life_time_percent(val: u8) -> Option<u8> {
    if 0x01 <= val <= 0x0A {
        Some((val * 10) as u8)
    } else if val == 0x0B {
        Some(101)
    } else {
        None
    }
}

pub fn map_life_time_val(val: u8) -> (r: Option<u8>)
    ensures
        r == life_time_percent(val),
{
    if 0x01 <= val && val <= 0x0A {
        Some(val * 10)
    } else if val == 0x0B {
        Some(101)
    } else {
        None
    }
}

/// An estimate word parsed and mapped to a percentage.
pub open spec fn estimate_spec(w: Seq<char>) -> Option<u8> {
    match hex_or_dec_u8_spec(w) {
        Some(v) => life_time_percent(v as u8),
        None => None,
    }
}

/// The two estimates of a `life_time` attribute: exactly two words, type A
/// then type B.
pub open spec fn life_time_spec(s: Seq<char>) -> (Option<u8>, Option<u8>) {
    let w = words(s);
    if w.len() != 2 {
        (None, None)
    } else {
        (estimate_spec(w[0]), estimate_spec(w[1]))
    }
}

fn estimate_exec(w: &Vec<char>) -> (r: Option<u8>)
    ensures
        r == estimate_spec(w@),
{
    let s = string_of(w);
    match parse_hex_or_dec_u8(s.as_str()) {
        Some(v) => map_life_time_val(v),
        None => None,
    }
}

/// Reads the `life_time` attribute of an eMMC card.
pub fn parse_life_time_str(s: &str) -> (r: (Option<u8>, Option<u8>))
    ensures
        r == life_time_spec(s@),
{
    let v = chars_of(s);
    let tokens = words_exec(&v);
    assert(tokens@.len() == words(s@).len());
    if tokens.len() != 2 {
        return (None, None);
    }
    assert(tokens@[0]@ == words(s@)[0]);
    assert(tokens@[1]@ == words(s@)[1]);
    (estimate_exec(&tokens[0]), estimate_exec(&tokens[1]))
}

/// The pre-EOL state of a `pre_eol_info` attribute: 1 normal, 2 warning,
/// 3 urgent, anything else 0 (undefined).
pub open spec fn pre_eol_spec(s: Seq<char>) -> u8 {
    match hex_or_dec_u8_spec(s) {
        Some(v) => if 1 <= v <= 3 {
            v as u8
        } else {
            0
        },
        None => 0,
    }
}

pub fn parse_pre_eol_info_str(s: &str) -> (r: u8)
    ensures
        r == pre_eol_spec(s@),
{
    match parse_hex_or_dec_u8(s) {
        Some(1) => 1,
        Some(2) => 2,
        Some(3) => 3,
        _ => 0,
    }
}

/// The manufacturer a JEDEC manufacturer id stands for.
pub open spec fn manufacturer_name(manfid: u32) -> Seq<char> {
    if manfid == 0x15 {
        "Samsung"@
    } else if manfid == 0x90 {
        "SK Hynix"@
    } else if manfid == 0x13 {
        "Micron"@
    } else if manfid == 0x45 {
        "SanDisk"@
    } else if manfid == 0x70 {
        "Kingston"@
    } else if manfid == 0x11 {
        "Toshiba"@
    } else if manfid == 0xfe {
        "Micron"@
    } else {
        "Unknown"@
    }
}

pub fn parse_manfid_to_name(manfid: u32) -> (r: &'static str)
    ensures
        r@ == manufacturer_name(manfid),
{
    match manfid {
        0x15 => "Samsung",
        0x90 => "SK Hynix",
        0x13 => "Micron",
        0x45 => "SanDisk",
        0x70 => "Kingston",
        0x11 => "Toshiba",
        0xfe => "Micron",
        _ => "Unknown",
    }
}

/// How a `manfid` attribute is shown: "Name (raw)" when the id is known,
/// else the trimmed raw text.
pub open spec fn manufacturer_spec(s: Seq<char>) -> Seq<char> {
    let t = trim(s);
    match hex_or_dec_u32_spec(t) {
        Some(v) => if manufacturer_name(v as u32) != "Unknown"@ {
            manufacturer_name(v as u32) + " ("@ + t + ")"@
        } else {
            t
        },
        None => t,
    }
}

pub fn format_manufacturer(manfid_str: &str) -> (r: String)
    ensures
        r@ == manufacturer_spec(manfid_str@),
{
    let t = trimmed_chars(manfid_str);
    match hex_or_dec(&t, 0xffff_ffff) {
        Some(v) => {
            let name = parse_manfid_to_name(v as u32);
            let nv = chars_of(name);
            if !eq_str(&nv, "Unknown") {
                let mut out = nv;
                extend_str(&mut out, " (");
                extend(&mut out, &t);
                extend_str(&mut out, ")");
                string_of(&out)
            } else {
                string_of(&t)
            }
        },
        None => string_of(&t),
    }
}

/// The warning flags of a card: the pre-EOL state first, then each estimate
/// at or beyond 100%.
pub open spec fn warning_flags_spec(pre_eol: u8, life_a: Option<u8>, life_b: Option<u8>) -> Seq<
    Seq<char>,
> {
    (if pre_eol == 2 {
        seq!["pre_eol_warning"@]
    } else if pre_eol == 3 {
        seq!["pre_eol_urgent"@]
    } else {
        Seq::<Seq<char>>::empty()
    }) + (if life_a matches Some(v) && v >= 100 {
        seq!["life_time_typ_a_exceeded"@]
    } else {
        Seq::<Seq<char>>::empty()
    }) + (if life_b matches Some(v) && v >= 100 {
        seq!["life_time_typ_b_exceeded"@]
    } else {
        Seq::<Seq<char>>::empty()
    })
}

pub fn generate_warning_flags(pre_eol: u8, life_a: Option<u8>, life_b: Option<u8>) -> (r: Vec<
    String,
>)
    ensures
        strings_view(r@) == warning_flags_spec(pre_eol, life_a, life_b),
{
    let mut flags: Vec<String> = Vec::new();
    let ghost first: Seq<Seq<char>> = if pre_eol == 2 {
        seq!["pre_eol_warning"@]
    } else if pre_eol == 3 {
        seq!["pre_eol_urgent"@]
    } else {
        Seq::<Seq<char>>::empty()
    };
    if pre_eol == 2 {
        flags.push(owned("pre_eol_warning"));
    } else if pre_eol == 3 {
        flags.push(owned("pre_eol_urgent"));
    }
    assert(strings_view(flags@) =~= first);
    let ghost second: Seq<Seq<char>> = if life_a matches Some(v) && v >= 100 {
        seq!["life_time_typ_a_exceeded"@]
    } else {
        Seq::<Seq<char>>::empty()
    };
    let a_exceeded = match life_a {
        Some(v) => v >= 100,
        None => false,
    };
    if a_exceeded {
        flags.push(owned("life_time_typ_a_exceeded"));
    }
    assert(strings_view(flags@) =~= first + second);
    let ghost third: Seq<Seq<char>> = if life_b matches Some(v) && v >= 100 {
        seq!["life_time_typ_b_exceeded"@]
    } else {
        Seq::<Seq<char>>::empty()
    };
    let b_exceeded = match life_b {
        Some(v) => v >= 100,
        None => false,
    };
    if b_exceeded {
        flags.push(owned("life_time_typ_b_exceeded"));
    }
    assert(strings_view(flags@) =~= first + second + third);
    flags
}

/// A whole-card block device name: `mmcblk` followed by digits only (no
/// partition, boot area or RPMB suffix).
pub open spec fn primary_mmcblk(name: Seq<char>) -> bool {
    starts_with(name, "mmcblk"@) && name.len() > 6 && forall|i: int|
        6 <= i < name.len() ==> is_digit(#[trigger] name[i])
}

pub fn is_primary_mmcblk(name: &str) -> (r: bool)
    ensures
        r == primary_mmcblk(name@),
{
    let v = chars_of(name);
    if !starts_with_str(&v, "mmcblk") {
        return false;
    }
    proof {
        reveal_strlit("mmcblk");
    }
    if v.len() <= 6 {
        return false;
    }
    let mut i: usize = 6;
    while i < v.len()
        invariant
            6 <= i <= v.len(),
            v@ == name@,
            forall|j: int| 6 <= j < i ==> is_digit(#[trigger] v@[j]),
        decreases v.len() - i,
    {
        if !crate::text::digit(v[i]) {
            assert(!is_digit(name@[i as int]));
            return false;
        }
        i = i + 1;
    }
    true
}

// ----------------------------------------------------------------------
// EXT_CSD
// ----------------------------------------------------------------------

/// The part of the 512-byte EXT_CSD register that the library reads.
#[derive(Debug, Clone, PartialEq, Eq)]
pub struct MmcExtCsd {
    pub rev: u8,
    /// Capacity in 512-byte sectors (bytes 212..216, little-endian).
    pub sec_count: u32,
    /// ASCII firmware revision, NUL-padded (bytes 254..262).
    pub firmware_version: [u8; 8],
    pub pre_eol_info: u8,
    /// Raw estimate bytes: 0x00 undefined .. 0x0B exceeded.
    pub life_time_est_typ_a: u8,
    pub life_time_est_typ_b: u8,
}

pub fn parse_ext_csd(buf: &[u8; 512]) -> (r: MmcExtCsd)
    ensures
        r.rev == buf@[192],
        r.sec_count as int == buf@[212] as int + buf@[213] as int * 0x100 + buf@[214] as int
            * 0x1_0000 + buf@[215] as int * 0x100_0000,
        r.firmware_version@ == buf@.subrange(254, 262),
        r.pre_eol_info == buf@[267],
        r.life_time_est_typ_a == buf@[268],
        r.life_time_est_typ_b == buf@[269],
{
    let firmware_version: [u8; 8] = [
        buf[254],
        buf[255],
        buf[256],
        buf[257],
        buf[258],
        buf[259],
        buf[260],
        buf[261],
    ];
    assert(firmware_version@ =~= buf@.subrange(254, 262));
    let sec_count: u32 = buf[212] as u32 + buf[213] as u32 * 0x100 + buf[214] as u32 * 0x1_0000
        + buf[215] as u32 * 0x100_0000;
    MmcExtCsd {
        rev: buf[192],
        sec_count,
        firmware_version,
        pre_eol_info: buf[267],
        life_time_est_typ_a: buf[268],
        life_time_est_typ_b: buf[269],
    }
}

/// The telemetry state an error reading a card leaves: permission errors
/// and other system errors keep their code; other failures have none.
pub open spec fn telemetry_from_mmc_error_spec(err: MmcError) -> TelemetryStatus {
    TelemetryStatus {
        state: TelemetryReadState::Unavailable,
        error: Some(
            match err {
                MmcError::IoCode(code) => if code == EACCES || code == EPERM {
                    TelemetryError { kind: TelemetryErrorKind::PermissionDenied, code: Some(code) }
                } else {
                    TelemetryError { kind: TelemetryErrorKind::Io, code: Some(code) }
                },
                _ => TelemetryError { kind: TelemetryErrorKind::Io, code: None },
            },
        ),
    }
}

pub fn telemetry_from_mmc_error(err: &MmcError) -> (r: TelemetryStatus)
    ensures
        r == telemetry_from_mmc_error_spec(*err),
{
    let error = match err {
        MmcError::IoCode(code) => {
            if *code == EACCES || *code == EPERM {
                TelemetryError { kind: TelemetryErrorKind::PermissionDenied, code: Some(*code) }
            } else {
                TelemetryError { kind: TelemetryErrorKind::Io, code: Some(*code) }
            }
        },
        _ => TelemetryError { kind: TelemetryErrorKind::Io, code: None },
    };
    TelemetryStatus { state: TelemetryReadState::Unavailable, error: Some(error) }
}

} // verus!

verus! {

// ----------------------------------------------------------------------
// Building a card record
// ----------------------------------------------------------------------

/// What sysfs shows of one card under `sys/bus/mmc/devices/<name>`; a
/// missing attribute is an empty string, a missing firmware attribute is
/// `None`.
#[derive(Debug, Clone, PartialEq)]
pub struct MmcSysfsAttributes {
    pub name: String,
    pub card_type: String,
    pub model: String,
    pub manfid: String,
    pub serial: String,
    pub fwrev: Option<String>,
    pub prv: Option<String>,
    pub hwrev: Option<String>,
    pub life_time: String,
    pub pre_eol_info: String,
    /// The whole-card block device (see [`select_primary_block`]).
    pub block_name: Option<String>,
    /// The `size` attribute of that block device, in 512-byte sectors.
    pub block_size: Option<String>,
}

/// The first whole-card block device among directory entries, the `block`
/// directory's entries coming before the card directory's own.
pub open spec fn first_primary(names: Seq<Seq<char>>) -> Option<int> {
    if exists|i: int| 0 <= i < names.len() && primary_mmcblk(#[trigger] names[i]) {
        Some(
            choose|i: int|
                0 <= i < names.len() && primary_mmcblk(names[i]) && forall|j: int|
                    0 <= j < i ==> !primary_mmcblk(#[trigger] names[j]),
        )
    } else {
        None
    }
}

pub fn select_primary_block(entries: &Vec<String>) -> (r: Option<String>)
    ensures
        r is None ==> forall|i: int|
            0 <= i < entries@.len() ==> !primary_mmcblk(#[trigger] entries@[i]@),
        r matches Some(n) ==> exists|i: int|
            0 <= i < entries@.len() && entries@[i]@ == n@ && primary_mmcblk(n@) && forall|j: int|
                0 <= j < i ==> !primary_mmcblk(#[trigger] entries@[j]@),
{
    let mut i: usize = 0;
    while i < entries.len()
        invariant
            i <= entries.len(),
            forall|j: int| 0 <= j < i ==> !primary_mmcblk(#[trigger] entries@[j]@),
        decreases entries.len() - i,
    {
        if is_primary_mmcblk(entries[i].as_str()) {
            return Some(entries[i].clone());
        }
        i = i + 1;
    }
    None
}

/// The firmware revision sysfs gives: `fwrev`, else `prv`, else `hwrev`.
pub open spec fn sysfs_firmware(a: MmcSysfsAttributes) -> Seq<char> {
    match a.fwrev {
        Some(f) => f@,
        None => match a.prv {
            Some(p) => p@,
            None => match a.hwrev {
                Some(h) => h@,
                None => Seq::empty(),
            },
        },
    }
}

/// The device node of the card, or nothing.
pub open spec fn block_path_spec(a: MmcSysfsAttributes) -> Seq<char> {
    match a.block_name {
        Some(b) => "/dev/"@ + b@,
        None => Seq::empty(),
    }
}

/// The capacity in bytes: sectors times 512, saturating, or 0.
pub open spec fn block_bytes_spec(a: MmcSysfsAttributes) -> u64 {
    match (a.block_name, a.block_size) {
        (Some(_), Some(s)) => match parse_unsigned(trim(s@), 10, 0xffff_ffff_ffff_ffff) {
            Some(n) => if n * 512 > 0xffff_ffff_ffff_ffff {
                0xffff_ffff_ffff_ffffu64
            } else {
                (n * 512) as u64
            },
            None => 0,
        },
        _ => 0,
    }
}

/// Whether the health of the card must be read from its EXT_CSD register:
/// only for a card that is neither SD nor an SDIO function, whose sysfs
/// attributes give no health data, and that has a whole-card block device.
pub open spec fn needs_ext_csd_spec(a: MmcSysfsAttributes) -> bool {
    let (la, lb) = life_time_spec(a.life_time@);
    &&& a.card_type@ != "SD"@
    &&& a.card_type@ != "SDIO"@
    &&& pre_eol_spec(a.pre_eol_info@) == 0
    &&& la is None
    &&& lb is None
    &&& a.block_name is Some
}

pub fn needs_ext_csd(a: &MmcSysfsAttributes) -> (r: bool)
    ensures
        r == needs_ext_csd_spec(*a),
{
    let t = chars_of(a.card_type.as_str());
    let (la, lb) = parse_life_time_str(a.life_time.as_str());
    !eq_str(&t, "SD") && !eq_str(&t, "SDIO") && parse_pre_eol_info_str(a.pre_eol_info.as_str()) == 0 && la.is_none()
        && lb.is_none() && a.block_name.is_some()
}

/// The health registers and telemetry state of a card, given the sysfs
/// attributes and, when [`needs_ext_csd_spec`] holds, the result of
/// reading its EXT_CSD register.
pub open spec fn mmc_health_parts(a: MmcSysfsAttributes, ext: Option<Result<[u8; 512], MmcError>>) -> (
    u8,
    Option<u8>,
    Option<u8>,
    TelemetryStatus,
) {
    let (la, lb) = life_time_spec(a.life_time@);
    let pre = pre_eol_spec(a.pre_eol_info@);
    if a.card_type@ == "SD"@ {
        (pre, la, lb, unsupported())
    } else if pre != 0 || la is Some || lb is Some {
        (pre, la, lb, available())
    } else if a.block_name is None {
        (pre, la, lb, io_unavailable())
    } else {
        match ext {
            Some(Ok(buf)) => if buf@[192] < 7 {
                (pre, la, lb, unsupported())
            } else {
                (
                    if 1 <= buf@[267] <= 3 {
                        buf@[267]
                    } else {
                        0
                    },
                    life_time_percent(buf@[268]),
                    life_time_percent(buf@[269]),
                    available(),
                )
            },
            Some(Err(e)) => (pre, la, lb, telemetry_from_mmc_error_spec(e)),
            None => (pre, la, lb, io_unavailable()),
        }
    }
}

/// The index of the first NUL byte, or the length.
pub open spec fn nul_end(b: Seq<u8>) -> int {
    if exists|i: int| 0 <= i < b.len() && b[i] == 0 {
        choose|i: int| 0 <= i < b.len() && b[i] == 0 && forall|j: int| 0 <= j < i ==> b[j] != 0
    } else {
        b.len() as int
    }
}

fn nul_end_exec(b: &[u8; 8]) -> (r: usize)
    ensures
        r as int == nul_end(b@),
        r <= 8,
{
    let mut i: usize = 0;
    while i < 8
        invariant
            i <= 8,
            b@.len() == 8,
            forall|j: int| 0 <= j < i ==> b@[j] != 0,
        decreases 8 - i,
    {
        if b[i] == 0 {
            proof {
                let k = choose|k: int|
                    0 <= k < b@.len() && b@[k] == 0 && forall|j: int| 0 <= j < k ==> b@[j] != 0;
                if k < i {
                    assert(b@[k] != 0);
                }
                if k > i {
                    assert(b@[i as int] != 0);
                }
            }
            return i;
        }
        i = i + 1;
    }
    8
}

/// The record `d` of a card is the one its sysfs attributes `a` and the
/// result `ext` of reading its EXT_CSD register give: the attributes as
/// read, the manufacturer named, the whole-card block device and its size,
/// the health registers, telemetry state and health state of
/// [`mmc_health_parts`], and the sysfs firmware revision when there is one
/// (otherwise the register's, or none when the register was not read).
pub open spec fn card_record(a: MmcSysfsAttributes, ext: Option<Result<[u8; 512], MmcError>>, d: MmcDevice) -> bool {
    let (pre, la, lb, tel) = mmc_health_parts(a, ext);
    &&& d.name@ == a.name@
    &&& d.card_type@ == a.card_type@
    &&& d.model@ == a.model@
    &&& d.manufacturer@ == manufacturer_spec(a.manfid@)
    &&& d.serial@ == a.serial@
    &&& d.block_path@ == block_path_spec(a)
    &&& d.total_bytes == block_bytes_spec(a)
    &&& d.health.pre_eol_info == pre
    &&& d.health.life_time_est_a_percent == la
    &&& d.health.life_time_est_b_percent == lb
    &&& strings_view(d.health.warning_flags@) == warning_flags_spec(pre, la, lb)
    &&& d.telemetry == tel
    &&& d.health_state == mmc_health_spec(tel, d.health)
    &&& sysfs_firmware(a).len() != 0 ==> d.firmware@ == sysfs_firmware(a)
    &&& sysfs_firmware(a).len() == 0 && !(needs_ext_csd_spec(a) && ext matches Some(Ok(_))) ==> d.firmware@.len()
        == 0
    &&& sysfs_firmware(a).len() == 0 && needs_ext_csd_spec(a) ==> match ext {
        Some(Ok(buf)) => vstd::utf8::valid_utf8(register_firmware(buf@)) ==> d.firmware@
            == vstd::utf8::decode_utf8(register_firmware(buf@)),
        _ => true,
    }
}

/// The firmware revision an EXT_CSD register holds: its eight firmware
/// bytes up to the first NUL.
pub open spec fn register_firmware(buf: Seq<u8>) -> Seq<u8> {
    buf.subrange(254, 262).take(nul_end(buf.subrange(254, 262)))
}

/// Builds the record of one card from its sysfs attributes and, when the
/// card needs it, the result of reading its EXT_CSD register (`ext`).
///
/// An SDIO function is not a storage card and is refused.
pub fn read_device_sysfs_with(a: &MmcSysfsAttributes, ext: Option<Result<[u8; 512], MmcError>>) -> (r:
    Result<MmcDevice, MmcError>)
    requires
        needs_ext_csd_spec(*a) ==> ext is Some,
        a.block_name matches Some(b) ==> primary_mmcblk(b@),
    ensures
        a.card_type@ == "SDIO"@ <==> r is Err,
        r matches Err(e) ==> e is NotSupported,
        r matches Ok(d) ==> card_record(*a, ext, d),
        r matches Ok(d) ==> (d.block_path@.len() == 0 || exists|b: Seq<char>|
            primary_mmcblk(b) && d.block_path@ == "/dev/"@ + b),
{
    let card_type = chars_of(a.card_type.as_str());
    if eq_str(&card_type, "SDIO") {
        return Err(MmcError::NotSupported(owned("SDIO device ignored")));
    }
    let manufacturer = format_manufacturer(a.manfid.as_str());
    let mut firmware: String = match &a.fwrev {
        Some(f) => f.clone(),
        None => match &a.prv {
            Some(p) => p.clone(),
            None => match &a.hwrev {
                Some(h) => h.clone(),
                None => String::new(),
            },
        },
    };
    let (mut life_a, mut life_b) = parse_life_time_str(a.life_time.as_str());
    let mut pre_eol = parse_pre_eol_info_str(a.pre_eol_info.as_str());
    let (block_path, total_bytes) = match &a.block_name {
        Some(b) => {
            let mut p = chars_of("/dev/");
            let bv = chars_of(b.as_str());
            extend(&mut p, &bv);
            let bytes = match &a.block_size {
                Some(s) => {
                    let t = trimmed_chars(s.as_str());
                    match crate::lex::parse_decimal(&t, 0xffff_ffff_ffff_ffff) {
                        Some(n) => if n > 0xffff_ffff_ffff_ffff / 512 {
                            0xffff_ffff_ffff_ffff
                        } else {
                            n * 512
                        },
                        None => 0,
                    }
                },
                None => 0,
            };
            (string_of(&p), bytes)
        },
        None => (String::new(), 0),
    };
    let telemetry;
    if eq_str(&card_type, "SD") {
        telemetry = TelemetryStatus { state: TelemetryReadState::Unsupported, error: None };
    } else if pre_eol != 0 || life_a.is_some() || life_b.is_some() {
        telemetry = TelemetryStatus { state: TelemetryReadState::Available, error: None };
    } else if a.block_name.is_none() {
        telemetry = TelemetryStatus {
            state: TelemetryReadState::Unavailable,
            error: Some(TelemetryError { kind: TelemetryErrorKind::Io, code: None }),
        };
    } else {
        match &ext {
            Some(Ok(buf)) => {
                let e = parse_ext_csd(buf);
                if e.rev < 7 {
                    telemetry = TelemetryStatus {
                        state: TelemetryReadState::Unsupported,
                        error: None,
                    };
                } else {
                    pre_eol = if 1 <= e.pre_eol_info && e.pre_eol_info <= 3 {
                        e.pre_eol_info
                    } else {
                        0
                    };
                    life_a = map_life_time_val(e.life_time_est_typ_a);
                    life_b = map_life_time_val(e.life_time_est_typ_b);
                    telemetry = TelemetryStatus {
                        state: TelemetryReadState::Available,
                        error: None,
                    };
                }
                if firmware.as_str().is_empty() {
                    let end = nul_end_exec(&e.firmware_version);
                    let fw = e.firmware_version;
                    let mut bytes: Vec<u8> = Vec::new();
                    let mut k: usize = 0;
                    while k < end
                        invariant
                            k <= end <= 8,
                            fw@.len() == 8,
                            bytes@ == fw@.take(k as int),
                        decreases end - k,
                    {
                        bytes.push(fw[k]);
                        k = k + 1;
                        assert(bytes@ == fw@.take(k as int));
                    }
                    firmware = utf8_lossy(bytes.as_slice());
                }
            },
            Some(Err(err)) => {
                telemetry = telemetry_from_mmc_error(err);
            },
            None => {
                telemetry = TelemetryStatus {
                    state: TelemetryReadState::Unavailable,
                    error: Some(TelemetryError { kind: TelemetryErrorKind::Io, code: None }),
                };
            },
        }
    }
    let warning_flags = generate_warning_flags(pre_eol, life_a, life_b);
    let health = MmcHealth {
        pre_eol_info: pre_eol,
        life_time_est_a_percent: life_a,
        life_time_est_b_percent: life_b,
        warning_flags,
    };
    let health_state = mmc_health_state(&telemetry, &health);
    Ok(
        MmcDevice {
            name: a.name.clone(),
            block_path,
            card_type: a.card_type.clone(),
            model: a.model.clone(),
            manufacturer,
            serial: a.serial.clone(),
            firmware,
            total_bytes,
            health,
            telemetry,
            health_state,
        },
    )
}

/// The record of one card read under `sysfs_root`. On the live root (`/`)
/// its EXT_CSD register is the result of reading the device (`live_ext`);
/// under any other root the register cannot be read, and a card that needs
/// it gets a `NotSupported` read error.
pub fn read_device_sysfs(sysfs_root: &str, a: &MmcSysfsAttributes, live_ext: Option<Result<[u8; 512], MmcError>>) -> (r:
    Result<MmcDevice, MmcError>)
    requires
        sysfs_root@ == "/"@ && needs_ext_csd_spec(*a) ==> live_ext is Some,
        a.block_name matches Some(b) ==> primary_mmcblk(b@),
    ensures
        a.card_type@ == "SDIO"@ <==> r is Err,
        r matches Err(e) ==> e is NotSupported,
        r matches Ok(d) ==> (sysfs_root@ == "/"@ ==> card_record(*a, live_ext, d)),
        r matches Ok(d) ==> (sysfs_root@ != "/"@ && !needs_ext_csd_spec(*a) ==> card_record(*a, None, d)),
        r matches Ok(d) ==> (sysfs_root@ != "/"@ && needs_ext_csd_spec(*a) ==> exists|e: MmcError|
            e is NotSupported && card_record(*a, Some(Err(e)), d)),
{
    let root = chars_of(sysfs_root);
    if eq_str(&root, "/") {
        read_device_sysfs_with(a, live_ext)
    } else if needs_ext_csd(a) {
        let err = MmcError::NotSupported(owned("fixture requires an injected reader"));
        let ghost e = err;
        let r = read_device_sysfs_with(a, Some(Err(err)));
        proof {
            if r is Ok {
                assert(card_record(*a, Some(Err(e)), r->Ok_0));
            }
        }
        r
    } else {
        read_device_sysfs_with(a, None)
    }
}

} // verus!

verus! {

/// Whether a card type is one the library manages: eMMC (`MMC`) or `SD`.
pub open spec fn managed_card_type(t: Seq<char>) -> bool {
    t == "MMC"@ || t == "SD"@
}

/// An entry of `sys/bus/mmc/devices` whose `type` attribute names a managed
/// card.
pub open spec fn is_managed_entry(e: (String, Option<String>)) -> bool {
    e.1 matches Some(t) && managed_card_type(trim(t@))
}

/// The names of the managed cards among the entries of
/// `sys/bus/mmc/devices`, each given with its `type` attribute, in the order
/// given.
fn managed_entry_names(entries: &Vec<(String, Option<String>)>) -> (r: Vec<String>)
    ensures
        r@ == entries@.filter(|e: (String, Option<String>)| is_managed_entry(e)).map_values(
            |e: (String, Option<String>)| e.0,
        ),
{
    let mut r: Vec<String> = Vec::new();
    let mut i: usize = 0;
    while i < entries.len()
        invariant
            i <= entries.len(),
            r@ == entries@.take(i as int).filter(|e: (String, Option<String>)| is_managed_entry(e)).map_values(
                |e: (String, Option<String>)| e.0,
            ),
        decreases entries.len() - i,
    {
        let keep = match &entries[i].1 {
            Some(t) => {
                let tv = trimmed_chars(t.as_str());
                eq_str(&tv, "MMC") || eq_str(&tv, "SD")
            },
            None => false,
        };
        proof {
            let t = entries@.take(i as int);
            let item = entries@[i as int];
            assert(entries@.take(i + 1) =~= t.push(item));
            assert(t.push(item).filter(|e: (String, Option<String>)| is_managed_entry(e)) == if is_managed_entry(item) {
                t.filter(|e: (String, Option<String>)| is_managed_entry(e)).push(item)
            } else {
                t.filter(|e: (String, Option<String>)| is_managed_entry(e))
            }) by {
                reveal(Seq::filter);
                assert(t.push(item).drop_last() =~= t);
            }
        }
        if keep {
            r.push(entries[i].0.clone());
        }
        i = i + 1;
        assert(r@ =~= entries@.take(i as int).filter(|e: (String, Option<String>)| is_managed_entry(e)).map_values(
            |e: (String, Option<String>)| e.0,
        ));
    }
    assert(entries@.take(entries@.len() as int) =~= entries@);
    r
}


/// The eMMC and SD cards of a board and the sysfs root they were read from.
#[derive(Debug, Clone)]
pub struct MmcManager {
    status: MmcStatus,
    sysfs_root: String,
}

impl MmcManager {
    pub closed spec fn status_spec(&self) -> MmcStatus {
        self.status
    }

    pub closed spec fn root_spec(&self) -> Seq<char> {
        self.sysfs_root@
    }

    /// The manager for the cards probed under `sysfs_root` (`/` when none
    /// is given): `probed` holds one result per managed card found. With no
    /// card the manager is uninitialized with a message; otherwise it keeps
    /// the cards that could be read, in order.
    pub fn probe_and_init(sysfs_root: Option<&str>, probed: Vec<Result<MmcDevice, MmcError>>) -> (r:
        Self)
        ensures
            r.root_spec() == (match sysfs_root {
                Some(p) => p@,
                None => "/"@,
            }),
            probed@.len() == 0 ==> !r.status_spec().initialized && r.status_spec().devices@.len()
                == 0 && (r.status_spec().message matches Some(m) && m@
                == "No MMC/SD devices detected in system"@),
            probed@.len() != 0 ==> r.status_spec().initialized && r.status_spec().message is None
                && r.status_spec().devices@ == probed@.filter(|p: Result<MmcDevice, MmcError>| p is Ok).map_values(
                |p: Result<MmcDevice, MmcError>| p->Ok_0),
    {
        let root = match sysfs_root {
            Some(p) => owned(p),
            None => owned("/"),
        };
        let status = if probed.len() == 0 {
            MmcStatus {
                initialized: false,
                devices: Vec::new(),
                message: Some(owned("No MMC/SD devices detected in system")),
            }
        } else {
            let ghost pv = probed@;
            let mut devices: Vec<MmcDevice> = Vec::new();
            let mut rest = probed;
            let mut i: usize = 0;
            let n = rest.len();
            while i < n
                invariant
                    n == pv.len(),
                    i <= n,
                    rest@ == pv.skip(i as int),
                    devices@ == pv.take(i as int).filter(|p: Result<MmcDevice, MmcError>| p is Ok).map_values(
                        |p: Result<MmcDevice, MmcError>| p->Ok_0),
                decreases n - i,
            {
                let item = rest.remove(0);
                proof {
                    assert(item == pv[i as int]);
                    let t = pv.take(i as int);
                    assert(pv.take(i + 1) =~= t.push(item));
                    assert(rest@ =~= pv.skip(i + 1));
                    assert(t.push(item).filter(|p: Result<MmcDevice, MmcError>| p is Ok) == if item is Ok {
                        t.filter(|p: Result<MmcDevice, MmcError>| p is Ok).push(item)
                    } else {
                        t.filter(|p: Result<MmcDevice, MmcError>| p is Ok)
                    }) by {
                        reveal(Seq::filter);
                        assert(t.push(item).drop_last() =~= t);
                    }
                }
                match item {
                    Ok(d) => {
                        devices.push(d);
                    },
                    Err(_) => {},
                }
                i = i + 1;
            }
            assert(pv.take(n as int) =~= pv);
            MmcStatus { initialized: true, devices, message: None }
        };
        MmcManager { status, sysfs_root: root }
    }

    /// The manager for the cards probed under `/` (see [`Self::probe_and_init`]).
    pub fn new(probed: Vec<Result<MmcDevice, MmcError>>) -> (r: Self)
        ensures
            r.root_spec() == "/"@,
            probed@.len() == 0 ==> !r.status_spec().initialized && r.status_spec().devices@.len()
                == 0 && (r.status_spec().message matches Some(m) && m@
                == "No MMC/SD devices detected in system"@),
            probed@.len() != 0 ==> r.status_spec().initialized && r.status_spec().message is None
                && r.status_spec().devices@ == probed@.filter(|p: Result<MmcDevice, MmcError>| p is Ok).map_values(
                |p: Result<MmcDevice, MmcError>| p->Ok_0),
    {
        Self::probe_and_init(None, probed)
    }

    /// The names of the managed cards among the entries of
    /// `sys/bus/mmc/devices`, each given with its `type` attribute, sorted.
    /// The entries of a directory have distinct names, so this is the
    /// sorted list of those names.
    pub fn probe_sysfs(entries: &Vec<(String, Option<String>)>) -> (r: Vec<String>)
        ensures
            sorted_set_of(
                strings_view(r@),
                strings_view(
                    entries@.filter(|e: (String, Option<String>)| is_managed_entry(e)).map_values(
                        |e: (String, Option<String>)| e.0,
                    ),
                ),
            ),
    {
        let names = managed_entry_names(entries);
        sorted_unique(&names)
    }

    /// The sysfs root the cards were read from.
    pub fn sysfs_root(&self) -> (r: &str)
        ensures
            r@ == self.root_spec(),
    {
        self.sysfs_root.as_str()
    }

    /// The cards found.
    pub fn status(&self) -> (r: MmcStatus)
        ensures
            crate::model::same_mmc_status(r, self.status_spec()),
    {
        self.status.clone()
    }

    /// Whether any card was found.
    pub fn is_initialized(&self) -> (r: bool)
        ensures
            r == self.status_spec().initialized,
    {
        self.status.initialized
    }
}

} // verus!
