//! Probing a board: what its device tree, its system files and its tools
//! report, turned into the board's identity, storage, network, services,
//! capabilities and alerts.
use vstd::prelude::*;
use crate::lex::{lines, lines_exec, parse_decimal, parse_unsigned, words, words_exec};
use crate::model::{strings_view, Alert, AlertLevel, Capability, DeviceIdentity, NetworkInterface, ProbeMode, ServiceState, ServiceSummary, StorageMetric};
use crate::source_files::vecs_view;
use crate::text::{chars_of, contains, contains_str, eq_str, is_alnum, lower_all, lower_seq, owned, slice, starts_with, starts_with_str, string_of};

verus! {

/// The SoC vendor a device-tree compatible string or SoC name names,
/// recognised by its prefix in lower case.
pub open spec fn vendor_spec(v: Seq<char>) -> Option<Seq<char>> {
    let l = lower_seq(v);
    if starts_with(l, "rockchip,"@) || starts_with(l, "rockchip "@) || starts_with(l, "rk35"@) {
        Some("Rockchip"@)
    } else if starts_with(l, "allwinner,"@) || starts_with(l, "allwinner "@) || starts_with(l, "sunxi"@) || starts_with(l, "sun50"@) {
        Some("Allwinner"@)
    } else if starts_with(l, "cix,"@) || starts_with(l, "cix "@) {
        Some("CIX"@)
    } else if starts_with(l, "qcom,"@) || starts_with(l, "qualcomm"@) || starts_with(l, "snapdragon"@) || starts_with(l, "qcs"@) {
        Some("Qualcomm"@)
    } else if starts_with(l, "amlogic,"@) || starts_with(l, "amlogic "@) {
        Some("Amlogic"@)
    } else if starts_with(l, "brcm,"@) || starts_with(l, "broadcom"@) || starts_with(l, "bcm"@) {
        Some("Broadcom"@)
    } else if starts_with(l, "mediatek,"@) || starts_with(l, "mediatek "@) || starts_with(l, "mtk"@) {
        Some("MediaTek"@)
    } else if starts_with(l, "nvidia,"@) || starts_with(l, "nvidia "@) || starts_with(l, "tegra"@) {
        Some("NVIDIA"@)
    } else if starts_with(l, "nxp,"@) || starts_with(l, "nxp "@) || starts_with(l, "fsl,"@) || starts_with(l, "imx"@) {
        Some("NXP"@)
    } else if starts_with(l, "starfive,"@) || starts_with(l, "starfive "@) || starts_with(l, "jh71"@) {
        Some("StarFive"@)
    } else if starts_with(l, "sophgo,"@) || starts_with(l, "sophgo "@) || starts_with(l, "cv18"@) {
        Some("Sophgo"@)
    } else {
        None
    }
}

fn vendor_exec(v: &Vec<char>) -> (r: Option<&'static str>)
    ensures
        match r {
            Some(s) => vendor_spec(v@) == Some(s@),
            None => vendor_spec(v@) is None,
        },
{
    let l = lower_all(v);
    if starts_with_str(&l, "rockchip,") || starts_with_str(&l, "rockchip ") || starts_with_str(&l, "rk35") {
        Some("Rockchip")
    } else if starts_with_str(&l, "allwinner,") || starts_with_str(&l, "allwinner ") || starts_with_str(&l, "sunxi") || starts_with_str(&l, "sun50") {
        Some("Allwinner")
    } else if starts_with_str(&l, "cix,") || starts_with_str(&l, "cix ") {
        Some("CIX")
    } else if starts_with_str(&l, "qcom,") || starts_with_str(&l, "qualcomm") || starts_with_str(&l, "snapdragon") || starts_with_str(&l, "qcs") {
        Some("Qualcomm")
    } else if starts_with_str(&l, "amlogic,") || starts_with_str(&l, "amlogic ") {
        Some("Amlogic")
    } else if starts_with_str(&l, "brcm,") || starts_with_str(&l, "broadcom") || starts_with_str(&l, "bcm") {
        Some("Broadcom")
    } else if starts_with_str(&l, "mediatek,") || starts_with_str(&l, "mediatek ") || starts_with_str(&l, "mtk") {
        Some("MediaTek")
    } else if starts_with_str(&l, "nvidia,") || starts_with_str(&l, "nvidia ") || starts_with_str(&l, "tegra") {
        Some("NVIDIA")
    } else if starts_with_str(&l, "nxp,") || starts_with_str(&l, "nxp ") || starts_with_str(&l, "fsl,") || starts_with_str(&l, "imx") {
        Some("NXP")
    } else if starts_with_str(&l, "starfive,") || starts_with_str(&l, "starfive ") || starts_with_str(&l, "jh71") {
        Some("StarFive")
    } else if starts_with_str(&l, "sophgo,") || starts_with_str(&l, "sophgo ") || starts_with_str(&l, "cv18") {
        Some("Sophgo")
    } else {
        None
    }
}

/// The vendor the first of `values`, at or after `from`, that names one
/// names.
pub open spec fn first_vendor(values: Seq<Seq<char>>, from: int) -> Option<Seq<char>>
    decreases values.len() - from,
{
    if from < 0 || from >= values.len() {
        None
    } else {
        match vendor_spec(values[from]) {
            Some(v) => Some(v),
            None => first_vendor(values, from + 1),
        }
    }
}

/// The SoC vendor of a board: the first of its compatible strings, then
/// its SoC name, that names one.
pub fn detect_soc_vendor(compatibles: &Vec<String>, soc: &str) -> (r: Option<&'static str>)
    ensures
        match r {
            Some(s) => first_vendor(strings_view(compatibles@).push(soc@), 0) == Some(s@),
            None => first_vendor(strings_view(compatibles@).push(soc@), 0) is None,
        },
{
    let ghost all = strings_view(compatibles@).push(soc@);
    let mut i: usize = 0;
    while i < compatibles.len()
        invariant
            i <= compatibles.len(),
            all == strings_view(compatibles@).push(soc@),
            first_vendor(all, 0) == first_vendor(all, i as int),
        decreases compatibles.len() - i,
    {
        let v = chars_of(compatibles[i].as_str());
        assert(all[i as int] == v@);
        match vendor_exec(&v) {
            Some(name) => {
                return Some(name);
            },
            None => {},
        }
        i = i + 1;
    }
    let v = chars_of(soc);
    assert(all[compatibles@.len() as int] == soc@);
    assert(first_vendor(all, compatibles@.len() + 1int) is None);
    vendor_exec(&v)
}

/// The SoC of a board: the part after the first comma of the first
/// compatible string that has one, `unknown-soc` when none has.
pub open spec fn soc_spec(values: Seq<Seq<char>>, from: int) -> Seq<char>
    decreases values.len() - from,
{
    if from < 0 || from >= values.len() {
        "unknown-soc"@
    } else {
        match crate::lex::index_of(values[from], ',') {
            Some(i) => values[from].skip(i + 1),
            None => soc_spec(values, from + 1),
        }
    }
}

/// The SoC of a board (see [`soc_spec`]).
pub fn soc_name(compatibles: &Vec<String>) -> (r: String)
    ensures
        r@ == soc_spec(strings_view(compatibles@), 0),
{
    let ghost all = strings_view(compatibles@);
    let mut i: usize = 0;
    while i < compatibles.len()
        invariant
            i <= compatibles.len(),
            all == strings_view(compatibles@),
            soc_spec(all, 0) == soc_spec(all, i as int),
        decreases compatibles.len() - i,
    {
        let v = chars_of(compatibles[i].as_str());
        assert(all[i as int] == v@);
        proof {
            crate::lex::lemma_index_of_props(v@, ',');
        }
        match crate::lex::index_of_exec(&v, ',') {
            Some(k) => {
                assert(k < v@.len());
                assert(v@.len() == v.len());
                let rest = slice(&v, k + 1, v.len());
                assert(rest@ == v@.skip(k + 1));
                return string_of(&rest);
            },
            None => {},
        }
        i = i + 1;
    }
    owned("unknown-soc")
}

/// A capability as shown: detected ones with their detail, the others
/// as not detected.
pub fn capability(id: &str, label: &str, available: bool, available_detail: &str) -> (r: Capability)
    ensures
        r.id@ == id@,
        r.label@ == label@,
        r.available == available,
        r.detail@ == if available {
            available_detail@
        } else {
            "Not detected on this device"@
        },
{
    Capability {
        id: owned(id),
        label: owned(label),
        available,
        detail: if available {
            owned(available_detail)
        } else {
            owned("Not detected on this device")
        },
    }
}

/// The state `systemctl is-active` reports.
pub open spec fn service_state_of(text: Option<Seq<char>>) -> ServiceState {
    match text {
        Some(t) => if t == "active"@ {
            ServiceState::Active
        } else if t == "inactive"@ {
            ServiceState::Inactive
        } else if t == "failed"@ {
            ServiceState::Failed
        } else {
            ServiceState::Unknown
        },
        None => ServiceState::Unknown,
    }
}

/// A service as `systemctl is-active` reports it: its state, and the
/// report itself as detail (`systemd state unavailable` without one).
pub fn service_summary(id: &str, label: &str, reported: Option<String>) -> (r: ServiceSummary)
    ensures
        r.id@ == id@,
        r.label@ == label@,
        r.state == service_state_of(
            match reported {
                Some(t) => Some(t@),
                None => None,
            },
        ),
        r.detail@ == match reported {
            Some(t) => t@,
            None => "systemd state unavailable"@,
        },
{
    match reported {
        Some(t) => {
            let v = chars_of(t.as_str());
            let state = if eq_str(&v, "active") {
                ServiceState::Active
            } else if eq_str(&v, "inactive") {
                ServiceState::Inactive
            } else if eq_str(&v, "failed") {
                ServiceState::Failed
            } else {
                ServiceState::Unknown
            };
            ServiceSummary { id: owned(id), label: owned(label), state, detail: t }
        },
        None => ServiceSummary {
            id: owned(id),
            label: owned(label),
            state: ServiceState::Unknown,
            detail: owned("systemd state unavailable"),
        },
    }
}

/// The probe mode in effect: a `demo` or `live` setting wins; otherwise
/// the mode asked for, and `auto` is live on Linux, a demonstration
/// elsewhere.
pub open spec fn mode_spec(requested: ProbeMode, setting: Option<Seq<char>>, linux: bool) -> ProbeMode {
    if setting == Some("demo"@) {
        ProbeMode::Demo
    } else if setting == Some("live"@) {
        ProbeMode::Live
    } else if requested != ProbeMode::Auto {
        requested
    } else if linux {
        ProbeMode::Live
    } else {
        ProbeMode::Demo
    }
}

/// The probe mode in effect (see [`mode_spec`]); `setting` is the value of
/// the mode setting, `linux` whether the host runs Linux.
pub fn resolve_mode(requested: ProbeMode, setting: Option<&str>, linux: bool) -> (r: ProbeMode)
    ensures
        r == mode_spec(
            requested,
            match setting {
                Some(s) => Some(s@),
                None => None,
            },
            linux,
        ),
{
    match setting {
        Some(s) => {
            let v = chars_of(s);
            if eq_str(&v, "demo") {
                return ProbeMode::Demo;
            }
            if eq_str(&v, "live") {
                return ProbeMode::Live;
            }
        },
        None => {},
    }
    if requested != ProbeMode::Auto {
        requested
    } else if linux {
        ProbeMode::Live
    } else {
        ProbeMode::Demo
    }
}

/// The ASCII letters and digits of `s`, at most `n` of them.
pub open spec fn alnum_prefix(s: Seq<char>, n: nat) -> Seq<char>
    decreases s.len(),
{
    if s.len() == 0 || n == 0 {
        seq![]
    } else if is_alnum(s[0]) {
        seq![s[0]] + alnum_prefix(s.drop_first(), (n - 1) as nat)
    } else {
        alnum_prefix(s.drop_first(), n)
    }
}

/// A stable id of a board: the first 16 ASCII letters and digits of its
/// machine id, or, without one, of `hostname-product`.
pub open spec fn device_id_spec(hostname: Seq<char>, product: Seq<char>, machine_id: Seq<char>) -> Seq<char> {
    let seed = if machine_id.len() == 0 {
        hostname + "-"@ + product
    } else {
        machine_id
    };
    alnum_prefix(seed, 16)
}

/// A stable id of a board (see [`device_id_spec`]).
pub fn stable_device_id(hostname: &str, product: &str, machine_id: &str) -> (r: String)
    ensures
        r@ == device_id_spec(hostname@, product@, machine_id@),
{
    let m = chars_of(machine_id);
    let seed = if m.len() == 0 {
        let mut v = chars_of(hostname);
        crate::text::extend_str(&mut v, "-");
        crate::text::extend_str(&mut v, product);
        v
    } else {
        m
    };
    let mut out: Vec<char> = Vec::new();
    let mut i: usize = 0;
    let ghost target = alnum_prefix(seed@, 16);
    assert(seed@.skip(0) =~= seed@);
    while i < seed.len() && out.len() < 16
        invariant
            i <= seed.len(),
            out@.len() <= 16,
            out@ + alnum_prefix(seed@.skip(i as int), (16 - out@.len()) as nat) == target,
        decreases seed.len() - i,
    {
        let ghost rest = seed@.skip(i as int);
        assert(rest[0] == seed@[i as int]);
        assert(rest.drop_first() =~= seed@.skip(i + 1));
        if crate::text::alnum(seed[i]) {
            let ghost before = out@;
            out.push(seed[i]);
            assert(out@ + alnum_prefix(seed@.skip(i + 1), (16 - out@.len()) as nat) =~= before + (
            seq![seed@[i as int]] + alnum_prefix(seed@.skip(i + 1), (16 - before.len() - 1) as nat)));
        }
        i = i + 1;
    }
    proof {
        if i == seed.len() {
            assert(seed@.skip(i as int).len() == 0);
        }
        assert(out@ + Seq::<char>::empty() =~= out@);
    }
    string_of(&out)
}

/// A file's text as the probes read it: trailing NUL, newline, carriage
/// return and space characters removed.
pub open spec fn trim_read_spec(s: Seq<char>) -> Seq<char>
    decreases s.len(),
{
    if s.len() > 0 && (s.last() == '\0' || s.last() == '\n' || s.last() == '\r' || s.last() == ' ') {
        trim_read_spec(s.drop_last())
    } else {
        s
    }
}

/// A file's text as the probes read it (see [`trim_read_spec`]).
pub fn trim_read(value: &str) -> (r: String)
    ensures
        r@ == trim_read_spec(value@),
{
    let v = chars_of(value);
    let mut n = v.len();
    assert(v@.take(n as int) =~= v@);
    while n > 0 && (v[n - 1] == '\0' || v[n - 1] == '\n' || v[n - 1] == '\r' || v[n - 1] == ' ')
        invariant
            n <= v.len(),
            trim_read_spec(v@) == trim_read_spec(v@.take(n as int)),
        decreases n,
    {
        assert(v@.take(n as int).drop_last() =~= v@.take(n - 1));
        n = n - 1;
    }
    let r = slice(&v, 0, n);
    assert(r@ == v@.take(n as int));
    string_of(&r)
}

/// The number of processors `/proc/cpuinfo` lists (lines that begin with
/// `processor`), at least one; one when it cannot be read.
pub open spec fn cpu_count_spec(cpuinfo: Option<Seq<char>>) -> nat {
    match cpuinfo {
        Some(t) => {
            let n = processor_lines(lines(t), lines(t).len() as int);
            if n == 0 {
                1
            } else {
                n
            }
        },
        None => 1,
    }
}

/// The number of the first `n` lines that begin with `processor`.
pub open spec fn processor_lines(ls: Seq<Seq<char>>, n: int) -> nat
    decreases n,
{
    if n <= 0 {
        0
    } else {
        processor_lines(ls, n - 1) + if starts_with(ls[n - 1], "processor"@) {
            1nat
        } else {
            0nat
        }
    }
}

/// The number of processors (see [`cpu_count_spec`]).
pub fn cpu_count(cpuinfo: Option<&str>) -> (r: usize)
    ensures
        r == cpu_count_spec(
            match cpuinfo {
                Some(t) => Some(t@),
                None => None,
            },
        ),
{
    match cpuinfo {
        None => 1,
        Some(t) => {
            let v = chars_of(t);
            let ls = lines_exec(&v);
            let ghost lv = vecs_view(ls@);
            assert(lv == lines(t@));
            let mut count: usize = 0;
            let mut i: usize = 0;
            while i < ls.len()
                invariant
                    i <= ls.len(),
                    lv == vecs_view(ls@),
                    count == processor_lines(lv, i as int),
                    count <= i,
                decreases ls.len() - i,
            {
                assert(lv[i as int] == ls@[i as int]@);
                if starts_with_str(&ls[i], "processor") {
                    count = count + 1;
                }
                i = i + 1;
            }
            if count == 0 {
                1
            } else {
                count
            }
        },
    }
}

/// An MTD device name: `mtd` and one or more digits.
pub open spec fn mtd_name_spec(id: Seq<char>) -> bool {
    starts_with(id, "mtd"@) && id.len() > 3 && forall|i: int| 3 <= i < id.len() ==> crate::text::is_digit(#[trigger] id[i])
}

/// Whether `id` names an MTD device (see [`mtd_name_spec`]).
pub fn is_mtd_name(id: &str) -> (r: bool)
    ensures
        r == mtd_name_spec(id@),
{
    proof {
        reveal_strlit("mtd");
    }
    let v = chars_of(id);
    if !starts_with_str(&v, "mtd") || v.len() <= 3 {
        return false;
    }
    let mut i: usize = 3;
    while i < v.len()
        invariant
            3 <= i <= v.len(),
            v@ == id@,
            forall|j: int| 3 <= j < i ==> crate::text::is_digit(#[trigger] v@[j]),
        decreases v.len() - i,
    {
        if !crate::text::digit(v[i]) {
            assert(!crate::text::is_digit(id@[i as int]));
            return false;
        }
        i = i + 1;
    }
    true
}

/// Whether an MTD device type is NOR flash (`nor` in any letter case).
pub fn is_nor_type(kind: &str) -> (r: bool)
    ensures
        r == (lower_seq(kind@) == "nor"@),
{
    let v = chars_of(kind);
    let l = lower_all(&v);
    eq_str(&l, "nor")
}

/// `s` with every leading copy of `p` removed.
pub open spec fn strip_leading(s: Seq<char>, p: Seq<char>) -> Seq<char>
    decreases s.len(),
{
    if p.len() > 0 && starts_with(s, p) {
        strip_leading(s.skip(p.len() as int), p)
    } else {
        s
    }
}

fn strip_leading_exec(s: &Vec<char>, p: &str) -> (r: Vec<char>)
    ensures
        r@ == strip_leading(s@, p@),
{
    let pv = chars_of(p);
    if pv.len() == 0 {
        return slice(s, 0, s.len());
    }
    let mut at: usize = 0;
    assert(s@.skip(0) =~= s@);
    while pv.len() <= s.len() - at && crate::text::occurs_at_exec(s, &pv, at)
        invariant
            at <= s.len(),
            pv@ == p@,
            pv@.len() > 0,
            strip_leading(s@, p@) == strip_leading(s@.skip(at as int), p@),
        decreases s.len() - at,
    {
        assert(s@.skip(at as int).take(p@.len() as int) =~= s@.subrange(at as int, at + p@.len()));
        assert(s@.skip(at as int).skip(p@.len() as int) =~= s@.skip(at + p@.len()));
        at = at + pv.len();
    }
    proof {
        let t = s@.skip(at as int);
        if starts_with(t, p@) {
            assert(t.take(p@.len() as int) =~= s@.subrange(at as int, at + p@.len()));
        }
    }
    let r = slice(s, at, s.len());
    assert(r@ =~= s@.skip(at as int));
    r
}

/// `x` times 1024, or the largest `u64` when that does not fit.
pub open spec fn kib_to_bytes(x: u64) -> u64 {
    if x * 1024 > u64::MAX {
        u64::MAX
    } else {
        (x * 1024) as u64
    }
}

fn kib_to_bytes_exec(x: u64) -> (r: u64)
    ensures
        r == kib_to_bytes(x),
{
    if x > u64::MAX / 1024 {
        u64::MAX
    } else {
        x * 1024
    }
}

/// The file system a line of `df -Pk` output describes: the device without
/// its `/dev/` prefix, the mount point, the used and total sizes in bytes,
/// and whether the device is removable (its name mentions `mmc` or
/// `sd`). Lines with fewer than six fields or unreadable sizes describe
/// none.
pub open spec fn df_line(line: Seq<char>) -> Option<(Seq<char>, Seq<char>, u64, u64, bool)> {
    let f = words(line);
    if f.len() < 6 {
        None
    } else {
        match (parse_unsigned(f[2], 10, u64::MAX as nat), parse_unsigned(f[1], 10, u64::MAX as nat)) {
            (Some(used), Some(total)) => Some(
                (
                    strip_leading(f[0], "/dev/"@),
                    f[5],
                    kib_to_bytes(used as u64),
                    kib_to_bytes(total as u64),
                    contains(f[0], "mmc"@) || contains(f[0], "sd"@),
                ),
            ),
            _ => None,
        }
    }
}

/// The parts of a file-system record.
pub open spec fn metric_view(m: StorageMetric) -> (Seq<char>, Seq<char>, u64, u64, bool) {
    (m.name@, m.mount_point@, m.used_bytes, m.total_bytes, m.removable)
}

/// The parts of a list of file-system records.
pub open spec fn metrics_view(v: Seq<StorageMetric>) -> Seq<(Seq<char>, Seq<char>, u64, u64, bool)> {
    v.map_values(|m: StorageMetric| metric_view(m))
}

/// The file systems described by lines `1..n` of `df -Pk` output (the
/// first line is the header).
pub open spec fn df_metrics(ls: Seq<Seq<char>>, n: int) -> Seq<(Seq<char>, Seq<char>, u64, u64, bool)>
    decreases n,
{
    if n <= 1 {
        seq![]
    } else {
        df_metrics(ls, n - 1) + match df_line(ls[n - 1]) {
            Some(m) => seq![m],
            None => seq![],
        }
    }
}

/// The file systems `df -Pk` reports (see [`df_line`]).
pub fn parse_df(output: &str) -> (r: Vec<StorageMetric>)
    ensures
        metrics_view(r@) == df_metrics(lines(output@), lines(output@).len() as int),
{
    let v = chars_of(output);
    let ls = lines_exec(&v);
    let ghost lv = vecs_view(ls@);
    assert(lv == lines(output@));
    let mut r: Vec<StorageMetric> = Vec::new();
    let mut i: usize = 1;
    assert(metrics_view(r@) =~= df_metrics(lv, 1));
    while i < ls.len()
        invariant
            1 <= i,
            i <= ls.len() || (ls.len() == 0 && i == 1),
            lv == vecs_view(ls@),
            metrics_view(r@) == df_metrics(lv, i as int),
        decreases ls.len() - i,
    {
        let line = &ls[i];
        assert(lv[i as int] == line@);
        let f = words_exec(line);
        let ghost fv = f@.map_values(|x: Vec<char>| x@);
        assert(fv == words(line@));
        let ghost before = metrics_view(r@);
        if f.len() >= 6 {
            assert(fv[2] == f@[2]@ && fv[1] == f@[1]@ && fv[0] == f@[0]@ && fv[5] == f@[5]@);
            let used = parse_decimal(&f[2], u64::MAX);
            let total = parse_decimal(&f[1], u64::MAX);
            match (used, total) {
                (Some(u), Some(t)) => {
                    let name = strip_leading_exec(&f[0], "/dev/");
                    let removable = contains_str(&f[0], "mmc") || contains_str(&f[0], "sd");
                    let m = StorageMetric {
                        name: string_of(&name),
                        mount_point: string_of(&f[5]),
                        used_bytes: kib_to_bytes_exec(u),
                        total_bytes: kib_to_bytes_exec(t),
                        removable,
                    };
                    let ghost mv = metric_view(m);
                    r.push(m);
                    assert(metrics_view(r@) =~= before.push(mv));
                },
                _ => {
                    assert(before =~= before + Seq::<(Seq<char>, Seq<char>, u64, u64, bool)>::empty());
                },
            }
        } else {
            assert(before =~= before + Seq::<(Seq<char>, Seq<char>, u64, u64, bool)>::empty());
        }
        i = i + 1;
    }
    proof {
        assert(lv == lines(output@));
        assert(lv.len() == ls@.len());
        if ls@.len() == 0 {
            assert(df_metrics(lv, 0) =~= df_metrics(lv, 1));
            assert(metrics_view(r@) == df_metrics(lv, 1));
            assert(metrics_view(r@) == df_metrics(lv, lv.len() as int));
        } else {
            assert(i == ls@.len());
            assert(metrics_view(r@) == df_metrics(lv, i as int));
            assert(metrics_view(r@) == df_metrics(lv, lv.len() as int));
        }
    }
    r
}

/// A counter read from sysfs: its decimal value, 0 when missing or
/// unreadable.
pub open spec fn counter_spec(text: Option<Seq<char>>) -> u64 {
    match text {
        Some(t) => match parse_unsigned(t, 10, u64::MAX as nat) {
            Some(v) => v as u64,
            None => 0,
        },
        None => 0,
    }
}

fn counter_exec(text: &Option<String>) -> (r: u64)
    ensures
        r == counter_spec(
            match *text {
                Some(t) => Some(t@),
                None => None,
            },
        ),
{
    match text {
        Some(t) => match parse_decimal(&chars_of(t.as_str()), u64::MAX) {
            Some(v) => v,
            None => 0,
        },
        None => 0,
    }
}

/// The IPv4 address `ip -brief -4 address show dev <name>` reports: its
/// third word, without the prefix length.
pub open spec fn address_spec(output: Seq<char>) -> Option<Seq<char>> {
    let w = words(output);
    if w.len() < 3 {
        None
    } else {
        match crate::lex::index_of(w[2], '/') {
            Some(i) => Some(w[2].take(i)),
            None => Some(w[2]),
        }
    }
}

fn address_exec(output: &String) -> (r: Option<String>)
    ensures
        match r {
            Some(a) => address_spec(output@) == Some(a@),
            None => address_spec(output@) is None,
        },
{
    let v = chars_of(output.as_str());
    let w = words_exec(&v);
    assert(w@.map_values(|x: Vec<char>| x@) == words(output@));
    if w.len() < 3 {
        return None;
    }
    let third = &w[2];
    assert(words(output@)[2] == third@);
    proof {
        crate::lex::lemma_index_of_props(third@, '/');
    }
    match crate::lex::index_of_exec(third, '/') {
        Some(i) => {
            let a = slice(third, 0, i);
            Some(string_of(&a))
        },
        None => Some(string_of(third)),
    }
}

/// A network interface as its sysfs entry and `ip` report it; the
/// loopback interface is left out. Interfaces whose name begins with `wl`
/// are wireless, the others Ethernet; an unknown state is `unknown`.
pub fn network_interface(
    name: &str,
    operstate: Option<String>,
    received: Option<String>,
    transmitted: Option<String>,
    ip_report: Option<String>,
) -> (r: Option<NetworkInterface>)
    ensures
        name@ == "lo"@ ==> r is None,
        name@ != "lo"@ ==> (r matches Some(n) && {
            &&& n.name@ == name@
            &&& n.kind@ == if starts_with(name@, "wl"@) {
                "wireless"@
            } else {
                "ethernet"@
            }
            &&& n.state@ == match operstate {
                Some(s) => s@,
                None => "unknown"@,
            }
            &&& n.received_bytes == counter_spec(
                match received {
                    Some(t) => Some(t@),
                    None => None,
                },
            )
            &&& n.transmitted_bytes == counter_spec(
                match transmitted {
                    Some(t) => Some(t@),
                    None => None,
                },
            )
            &&& match n.address {
                Some(a) => ip_report matches Some(t) && address_spec(t@) == Some(a@),
                None => ip_report is None || address_spec(ip_report->0@) is None,
            }
        }),
{
    let nv = chars_of(name);
    if eq_str(&nv, "lo") {
        return None;
    }
    let kind = if starts_with_str(&nv, "wl") {
        owned("wireless")
    } else {
        owned("ethernet")
    };
    let received_bytes = counter_exec(&received);
    let transmitted_bytes = counter_exec(&transmitted);
    let address = match &ip_report {
        Some(t) => address_exec(t),
        None => None,
    };
    let state = match operstate {
        Some(s) => s,
        None => owned("unknown"),
    };
    Some(NetworkInterface {
        name: owned(name),
        kind,
        state,
        address,
        received_bytes,
        transmitted_bytes,
    })
}

/// The `key` and number of a line of `/proc/meminfo`: the text before the
/// first `:`, and the first word after it read as a number.
pub open spec fn meminfo_entry(line: Seq<char>) -> Option<(Seq<char>, u64)> {
    match crate::lex::index_of(line, ':') {
        Some(i) => {
            let w = words(line.skip(i + 1));
            if w.len() > 0 {
                match parse_unsigned(w[0], 10, u64::MAX as nat) {
                    Some(v) => Some((line.take(i), v as u64)),
                    None => None,
                }
            } else {
                None
            }
        },
        None => None,
    }
}

/// The number the last of the first `n` lines that gives `key` one gives
/// it.
pub open spec fn meminfo_lookup(ls: Seq<Seq<char>>, key: Seq<char>, n: int) -> Option<u64>
    decreases n,
{
    if n <= 0 {
        None
    } else {
        match meminfo_entry(ls[n - 1]) {
            Some((k, v)) => if k == key {
                Some(v)
            } else {
                meminfo_lookup(ls, key, n - 1)
            },
            None => meminfo_lookup(ls, key, n - 1),
        }
    }
}

/// The value `/proc/meminfo` gives `key`, in KiB (0 when it gives none).
pub open spec fn meminfo_value(text: Seq<char>, key: Seq<char>) -> u64 {
    match meminfo_lookup(lines(text), key, lines(text).len() as int) {
        Some(v) => v,
        None => 0,
    }
}

fn meminfo_value_exec(ls: &Vec<Vec<char>>, key: &str) -> (r: u64)
    ensures
        r == match meminfo_lookup(vecs_view(ls@), key@, ls@.len() as int) {
            Some(v) => v,
            None => 0,
        },
{
    let ghost lv = vecs_view(ls@);
    let k = chars_of(key);
    let mut n = ls.len();
    while n > 0
        invariant
            n <= ls.len(),
            lv == vecs_view(ls@),
            k@ == key@,
            meminfo_lookup(lv, key@, ls@.len() as int) == meminfo_lookup(lv, key@, n as int),
        decreases n,
    {
        let line = &ls[n - 1];
        assert(lv[n - 1] == line@);
        proof {
            crate::lex::lemma_index_of_props(line@, ':');
        }
        match crate::lex::index_of_exec(line, ':') {
            Some(i) => {
                assert(i < line@.len());
                assert(line@.len() == line.len());
                let rest = slice(line, i + 1, line.len());
                assert(rest@ == line@.skip(i + 1));
                let w = words_exec(&rest);
                assert(w@.map_values(|x: Vec<char>| x@) == words(rest@));
                if w.len() > 0 {
                    assert(words(rest@)[0] == w@[0]@);
                    match parse_decimal(&w[0], u64::MAX) {
                        Some(v) => {
                            let head = slice(line, 0, i);
                            if seq_eq_chars(&head, &k) {
                                return v;
                            }
                        },
                        None => {},
                    }
                }
            },
            None => {},
        }
        n = n - 1;
    }
    0
}

fn seq_eq_chars(a: &Vec<char>, b: &Vec<char>) -> (r: bool)
    ensures
        r == (a@ == b@),
{
    crate::text::seq_eq(a, b)
}

/// The value `/proc/meminfo` gives `key`, in KiB (0 when it gives none).
pub fn meminfo_kib(meminfo: &str, key: &str) -> (r: u64)
    ensures
        r == meminfo_value(meminfo@, key@),
{
    let v = chars_of(meminfo);
    let ls = lines_exec(&v);
    assert(vecs_view(ls@) == lines(meminfo@));
    meminfo_value_exec(&ls, key)
}

/// The memory of a board in bytes, from `/proc/meminfo`: the total, and
/// the total less what is available (0 when more is available than the
/// total).
pub fn memory_bytes(meminfo: &str) -> (r: (u64, u64))
    requires
        meminfo_value(meminfo@, "MemTotal"@) * 1024 <= u64::MAX,
        meminfo_value(meminfo@, "MemAvailable"@) * 1024 <= u64::MAX,
    ensures
        r.0 == meminfo_value(meminfo@, "MemTotal"@) * 1024,
        r.1 == if meminfo_value(meminfo@, "MemTotal"@) >= meminfo_value(meminfo@, "MemAvailable"@) {
            (meminfo_value(meminfo@, "MemTotal"@) - meminfo_value(meminfo@, "MemAvailable"@)) * 1024
        } else {
            0
        },
{
    let v = chars_of(meminfo);
    let ls = lines_exec(&v);
    assert(vecs_view(ls@) == lines(meminfo@));
    let total = meminfo_value_exec(&ls, "MemTotal") * 1024;
    let available = meminfo_value_exec(&ls, "MemAvailable") * 1024;
    let used = if total >= available {
        total - available
    } else {
        0
    };
    (total, used)
}

/// The value line `l` of a `KEY=value` file gives `key`: the text after
/// the first `=`, without surrounding double quotes.
pub open spec fn key_value_entry(l: Seq<char>, key: Seq<char>) -> Option<Seq<char>> {
    match crate::lex::index_of(l, '=') {
        Some(i) => if l.take(i) == key {
            Some(crate::sources::trim_char(l.skip(i + 1), '"'))
        } else {
            None
        },
        None => None,
    }
}

/// The value the last of the first `n` lines that sets `key` gives it.
pub open spec fn key_value_lookup(ls: Seq<Seq<char>>, key: Seq<char>, n: int) -> Option<Seq<char>>
    decreases n,
{
    if n <= 0 {
        None
    } else {
        match key_value_entry(ls[n - 1], key) {
            Some(v) => Some(v),
            None => key_value_lookup(ls, key, n - 1),
        }
    }
}

/// The name of the operating system an os-release file gives: the last
/// `PRETTY_NAME` it sets, `Linux` when it sets none.
pub open spec fn operating_system_spec(os_release: Seq<char>) -> Seq<char> {
    match key_value_lookup(lines(os_release), "PRETTY_NAME"@, lines(os_release).len() as int) {
        Some(v) => v,
        None => "Linux"@,
    }
}

/// The name of the operating system (see [`operating_system_spec`]).
pub fn operating_system(os_release: &str) -> (r: String)
    ensures
        r@ == operating_system_spec(os_release@),
{
    let v = chars_of(os_release);
    let ls = lines_exec(&v);
    let ghost lv = vecs_view(ls@);
    assert(lv == lines(os_release@));
    let key = chars_of("PRETTY_NAME");
    let mut n = ls.len();
    while n > 0
        invariant
            n <= ls.len(),
            lv == vecs_view(ls@),
            lv == lines(os_release@),
            key@ == "PRETTY_NAME"@,
            key_value_lookup(lv, "PRETTY_NAME"@, ls@.len() as int) == key_value_lookup(
                lv,
                "PRETTY_NAME"@,
                n as int,
            ),
        decreases n,
    {
        let line = &ls[n - 1];
        assert(lv[n - 1] == line@);
        proof {
            crate::lex::lemma_index_of_props(line@, '=');
        }
        match crate::lex::index_of_exec(line, '=') {
            Some(i) => {
                assert(i < line@.len() && line@.len() == line.len());
                let head = slice(line, 0, i);
                if seq_eq_chars(&head, &key) {
                    let rest = slice(line, i + 1, line.len());
                    assert(rest@ == line@.skip(i + 1));
                    let value = crate::sources::trim_char_exec(&rest, '"');
                    return string_of(&value);
                }
            },
            None => {},
        }
        n = n - 1;
    }
    owned("Linux")
}

/// A file system is nearly full when it has a size and 90% or more of it
/// is used.
pub open spec fn nearly_full(m: StorageMetric) -> bool {
    m.total_bytes > 0 && (m.used_bytes * 100) / (m.total_bytes as int) >= 90
}

/// The alerts of a live board: a critical one when it runs hot, a warning
/// when a file system is nearly full.
pub fn live_alerts(running_hot: bool, storage: &Vec<StorageMetric>) -> (r: Vec<Alert>)
    requires
        forall|i: int|
            0 <= i < storage@.len() && (#[trigger] storage@[i]).total_bytes > 0 ==> storage@[i].used_bytes
                * 100 <= u64::MAX,
    ensures
        r@.len() == (if running_hot {
            1int
        } else {
            0int
        }) + (if exists|i: int| 0 <= i < storage@.len() && nearly_full(#[trigger] storage@[i]) {
            1int
        } else {
            0int
        }),
        running_hot ==> r@[0].id@ == "thermal-high"@ && r@[0].level == AlertLevel::Critical && r@[0].title@
            == "Thermal ceiling approaching"@ && r@[0].detail@
            == "Sustained operation above 80°C may throttle the board."@,
        (exists|i: int| 0 <= i < storage@.len() && nearly_full(#[trigger] storage@[i])) ==> r@.last().id@
            == "storage-high"@ && r@.last().level == AlertLevel::Warning && r@.last().title@
            == "Storage headroom is low"@ && r@.last().detail@
            == "One or more mounted filesystems are above 90% usage."@,
{
    let mut r: Vec<Alert> = Vec::new();
    if running_hot {
        r.push(
            Alert {
                id: owned("thermal-high"),
                level: AlertLevel::Critical,
                title: owned("Thermal ceiling approaching"),
                detail: owned("Sustained operation above 80°C may throttle the board."),
            },
        );
    }
    let mut full = false;
    let mut i: usize = 0;
    while i < storage.len()
        invariant
            i <= storage.len(),
            forall|j: int|
                0 <= j < storage@.len() && (#[trigger] storage@[j]).total_bytes > 0 ==> storage@[j].used_bytes
                    * 100 <= u64::MAX,
            full == exists|j: int| 0 <= j < i && nearly_full(#[trigger] storage@[j]),
        decreases storage.len() - i,
    {
        let m = &storage[i];
        if m.total_bytes > 0 && m.used_bytes * 100 / m.total_bytes >= 90 {
            assert(nearly_full(storage@[i as int]));
            full = true;
        }
        i = i + 1;
    }
    if full {
        r.push(
            Alert {
                id: owned("storage-high"),
                level: AlertLevel::Warning,
                title: owned("Storage headroom is low"),
                detail: owned("One or more mounted filesystems are above 90% usage."),
            },
        );
    }
    r
}

/// The byte strings between NUL bytes, empty ones left out.
pub open spec fn nul_pieces(b: Seq<u8>) -> Seq<Seq<u8>>
    decreases b.len(),
{
    if b.len() == 0 {
        seq![]
    } else {
        let rest = nul_pieces(b.drop_last());
        if b.last() == 0 {
            rest
        } else {
            nul_pieces_extend(rest, b.drop_last(), b.last())
        }
    }
}

/// The pieces after one more byte `c` (not NUL), given the pieces of `b`:
/// it extends the last piece when `b` ends inside one, else it starts one.
pub open spec fn nul_pieces_extend(rest: Seq<Seq<u8>>, b: Seq<u8>, c: u8) -> Seq<Seq<u8>> {
    if b.len() > 0 && b.last() != 0 && rest.len() > 0 {
        rest.drop_last().push(rest.last().push(c))
    } else {
        rest.push(seq![c])
    }
}

/// The strings a NUL-separated device-tree property holds, each decoded
/// as UTF-8 (invalid sequences replaced).
pub fn nul_separated(bytes: &[u8]) -> (r: Vec<String>)
    ensures
        r@.len() == nul_pieces(bytes@).len(),
        forall|i: int|
            0 <= i < r@.len() && vstd::utf8::valid_utf8(#[trigger] nul_pieces(bytes@)[i]) ==> r@[i]@
                == vstd::utf8::decode_utf8(nul_pieces(bytes@)[i]),
{
    let mut pieces: Vec<Vec<u8>> = Vec::new();
    let mut i: usize = 0;
    while i < bytes.len()
        invariant
            i <= bytes.len(),
            pieces@.map_values(|p: Vec<u8>| p@) == nul_pieces(bytes@.take(i as int)),
        decreases bytes.len() - i,
    {
        let b = bytes[i];
        let ghost before = pieces@.map_values(|p: Vec<u8>| p@);
        let ghost prefix = bytes@.take(i as int);
        assert(bytes@.take(i + 1).drop_last() =~= prefix);
        assert(bytes@.take(i + 1).last() == b);
        if b != 0 {
            let continues = i > 0 && bytes[i - 1] != 0 && pieces.len() > 0;
            if continues {
                assert(prefix.last() == bytes@[i - 1]);
                let last = pieces.len() - 1;
                let mut p = pieces.pop().unwrap();
                p.push(b);
                pieces.push(p);
                assert(pieces@.map_values(|p: Vec<u8>| p@) =~= before.drop_last().push(
                    before.last().push(b),
                ));
            } else {
                let mut p: Vec<u8> = Vec::new();
                p.push(b);
                pieces.push(p);
                assert(pieces@.map_values(|p: Vec<u8>| p@) =~= before.push(seq![b]));
            }
        }
        i = i + 1;
    }
    assert(bytes@.take(bytes@.len() as int) =~= bytes@);
    let ghost pv = pieces@.map_values(|p: Vec<u8>| p@);
    let mut r: Vec<String> = Vec::new();
    let mut k: usize = 0;
    while k < pieces.len()
        invariant
            k <= pieces.len(),
            pv == pieces@.map_values(|p: Vec<u8>| p@),
            pv == nul_pieces(bytes@),
            r@.len() == k,
            forall|j: int|
                0 <= j < k && vstd::utf8::valid_utf8(#[trigger] pv[j]) ==> r@[j]@ == vstd::utf8::decode_utf8(pv[j]),
        decreases pieces.len() - k,
    {
        assert(pv[k as int] == pieces@[k as int]@);
        r.push(crate::text::utf8_lossy(pieces[k].as_slice()));
        k = k + 1;
    }
    r
}

/// The services a live probe asks systemd about: id and label.
pub open spec fn probed_service(i: int) -> (Seq<char>, Seq<char>) {
    if i == 0 {
        ("ssh.service"@, "Remote shell"@)
    } else if i == 1 {
        ("NetworkManager.service"@, "Network manager"@)
    } else {
        ("docker.service"@, "Container runtime"@)
    }
}

/// The services a live probe asks systemd about (see [`probed_service`]).
pub fn probed_services() -> (r: Vec<(&'static str, &'static str)>)
    ensures
        r@.len() == 3,
        forall|i: int| 0 <= i < 3 ==> ((#[trigger] r@[i]).0@, r@[i].1@) == probed_service(i),
{
    let mut r: Vec<(&'static str, &'static str)> = Vec::new();
    r.push(("ssh.service", "Remote shell"));
    r.push(("NetworkManager.service", "Network manager"));
    r.push(("docker.service", "Container runtime"));
    r
}

/// The hardware features a board is asked about, in order: id, label, the
/// detail a live board shows when it has the feature, and the detail the
/// demonstration board shows.
pub open spec fn capability_row(i: int) -> (Seq<char>, Seq<char>, Seq<char>, Seq<char>) {
    if i == 0 {
        ("device-tree"@, "Device-tree overlays"@, "Overlay storage detected"@, "6 overlays available"@)
    } else if i == 1 {
        ("gpio"@, "GPIO"@, "Overlay-aware 40-pin map"@, "Overlay-aware 40-pin map"@)
    } else if i == 2 {
        ("video"@, "Video capture"@, "Video4Linux device"@, "2 Video4Linux devices"@)
    } else if i == 3 {
        ("thermal"@, "Thermal controls"@, "Kernel thermal subsystem"@, "3 zones · step_wise"@)
    } else if i == 4 {
        ("led"@, "LED control"@, "Linux LED class devices"@, "2 status LEDs · 1 RGB group"@)
    } else {
        ("spi-flash"@, "SPI boot flash"@, "SPI NOR MTD device"@, "16 MiB MTD device"@)
    }
}

/// What a live board has, from the presence of the device nodes and
/// sysfs entries of each feature (see [`capability_row`]); a missing one
/// reads "Not detected on this device".
pub fn live_capabilities(
    overlays: bool,
    gpio: bool,
    video: bool,
    thermal: bool,
    led: bool,
    spi_flash: bool,
) -> (r: Vec<Capability>)
    ensures
        r@.len() == 6,
        r@[0].id@ == "device-tree"@ && r@[0].available == overlays,
        r@[1].id@ == "gpio"@ && r@[1].available == gpio,
        r@[2].id@ == "video"@ && r@[2].available == video,
        r@[3].id@ == "thermal"@ && r@[3].available == thermal,
        r@[4].id@ == "led"@ && r@[4].available == led,
        r@[5].id@ == "spi-flash"@ && r@[5].available == spi_flash,
        forall|i: int|
            0 <= i < 6 ==> (#[trigger] r@[i]).id@ == capability_row(i).0 && r@[i].label@ == capability_row(i).1
                && r@[i].detail@ == if r@[i].available {
                capability_row(i).2
            } else {
                "Not detected on this device"@
            },
{
    let mut r: Vec<Capability> = Vec::new();
    r.push(capability("device-tree", "Device-tree overlays", overlays, "Overlay storage detected"));
    r.push(capability("gpio", "GPIO", gpio, "Overlay-aware 40-pin map"));
    r.push(capability("video", "Video capture", video, "Video4Linux device"));
    r.push(capability("thermal", "Thermal controls", thermal, "Kernel thermal subsystem"));
    r.push(capability("led", "LED control", led, "Linux LED class devices"));
    r.push(capability("spi-flash", "SPI boot flash", spi_flash, "SPI NOR MTD device"));
    r
}

/// The identity of the demonstration board.
pub fn demo_identity() -> (r: DeviceIdentity)
    ensures
        r.id@ == "demo-rock-5b-01"@,
        r.hostname@ == "lab-rock-5b"@,
        r.product@ == "Radxa ROCK 5B"@,
        r.soc@ == "Rockchip RK3588"@,
        r.soc_vendor matches Some(v) && v@ == "Rockchip"@,
        r.operating_system@ == "Radxa OS 2026 (demo)"@,
        r.kernel@ == "6.1.115-rk3588"@,
        r.architecture@ == "aarch64"@,
        r.mode == ProbeMode::Demo,
{
    DeviceIdentity {
        id: owned("demo-rock-5b-01"),
        hostname: owned("lab-rock-5b"),
        product: owned("Radxa ROCK 5B"),
        soc: owned("Rockchip RK3588"),
        soc_vendor: Some(owned("Rockchip")),
        operating_system: owned("Radxa OS 2026 (demo)"),
        kernel: owned("6.1.115-rk3588"),
        architecture: owned("aarch64"),
        mode: ProbeMode::Demo,
    }
}

fn metric(name: &str, mount_point: &str, used_bytes: u64, total_bytes: u64, removable: bool) -> (r:
    StorageMetric)
    ensures
        metric_view(r) == (name@, mount_point@, used_bytes, total_bytes, removable),
{
    StorageMetric { name: owned(name), mount_point: owned(mount_point), used_bytes, total_bytes, removable }
}

/// The file systems of the demonstration board.
pub fn demo_storage() -> (r: Vec<StorageMetric>)
    ensures
        metrics_view(r@) == seq![
            ("nvme0n1p2"@, "/"@, 76_826_968_064u64, 256_060_514_304u64, false),
            ("mmcblk0p1"@, "/boot"@, 512_753_664u64, 1_073_741_824u64, true),
        ],
{
    let mut r: Vec<StorageMetric> = Vec::new();
    r.push(metric("nvme0n1p2", "/", 76_826_968_064, 256_060_514_304, false));
    r.push(metric("mmcblk0p1", "/boot", 512_753_664, 1_073_741_824, true));
    assert(metrics_view(r@) =~= seq![
        ("nvme0n1p2"@, "/"@, 76_826_968_064u64, 256_060_514_304u64, false),
        ("mmcblk0p1"@, "/boot"@, 512_753_664u64, 1_073_741_824u64, true),
    ]);
    r
}

/// The network interfaces of the demonstration board.
pub fn demo_interfaces() -> (r: Vec<NetworkInterface>)
    ensures
        r@.len() == 2,
        r@[0].name@ == "eth0"@ && r@[0].kind@ == "ethernet"@ && r@[0].state@ == "online"@,
        r@[0].address matches Some(a) && a@ == "192.168.88.42"@,
        r@[0].received_bytes == 8_749_302_440 && r@[0].transmitted_bytes == 2_104_506_773,
        r@[1].name@ == "wlan0"@ && r@[1].kind@ == "wireless"@ && r@[1].state@ == "standby"@,
        r@[1].address is None,
        r@[1].received_bytes == 410_230_110 && r@[1].transmitted_bytes == 92_105_232,
{
    let mut r: Vec<NetworkInterface> = Vec::new();
    r.push(
        NetworkInterface {
            name: owned("eth0"),
            kind: owned("ethernet"),
            state: owned("online"),
            address: Some(owned("192.168.88.42")),
            received_bytes: 8_749_302_440,
            transmitted_bytes: 2_104_506_773,
        },
    );
    r.push(
        NetworkInterface {
            name: owned("wlan0"),
            kind: owned("wireless"),
            state: owned("standby"),
            address: None,
            received_bytes: 410_230_110,
            transmitted_bytes: 92_105_232,
        },
    );
    r
}

/// The services of the demonstration board.
pub fn demo_services() -> (r: Vec<ServiceSummary>)
    ensures
        r@.len() == 3,
        r@[0].id@ == "ssh.service"@ && r@[0].label@ == "Remote shell"@ && r@[0].state == ServiceState::Active
            && r@[0].detail@ == "Listening on :22"@,
        r@[1].id@ == "NetworkManager.service"@ && r@[1].label@ == "Network manager"@ && r@[1].state
            == ServiceState::Active && r@[1].detail@ == "2 interfaces managed"@,
        r@[2].id@ == "docker.service"@ && r@[2].label@ == "Container runtime"@ && r@[2].state
            == ServiceState::Inactive && r@[2].detail@ == "Installed · stopped"@,
{
    let mut r: Vec<ServiceSummary> = Vec::new();
    r.push(
        ServiceSummary {
            id: owned("ssh.service"),
            label: owned("Remote shell"),
            state: ServiceState::Active,
            detail: owned("Listening on :22"),
        },
    );
    r.push(
        ServiceSummary {
            id: owned("NetworkManager.service"),
            label: owned("Network manager"),
            state: ServiceState::Active,
            detail: owned("2 interfaces managed"),
        },
    );
    r.push(
        ServiceSummary {
            id: owned("docker.service"),
            label: owned("Container runtime"),
            state: ServiceState::Inactive,
            detail: owned("Installed · stopped"),
        },
    );
    r
}

/// The capabilities of the demonstration board: all present.
pub fn demo_capabilities() -> (r: Vec<Capability>)
    ensures
        r@.len() == 6,
        forall|i: int|
            0 <= i < 6 ==> (#[trigger] r@[i]).available && r@[i].id@ == capability_row(i).0 && r@[i].label@
                == capability_row(i).1 && r@[i].detail@ == capability_row(i).3,
{
    let mut r: Vec<Capability> = Vec::new();
    r.push(capability("device-tree", "Device-tree overlays", true, "6 overlays available"));
    r.push(capability("gpio", "GPIO", true, "Overlay-aware 40-pin map"));
    r.push(capability("video", "Video capture", true, "2 Video4Linux devices"));
    r.push(capability("thermal", "Thermal controls", true, "3 zones · step_wise"));
    r.push(capability("led", "LED control", true, "2 status LEDs · 1 RGB group"));
    r.push(capability("spi-flash", "SPI boot flash", true, "16 MiB MTD device"));
    r
}

/// The alert of the demonstration board: its telemetry is made up.
pub fn demo_alerts() -> (r: Vec<Alert>)
    ensures
        r@.len() == 1,
        r@[0].id@ == "demo-state"@ && r@[0].level == AlertLevel::Info,
        r@[0].title@ == "Synthetic telemetry"@,
        r@[0].detail@
            == "This host is not an SBC. Actions are simulated until RSETUP_MODE=live and RSETUP_EXECUTION=live are set on Linux."@,
{
    let mut r: Vec<Alert> = Vec::new();
    r.push(
        Alert {
            id: owned("demo-state"),
            level: AlertLevel::Info,
            title: owned("Synthetic telemetry"),
            detail: owned(
                "This host is not an SBC. Actions are simulated until RSETUP_MODE=live and RSETUP_EXECUTION=live are set on Linux.",
            ),
        },
    );
    r
}

/// The device-tree vendor prefixes (`<vendor>,`) that name a SoC
/// vendor, and the vendor each names.
pub open spec fn dt_vendor_prefix(i: int) -> (Seq<char>, Seq<char>) {
    if i == 0 {
        ("rockchip,"@, "Rockchip"@)
    } else if i == 1 {
        ("allwinner,"@, "Allwinner"@)
    } else if i == 2 {
        ("cix,"@, "CIX"@)
    } else if i == 3 {
        ("qcom,"@, "Qualcomm"@)
    } else if i == 4 {
        ("amlogic,"@, "Amlogic"@)
    } else if i == 5 {
        ("brcm,"@, "Broadcom"@)
    } else if i == 6 {
        ("mediatek,"@, "MediaTek"@)
    } else if i == 7 {
        ("nvidia,"@, "NVIDIA"@)
    } else if i == 8 {
        ("nxp,"@, "NXP"@)
    } else if i == 9 {
        ("fsl,"@, "NXP"@)
    } else if i == 10 {
        ("starfive,"@, "StarFive"@)
    } else {
        ("sophgo,"@, "Sophgo"@)
    }
}

proof fn lemma_first_chars(l: Seq<char>)
    ensures
        forall|q: Seq<char>|
            #[trigger] starts_with(l, q) && q.len() >= 3 ==> l[0] == q[0] && l[1] == q[1] && l[2] == q[2],
{
    assert forall|q: Seq<char>| #[trigger] starts_with(l, q) && q.len() >= 3 implies l[0] == q[0] && l[1] == q[1]
        && l[2] == q[2] by {
        assert(l.take(q.len() as int)[0] == l[0]);
        assert(l.take(q.len() as int)[1] == l[1]);
        assert(l.take(q.len() as int)[2] == l[2]);
    }
}

proof fn lemma_vendor_prefix(v: Seq<char>, i: int)
    requires
        0 <= i < 12,
        starts_with(lower_seq(v), dt_vendor_prefix(i).0),
    ensures
        vendor_spec(v) == Some(dt_vendor_prefix(i).1),
{
    reveal_strlit("Allwinner");
    reveal_strlit("Amlogic");
    reveal_strlit("Broadcom");
    reveal_strlit("CIX");
    reveal_strlit("MediaTek");
    reveal_strlit("NVIDIA");
    reveal_strlit("NXP");
    reveal_strlit("Qualcomm");
    reveal_strlit("Rockchip");
    reveal_strlit("Sophgo");
    reveal_strlit("StarFive");
    reveal_strlit("allwinner ");
    reveal_strlit("allwinner,");
    reveal_strlit("amlogic ");
    reveal_strlit("amlogic,");
    reveal_strlit("bcm");
    reveal_strlit("brcm,");
    reveal_strlit("broadcom");
    reveal_strlit("cix ");
    reveal_strlit("cix,");
    reveal_strlit("cv18");
    reveal_strlit("fsl,");
    reveal_strlit("imx");
    reveal_strlit("jh71");
    reveal_strlit("mediatek ");
    reveal_strlit("mediatek,");
    reveal_strlit("mtk");
    reveal_strlit("nvidia ");
    reveal_strlit("nvidia,");
    reveal_strlit("nxp ");
    reveal_strlit("nxp,");
    reveal_strlit("qcom,");
    reveal_strlit("qcs");
    reveal_strlit("qualcomm");
    reveal_strlit("rk35");
    reveal_strlit("rockchip ");
    reveal_strlit("rockchip,");
    reveal_strlit("snapdragon");
    reveal_strlit("sophgo ");
    reveal_strlit("sophgo,");
    reveal_strlit("starfive ");
    reveal_strlit("starfive,");
    reveal_strlit("sun50");
    reveal_strlit("sunxi");
    reveal_strlit("tegra");
    let l = lower_seq(v);
    lemma_first_chars(l);
    let p = dt_vendor_prefix(i).0;
    assert(l[0] == p[0] && l[1] == p[1] && l[2] == p[2]);
}

proof fn lemma_first_vendor_at(values: Seq<Seq<char>>, from: int, k: int)
    requires
        0 <= from <= k < values.len(),
        vendor_spec(values[k]) is Some,
        forall|j: int| from <= j < k ==> vendor_spec(#[trigger] values[j]) is None,
    ensures
        first_vendor(values, from) == vendor_spec(values[k]),
    decreases k - from,
{
    if from < k {
        lemma_first_vendor_at(values, from + 1, k);
    }
}

/// A compatible string that begins, in any case, with a device-tree vendor
/// prefix (see [`dt_vendor_prefix`]) makes its vendor the detected one
/// when no earlier compatible string names a vendor, whatever the SoC name.
pub proof fn law_vendor_prefix_names_the_vendor(compatibles: Seq<Seq<char>>, soc: Seq<char>, k: int, i: int)
    requires
        0 <= k < compatibles.len(),
        0 <= i < 12,
        starts_with(lower_seq(compatibles[k]), dt_vendor_prefix(i).0),
        forall|j: int| 0 <= j < k ==> vendor_spec(#[trigger] compatibles[j]) is None,
    ensures
        first_vendor(compatibles.push(soc), 0) == Some(dt_vendor_prefix(i).1),
{
    let all = compatibles.push(soc);
    lemma_vendor_prefix(compatibles[k], i);
    assert(all[k] == compatibles[k]);
    assert forall|j: int| 0 <= j < k implies vendor_spec(#[trigger] all[j]) is None by {
        assert(all[j] == compatibles[j]);
    }
    lemma_first_vendor_at(all, 0, k);
}

} // verus!
