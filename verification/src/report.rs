//! The text reports of the storage of a board (NVMe controllers, eMMC and
//! SD cards), in English or Chinese.
use vstd::prelude::*;
use crate::i18n::Locale;
use crate::model::{push_str, strings_view, MmcDevice, MmcStatus, NvmeDevice, NvmeStatus, StorageStatus};
use crate::text::{chars_of, decimal, decimal_spec, extend, extend_str, join_exec, join_spec, owned, string_of};

verus! {

/// The report of a card set that was not found: the reason, when known.
pub open spec fn uninitialized_text(zh: bool, message: Option<Seq<char>>) -> Seq<char> {
    match message {
        Some(m) => if zh {
            "未检测到 MMC/SD 存储设备，模块未激活。（"@ + m + "）"@
        } else {
            "No MMC/SD storage devices detected; module is uninitialized. ("@ + m + ")"@
        },
        None => if zh {
            "未检测到 MMC/SD 存储设备，模块未激活。"@
        } else {
            "No MMC/SD storage devices detected; module is uninitialized."@
        },
    }
}

/// The pre-EOL state of a card in words.
pub open spec fn pre_eol_text(zh: bool, v: u8) -> Seq<char> {
    if v == 0 {
        if zh { "未定义"@ } else { "Undefined"@ }
    } else if v == 1 {
        if zh { "正常"@ } else { "Normal"@ }
    } else if v == 2 {
        if zh { "预警 (80% 寿命)"@ } else { "Warning (80% endurance)"@ }
    } else if v == 3 {
        if zh { "紧急 (建议更换)"@ } else { "Urgent (replace soon)"@ }
    } else if zh {
        "未知 ("@ + decimal_spec(v as nat) + ")"@
    } else {
        "Unknown ("@ + decimal_spec(v as nat) + ")"@
    }
}

/// A life-time estimate in words.
pub open spec fn life_text(zh: bool, v: Option<u8>) -> Seq<char> {
    match v {
        Some(p) => decimal_spec(p as nat) + "%"@,
        None => if zh { "不支持"@ } else { "N/A"@ },
    }
}

/// The warning flags of a card in words.
pub open spec fn flags_text(zh: bool, flags: Seq<Seq<char>>) -> Seq<char> {
    if flags.len() == 0 {
        if zh { "无"@ } else { "None"@ }
    } else {
        join_spec(flags, ", "@)
    }
}

/// The lines that report one card whose capacity reads `size`.
pub open spec fn card_lines(zh: bool, d: MmcDevice, size: Seq<char>) -> Seq<Seq<char>> {
    let total = decimal_spec(d.total_bytes as nat);
    let a = life_text(zh, d.health.life_time_est_a_percent);
    let b = life_text(zh, d.health.life_time_est_b_percent);
    let flags = flags_text(zh, strings_view(d.health.warning_flags@));
    if zh {
        seq![
            "=== 存储设备: "@ + d.name@ + " ("@ + d.block_path@ + ") ["@ + d.card_type@ + "] ==="@,
            "  类型:             "@ + d.card_type@,
            "  型号:             "@ + d.model@,
            "  厂商:             "@ + d.manufacturer@,
            "  序列号:           "@ + d.serial@,
            "  固件版本:         "@ + d.firmware@,
            "  总容量:           "@ + size + " ("@ + total + " 字节)"@,
            "  预 EOL 状态:       "@ + pre_eol_text(zh, d.health.pre_eol_info),
            "  寿命估计 (A/B):   "@ + a + " / "@ + b,
            "  告警标志:         "@ + flags,
        ]
    } else {
        seq![
            "=== Storage Device: "@ + d.name@ + " ("@ + d.block_path@ + ") ["@ + d.card_type@ + "] ==="@,
            "  Type:             "@ + d.card_type@,
            "  Model:            "@ + d.model@,
            "  Manufacturer:   "@ + d.manufacturer@,
            "  Serial Number:    "@ + d.serial@,
            "  Firmware:         "@ + d.firmware@,
            "  Total Capacity:   "@ + size + " ("@ + total + " bytes)"@,
            "  Pre-EOL:            "@ + pre_eol_text(zh, d.health.pre_eol_info),
            "  Life Time Est (A/B): "@ + a + " / "@ + b,
            "  Warning Flags:    "@ + flags,
        ]
    }
}

/// The lines that report the first `n` cards, a blank line between two.
pub open spec fn cards_lines(zh: bool, ds: Seq<MmcDevice>, sizes: Seq<Seq<char>>, n: int) -> Seq<Seq<char>>
    decreases n,
{
    if n <= 0 {
        seq![]
    } else {
        cards_lines(zh, ds, sizes, n - 1) + (if n > 1 {
            seq![seq![]]
        } else {
            seq![]
        }) + card_lines(zh, ds[n - 1], sizes[n - 1])
    }
}

/// The report of the cards of a board; `sizes` holds the capacity of each
/// card in words.
pub open spec fn mmc_report(zh: bool, s: MmcStatus, sizes: Seq<Seq<char>>) -> Seq<char> {
    if !s.initialized {
        uninitialized_text(
            zh,
            match s.message {
                Some(m) => Some(m@),
                None => None,
            },
        )
    } else if s.devices@.len() == 0 {
        if zh {
            "已检测到 MMC 控制器，但未发现可用设备。"@
        } else {
            "MMC host detected, but no storage devices found."@
        }
    } else {
        join_spec(cards_lines(zh, s.devices@, sizes, s.devices@.len() as int), "\n"@)
    }
}

fn pre_eol_exec(zh: bool, v: u8) -> (r: String)
    ensures
        r@ == pre_eol_text(zh, v),
{
    if v == 0 {
        owned(if zh { "未定义" } else { "Undefined" })
    } else if v == 1 {
        owned(if zh { "正常" } else { "Normal" })
    } else if v == 2 {
        owned(if zh { "预警 (80% 寿命)" } else { "Warning (80% endurance)" })
    } else if v == 3 {
        owned(if zh { "紧急 (建议更换)" } else { "Urgent (replace soon)" })
    } else {
        let mut t = chars_of(if zh { "未知 (" } else { "Unknown (" });
        extend(&mut t, &decimal(v as u64));
        extend_str(&mut t, ")");
        string_of(&t)
    }
}

fn life_exec(zh: bool, v: Option<u8>) -> (r: String)
    ensures
        r@ == life_text(zh, v),
{
    match v {
        Some(p) => {
            let mut t = decimal(p as u64);
            extend_str(&mut t, "%");
            string_of(&t)
        },
        None => owned(if zh { "不支持" } else { "N/A" }),
    }
}

fn two(a: &str, b: &str) -> (r: String)
    ensures
        r@ == a@ + b@,
{
    let mut v = chars_of(a);
    extend_str(&mut v, b);
    string_of(&v)
}

fn card_lines_exec(zh: bool, d: &MmcDevice, size: &str) -> (r: Vec<String>)
    ensures
        strings_view(r@) == card_lines(zh, *d, size@),
{
    let total = string_of(&decimal(d.total_bytes));
    let a = life_exec(zh, d.health.life_time_est_a_percent);
    let b = life_exec(zh, d.health.life_time_est_b_percent);
    let flags = if d.health.warning_flags.len() == 0 {
        owned(if zh { "无" } else { "None" })
    } else {
        join_exec(&d.health.warning_flags, ", ")
    };
    let pre = pre_eol_exec(zh, d.health.pre_eol_info);
    let mut out: Vec<String> = Vec::new();
    let mut h = chars_of(if zh { "=== 存储设备: " } else { "=== Storage Device: " });
    extend_str(&mut h, d.name.as_str());
    extend_str(&mut h, " (");
    extend_str(&mut h, d.block_path.as_str());
    extend_str(&mut h, ") [");
    extend_str(&mut h, d.card_type.as_str());
    extend_str(&mut h, "] ===");
    push_str(&mut out, string_of(&h).as_str());
    push_str(&mut out, two(if zh { "  类型:             " } else { "  Type:             " }, d.card_type.as_str()).as_str());
    push_str(&mut out, two(if zh { "  型号:             " } else { "  Model:            " }, d.model.as_str()).as_str());
    push_str(&mut out, two(if zh { "  厂商:             " } else { "  Manufacturer:   " }, d.manufacturer.as_str()).as_str());
    push_str(&mut out, two(if zh { "  序列号:           " } else { "  Serial Number:    " }, d.serial.as_str()).as_str());
    push_str(&mut out, two(if zh { "  固件版本:         " } else { "  Firmware:         " }, d.firmware.as_str()).as_str());
    let mut c = chars_of(if zh { "  总容量:           " } else { "  Total Capacity:   " });
    extend_str(&mut c, size);
    extend_str(&mut c, " (");
    extend_str(&mut c, total.as_str());
    extend_str(&mut c, if zh { " 字节)" } else { " bytes)" });
    push_str(&mut out, string_of(&c).as_str());
    push_str(&mut out, two(if zh { "  预 EOL 状态:       " } else { "  Pre-EOL:            " }, pre.as_str()).as_str());
    let mut l = chars_of(if zh { "  寿命估计 (A/B):   " } else { "  Life Time Est (A/B): " });
    extend_str(&mut l, a.as_str());
    extend_str(&mut l, " / ");
    extend_str(&mut l, b.as_str());
    push_str(&mut out, string_of(&l).as_str());
    push_str(&mut out, two(if zh { "  告警标志:         " } else { "  Warning Flags:    " }, flags.as_str()).as_str());
    proof {
        assert(strings_view(out@) =~= card_lines(zh, *d, size@));
    }
    out
}

/// The report of the cards of a board (see [`mmc_report`]); `sizes` holds
/// the capacity of each card in words, one per card.
pub fn format_mmc_status(status: &MmcStatus, locale: Locale, sizes: &Vec<String>) -> (r: String)
    requires
        sizes@.len() == status.devices@.len(),
    ensures
        r@ == mmc_report(locale == Locale::ZhCn, *status, strings_view(sizes@)),
{
    let zh = locale.is_zh();
    if !status.initialized {
        return match &status.message {
            Some(m) => {
                let mut v = chars_of(
                    if zh {
                        "未检测到 MMC/SD 存储设备，模块未激活。（"
                    } else {
                        "No MMC/SD storage devices detected; module is uninitialized. ("
                    },
                );
                extend_str(&mut v, m.as_str());
                extend_str(&mut v, if zh { "）" } else { ")" });
                string_of(&v)
            },
            None => owned(
                if zh {
                    "未检测到 MMC/SD 存储设备，模块未激活。"
                } else {
                    "No MMC/SD storage devices detected; module is uninitialized."
                },
            ),
        };
    }
    if status.devices.len() == 0 {
        return owned(
            if zh {
                "已检测到 MMC 控制器，但未发现可用设备。"
            } else {
                "MMC host detected, but no storage devices found."
            },
        );
    }
    let ghost sv = strings_view(sizes@);
    let mut lines: Vec<String> = Vec::new();
    let mut i: usize = 0;
    while i < status.devices.len()
        invariant
            i <= status.devices@.len(),
            sizes@.len() == status.devices@.len(),
            sv == strings_view(sizes@),
            strings_view(lines@) == cards_lines(zh, status.devices@, sv, i as int),
        decreases status.devices@.len() - i,
    {
        let ghost before = strings_view(lines@);
        if i > 0 {
            proof {
                reveal_strlit("");
                assert(""@ =~= Seq::<char>::empty());
            }
            push_str(&mut lines, "");
            assert(strings_view(lines@) =~= before + seq![Seq::<char>::empty()]);
        }
        let ghost mid = strings_view(lines@);
        let card = card_lines_exec(zh, &status.devices[i], sizes[i].as_str());
        let mut k: usize = 0;
        while k < card.len()
            invariant
                k <= card@.len(),
                strings_view(lines@) == mid + strings_view(card@).take(k as int),
            decreases card@.len() - k,
        {
            push_str(&mut lines, card[k].as_str());
            assert(strings_view(card@).take(k + 1) =~= strings_view(card@).take(k as int).push(card@[k as int]@));
            assert(strings_view(lines@) =~= mid + strings_view(card@).take(k + 1));
            k = k + 1;
        }
        assert(strings_view(card@).take(card@.len() as int) =~= strings_view(card@));
        proof {
            if i > 0 {
                assert(mid =~= before + seq![Seq::<char>::empty()]);
            } else {
                assert(mid =~= before + Seq::<Seq<char>>::empty());
            }
            assert(sv[i as int] == sizes@[i as int]@);
        }
        i = i + 1;
    }
    join_exec(&lines, "\n")
}


// ----------------------------------------------------------------------
// NVMe
// ----------------------------------------------------------------------

/// The figures of an NVMe report that are written with decimals, as the
/// caller wrote them: the capacity, the temperature in degrees Celsius,
/// and the data read and written.
pub struct NvmeFigures {
    pub size: String,
    pub temperature: String,
    pub data_read: String,
    pub data_written: String,
}

/// The report of controllers that were not found: the reason, when known.
pub open spec fn nvme_uninitialized_text(zh: bool, message: Option<Seq<char>>) -> Seq<char> {
    match message {
        Some(m) => if zh {
            "未检测到 NVMe 存储设备，模块未激活。（"@ + m + "）"@
        } else {
            "No NVMe storage devices detected; module is uninitialized. ("@ + m + ")"@
        },
        None => if zh {
            "未检测到 NVMe 存储设备，模块未激活。"@
        } else {
            "No NVMe storage devices detected; module is uninitialized."@
        },
    }
}

/// The lines that report one controller: who it is and its capacity, then,
/// when its SMART log was read, its temperature, spare, wear, traffic,
/// power history, error counts and warnings.
pub open spec fn controller_lines(zh: bool, d: NvmeDevice, f: NvmeFigures) -> Seq<Seq<char>> {
    let total = decimal_spec(d.total_bytes as nat);
    let who = if zh {
        seq![
            "=== NVMe 设备: "@ + d.name@ + " ("@ + d.path@ + ") ==="@,
            "  型号:             "@ + d.model@,
            "  序列号:           "@ + d.serial@,
            "  固件版本:         "@ + d.firmware@,
            "  总容量:           "@ + f.size@ + " ("@ + total + " 字节)"@,
        ]
    } else {
        seq![
            "=== NVMe Device: "@ + d.name@ + " ("@ + d.path@ + ") ==="@,
            "  Model:            "@ + d.model@,
            "  Serial Number:    "@ + d.serial@,
            "  Firmware:         "@ + d.firmware@,
            "  Total Capacity:   "@ + f.size@ + " ("@ + total + " bytes)"@,
        ]
    };
    match d.smart {
        None => who,
        Some(s) => {
            let flags = flags_text(zh, strings_view(s.warning_flags@));
            let spare = decimal_spec(s.available_spare_percent as nat);
            let threshold = decimal_spec(s.spare_threshold_percent as nat);
            let used = decimal_spec(s.percentage_used as nat);
            let hours = decimal_spec(s.power_on_hours as nat);
            let shutdowns = decimal_spec(s.unsafe_shutdowns as nat);
            let media = decimal_spec(s.media_errors as nat);
            let entries = decimal_spec(s.num_err_log_entries as nat);
            who + if zh {
                seq![
                    "  当前温度:         "@ + f.temperature@ + " °C"@,
                    "  备用空间/阈值:    "@ + spare + "% / "@ + threshold + "%"@,
                    "  已使用寿命:       "@ + used + "%"@,
                    "  数据读写量:       读取 "@ + f.data_read@ + " / 写入 "@ + f.data_written@,
                    "  通电时间/不安全关机: "@ + hours + " 小时 / "@ + shutdowns + " 次"@,
                    "  错误计数:         介质错误 "@ + media + " / 错误日志项 "@ + entries,
                    "  告警状态:         "@ + flags,
                ]
            } else {
                seq![
                    "  Temperature:      "@ + f.temperature@ + " °C"@,
                    "  Available Spare:  "@ + spare + "% (threshold: "@ + threshold + "%)"@,
                    "  Percentage Used:  "@ + used + "%"@,
                    "  Data Read/Write:  Read "@ + f.data_read@ + " / Written "@ + f.data_written@,
                    "  Power-on/Shutdown: "@ + hours + " hrs / "@ + shutdowns + " unsafe shutdowns"@,
                    "  Error Counts:     Media errors: "@ + media + " / Error entries: "@ + entries,
                    "  Critical Warning: "@ + flags,
                ]
            }
        },
    }
}

/// The lines that report the first `n` controllers, a blank line between
/// two.
pub open spec fn controllers_lines(zh: bool, ds: Seq<NvmeDevice>, fs: Seq<NvmeFigures>, n: int) -> Seq<
    Seq<char>,
>
    decreases n,
{
    if n <= 0 {
        seq![]
    } else {
        controllers_lines(zh, ds, fs, n - 1) + (if n > 1 {
            seq![seq![]]
        } else {
            seq![]
        }) + controller_lines(zh, ds[n - 1], fs[n - 1])
    }
}

/// The report of the NVMe controllers of a board; `figures` holds the
/// decimal figures of each controller.
pub open spec fn nvme_report(zh: bool, s: NvmeStatus, figures: Seq<NvmeFigures>) -> Seq<char> {
    if !s.initialized {
        nvme_uninitialized_text(
            zh,
            match s.message {
                Some(m) => Some(m@),
                None => None,
            },
        )
    } else if s.devices@.len() == 0 {
        if zh {
            "已检测到 NVMe 控制器，但未发现可用命名空间/设备。"@
        } else {
            "NVMe controller detected, but no storage devices/namespaces found."@
        }
    } else {
        join_spec(controllers_lines(zh, s.devices@, figures, s.devices@.len() as int), "\n"@)
    }
}

fn with_number(prefix: &str, n: u64, suffix: &str) -> (r: Vec<char>)
    ensures
        r@ == prefix@ + decimal_spec(n as nat) + suffix@,
{
    let mut v = chars_of(prefix);
    extend(&mut v, &decimal(n));
    extend_str(&mut v, suffix);
    v
}

fn controller_lines_exec(zh: bool, d: &NvmeDevice, f: &NvmeFigures) -> (r: Vec<String>)
    ensures
        strings_view(r@) == controller_lines(zh, *d, *f),
{
    let total = string_of(&decimal(d.total_bytes));
    let mut out: Vec<String> = Vec::new();
    let mut h = chars_of(if zh { "=== NVMe 设备: " } else { "=== NVMe Device: " });
    extend_str(&mut h, d.name.as_str());
    extend_str(&mut h, " (");
    extend_str(&mut h, d.path.as_str());
    extend_str(&mut h, ") ===");
    push_str(&mut out, string_of(&h).as_str());
    push_str(&mut out, two(if zh { "  型号:             " } else { "  Model:            " }, d.model.as_str()).as_str());
    push_str(&mut out, two(if zh { "  序列号:           " } else { "  Serial Number:    " }, d.serial.as_str()).as_str());
    push_str(&mut out, two(if zh { "  固件版本:         " } else { "  Firmware:         " }, d.firmware.as_str()).as_str());
    let mut c = chars_of(if zh { "  总容量:           " } else { "  Total Capacity:   " });
    extend_str(&mut c, f.size.as_str());
    extend_str(&mut c, " (");
    extend_str(&mut c, total.as_str());
    extend_str(&mut c, if zh { " 字节)" } else { " bytes)" });
    push_str(&mut out, string_of(&c).as_str());
    match &d.smart {
        None => {},
        Some(s) => {
            let flags = if s.warning_flags.len() == 0 {
                owned(if zh { "无" } else { "None" })
            } else {
                join_exec(&s.warning_flags, ", ")
            };
            let mut t = chars_of(if zh { "  当前温度:         " } else { "  Temperature:      " });
            extend_str(&mut t, f.temperature.as_str());
            extend_str(&mut t, " °C");
            push_str(&mut out, string_of(&t).as_str());
            let mut sp = with_number(
                if zh { "  备用空间/阈值:    " } else { "  Available Spare:  " },
                s.available_spare_percent as u64,
                if zh { "% / " } else { "% (threshold: " },
            );
            extend(&mut sp, &decimal(s.spare_threshold_percent as u64));
            extend_str(&mut sp, if zh { "%" } else { "%)" });
            push_str(&mut out, string_of(&sp).as_str());
            let u = with_number(
                if zh { "  已使用寿命:       " } else { "  Percentage Used:  " },
                s.percentage_used as u64,
                "%",
            );
            push_str(&mut out, string_of(&u).as_str());
            let mut rw = chars_of(if zh { "  数据读写量:       读取 " } else { "  Data Read/Write:  Read " });
            extend_str(&mut rw, f.data_read.as_str());
            extend_str(&mut rw, if zh { " / 写入 " } else { " / Written " });
            extend_str(&mut rw, f.data_written.as_str());
            push_str(&mut out, string_of(&rw).as_str());
            let mut p = with_number(
                if zh { "  通电时间/不安全关机: " } else { "  Power-on/Shutdown: " },
                s.power_on_hours,
                if zh { " 小时 / " } else { " hrs / " },
            );
            extend(&mut p, &decimal(s.unsafe_shutdowns));
            extend_str(&mut p, if zh { " 次" } else { " unsafe shutdowns" });
            push_str(&mut out, string_of(&p).as_str());
            let mut e = with_number(
                if zh { "  错误计数:         介质错误 " } else { "  Error Counts:     Media errors: " },
                s.media_errors,
                if zh { " / 错误日志项 " } else { " / Error entries: " },
            );
            extend(&mut e, &decimal(s.num_err_log_entries));
            push_str(&mut out, string_of(&e).as_str());
            push_str(&mut out, two(if zh { "  告警状态:         " } else { "  Critical Warning: " }, flags.as_str()).as_str());
        },
    }
    proof {
        assert(strings_view(out@) =~= controller_lines(zh, *d, *f));
    }
    out
}

/// The report of the NVMe controllers of a board (see [`nvme_report`]);
/// `figures` holds the decimal figures of each controller, one per
/// controller.
pub fn format_nvme_status(status: &NvmeStatus, locale: Locale, figures: &Vec<NvmeFigures>) -> (r: String)
    requires
        figures@.len() == status.devices@.len(),
    ensures
        r@ == nvme_report(locale == Locale::ZhCn, *status, figures@),
{
    let zh = locale.is_zh();
    if !status.initialized {
        return match &status.message {
            Some(m) => {
                let mut v = chars_of(
                    if zh {
                        "未检测到 NVMe 存储设备，模块未激活。（"
                    } else {
                        "No NVMe storage devices detected; module is uninitialized. ("
                    },
                );
                extend_str(&mut v, m.as_str());
                extend_str(&mut v, if zh { "）" } else { ")" });
                string_of(&v)
            },
            None => owned(
                if zh {
                    "未检测到 NVMe 存储设备，模块未激活。"
                } else {
                    "No NVMe storage devices detected; module is uninitialized."
                },
            ),
        };
    }
    if status.devices.len() == 0 {
        return owned(
            if zh {
                "已检测到 NVMe 控制器，但未发现可用命名空间/设备。"
            } else {
                "NVMe controller detected, but no storage devices/namespaces found."
            },
        );
    }
    let mut lines: Vec<String> = Vec::new();
    let mut i: usize = 0;
    while i < status.devices.len()
        invariant
            i <= status.devices@.len(),
            figures@.len() == status.devices@.len(),
            strings_view(lines@) == controllers_lines(zh, status.devices@, figures@, i as int),
        decreases status.devices@.len() - i,
    {
        let ghost before = strings_view(lines@);
        if i > 0 {
            proof {
                reveal_strlit("");
                assert(""@ =~= Seq::<char>::empty());
            }
            push_str(&mut lines, "");
            assert(strings_view(lines@) =~= before + seq![Seq::<char>::empty()]);
        }
        let ghost mid = strings_view(lines@);
        let block = controller_lines_exec(zh, &status.devices[i], &figures[i]);
        let mut k: usize = 0;
        while k < block.len()
            invariant
                k <= block@.len(),
                strings_view(lines@) == mid + strings_view(block@).take(k as int),
            decreases block@.len() - k,
        {
            push_str(&mut lines, block[k].as_str());
            assert(strings_view(block@).take(k + 1) =~= strings_view(block@).take(k as int).push(block@[k as int]@));
            assert(strings_view(lines@) =~= mid + strings_view(block@).take(k + 1));
            k = k + 1;
        }
        assert(strings_view(block@).take(block@.len() as int) =~= strings_view(block@));
        proof {
            if i > 0 {
                assert(mid =~= before + seq![Seq::<char>::empty()]);
            } else {
                assert(mid =~= before + Seq::<Seq<char>>::empty());
            }
        }
        i = i + 1;
    }
    join_exec(&lines, "\n")
}

/// The report of all the storage of a board: the NVMe report, a blank
/// line, then the eMMC and SD report.
pub fn format_storage_status(
    status: &StorageStatus,
    locale: Locale,
    nvme_figures: &Vec<NvmeFigures>,
    mmc_sizes: &Vec<String>,
) -> (r: String)
    requires
        nvme_figures@.len() == status.nvme.devices@.len(),
        mmc_sizes@.len() == status.mmc.devices@.len(),
    ensures
        r@ == nvme_report(locale == Locale::ZhCn, status.nvme, nvme_figures@) + "\n\n"@ + mmc_report(
            locale == Locale::ZhCn,
            status.mmc,
            strings_view(mmc_sizes@),
        ),
{
    let nvme = format_nvme_status(&status.nvme, locale, nvme_figures);
    let mmc = format_mmc_status(&status.mmc, locale, mmc_sizes);
    let mut v = chars_of(nvme.as_str());
    extend_str(&mut v, "\n\n");
    extend_str(&mut v, mmc.as_str());
    string_of(&v)
}

/// The sum of `rows`.
pub open spec fn rows_total(rows: Seq<usize>) -> int
    decreases rows.len(),
{
    if rows.len() == 0 {
        0
    } else {
        rows_total(rows.drop_last()) + rows.last()
    }
}

/// The height of the storage card of the overview screen, in terminal
/// rows, when its devices take `rows` rows each and the screen is
/// `area_height` rows high: two border rows around the devices' rows and
/// one blank row between devices (three rows when there is no device), but
/// no more than what the two cards above and the service list below leave
/// (16 rows), and never under three.
pub open spec fn storage_card_height_spec(rows: Seq<usize>, area_height: int) -> int {
    let desired = if rows.len() == 0 {
        3
    } else {
        2 + rows_total(rows) + rows.len() - 1
    };
    let headroom = if area_height > 16 {
        area_height - 16
    } else {
        0
    };
    let fitted = if desired < headroom {
        desired
    } else {
        headroom
    };
    if fitted > 3 {
        fitted
    } else {
        3
    }
}

/// The height of the storage card (see [`storage_card_height_spec`]).
pub fn storage_card_height(rows: &Vec<usize>, area_height: u16) -> (r: usize)
    requires
        rows_total(rows@) + rows@.len() + 2 <= usize::MAX,
    ensures
        r == storage_card_height_spec(rows@, area_height as int),
{
    let mut total: usize = 0;
    let mut i: usize = 0;
    while i < rows.len()
        invariant
            i <= rows.len(),
            total == rows_total(rows@.take(i as int)),
            rows_total(rows@) + rows@.len() + 2 <= usize::MAX,
        decreases rows.len() - i,
    {
        proof {
            lemma_rows_total_prefix(rows@, i as int + 1);
            assert(rows@.take(i + 1).drop_last() =~= rows@.take(i as int));
        }
        total = total + rows[i];
        i = i + 1;
    }
    assert(rows@.take(rows@.len() as int) =~= rows@);
    let desired: usize = if rows.len() == 0 {
        3
    } else {
        2 + total + (rows.len() - 1)
    };
    let headroom: usize = if area_height > 16 {
        (area_height - 16) as usize
    } else {
        0
    };
    let fitted = if desired < headroom {
        desired
    } else {
        headroom
    };
    if fitted > 3 {
        fitted
    } else {
        3
    }
}

proof fn lemma_rows_total_prefix(rows: Seq<usize>, n: int)
    requires
        0 <= n <= rows.len(),
    ensures
        rows_total(rows.take(n)) <= rows_total(rows),
    decreases rows.len() - n,
{
    if n < rows.len() {
        lemma_rows_total_prefix(rows, n + 1);
        assert(rows.take(n + 1).drop_last() =~= rows.take(n));
    } else {
        assert(rows.take(n) =~= rows);
    }
}

} // verus!
