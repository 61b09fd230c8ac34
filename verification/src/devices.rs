//! What the probes of a board report about its GPIO header, cameras and
//! thermal control, turned into device records and decisions.
use vstd::prelude::*;
use crate::hardware::HardwareError;
use crate::lex::{parse_decimal, parse_unsigned, words, words_exec};
use crate::model::{push_str, strings_view};
use crate::order::{sorted_set_of, sorted_unique};
use crate::text::{chars_of, eq_str, owned, starts_with, starts_with_str, string_of};

verus! {

/// The sorted list of the distinct strings of `v`.
pub open spec fn sorted_of(v: Seq<Seq<char>>) -> Seq<Seq<char>> {
    choose|s: Seq<Seq<char>>| sorted_set_of(s, v)
}

/// The first index, at or after `from`, of `id` in `names`.
pub open spec fn index_named(names: Seq<Seq<char>>, id: Seq<char>, from: int) -> int
    decreases names.len() - from,
{
    if from < 0 || from >= names.len() {
        names.len() as int
    } else if names[from] == id {
        from
    } else {
        index_named(names, id, from + 1)
    }
}

proof fn lemma_index_named(names: Seq<Seq<char>>, id: Seq<char>, from: int, k: int)
    requires
        0 <= from <= k <= names.len(),
        forall|j: int| from <= j < k ==> names[j] != id,
    ensures
        k < names.len() && names[k] == id ==> index_named(names, id, from) == k,
    decreases k - from,
{
    if from < k {
        lemma_index_named(names, id, from + 1, k);
    }
}

/// When `id` occurs at or after `from`, the index found holds it.
pub proof fn lemma_index_named_found(names: Seq<Seq<char>>, id: Seq<char>, from: int)
    requires
        0 <= from,
        index_named(names, id, from) < names.len(),
    ensures
        names[index_named(names, id, from)] == id,
        names.contains(id),
    decreases names.len() - from,
{
    if from < names.len() && names[from] != id {
        lemma_index_named_found(names, id, from + 1);
    }
}

/// The index of the first of `names` equal to `id`.
pub(crate) fn find_name(names: &Vec<String>, id: &str) -> (r: usize)
    requires
        strings_view(names@).contains(id@),
    ensures
        r < names@.len(),
        r as int == index_named(strings_view(names@), id@, 0),
        names@[r as int]@ == id@,
{
    let ghost nv = strings_view(names@);
    let k = chars_of(id);
    let mut i: usize = 0;
    while i < names.len()
        invariant
            i <= names.len(),
            nv == strings_view(names@),
            k@ == id@,
            nv.contains(id@),
            forall|j: int| 0 <= j < i ==> nv[j] != id@,
        decreases names.len() - i,
    {
        let c = chars_of(names[i].as_str());
        if crate::text::seq_eq(&c, &k) {
            proof {
                lemma_index_named(nv, id@, 0, i as int);
            }
            return i;
        }
        i = i + 1;
    }
    proof {
        let j = choose|j: int| 0 <= j < nv.len() && nv[j] == id@;
        assert(nv[j] != id@);
    }
    0
}

/// A number read from a sysfs attribute: its decimal value, when it is one
/// that fits.
pub open spec fn attr_u32(text: Option<Seq<char>>) -> Option<u32> {
    match text {
        Some(t) => match parse_unsigned(t, 10, u32::MAX as nat) {
            Some(v) => Some(v as u32),
            None => None,
        },
        None => None,
    }
}

fn attr_u32_exec(text: &Option<String>) -> (r: Option<u32>)
    ensures
        r == attr_u32(opt_view(*text)),
{
    match text {
        Some(t) => match parse_decimal(&chars_of(t.as_str()), u32::MAX as u64) {
            Some(v) => Some(v as u32),
            None => None,
        },
        None => None,
    }
}

/// The characters of an optional string.
pub open spec fn opt_view(o: Option<String>) -> Option<Seq<char>> {
    match o {
        Some(s) => Some(s@),
        None => None,
    }
}

// ----------------------------------------------------------------------
// GPIO
// ----------------------------------------------------------------------

/// A GPIO controller.
#[derive(Debug, Clone, PartialEq, Eq)]
pub struct GpioChip {
    pub id: String,
    pub label: String,
    pub lines: Option<u32>,
}

/// A pin of the 40-pin header.
#[derive(Debug, Clone, PartialEq, Eq)]
pub struct GpioPin {
    pub physical_pin: u8,
    pub label: String,
    pub kind: String,
    pub chip: Option<String>,
    pub offset: Option<u32>,
    pub value: Option<String>,
}

/// An entry of `sys/bus/gpio/devices`: its name, and its `label` and
/// `ngpio` attributes when they could be read.
pub type GpioChipEntry = (String, Option<String>, Option<String>);

/// A GPIO controller as plain values: id, label, number of lines.
pub open spec fn chip_view(c: GpioChip) -> (Seq<char>, Seq<char>, Option<u32>) {
    (c.id@, c.label@, c.lines)
}

/// The controller an entry describes: its name is its id, and its label
/// when it has none.
pub open spec fn chip_of_entry(e: GpioChipEntry) -> (Seq<char>, Seq<char>, Option<u32>) {
    (e.0@, match e.1 {
        Some(l) => l@,
        None => e.0@,
    }, attr_u32(opt_view(e.2)))
}

/// The names of the entries.
pub open spec fn chip_names(es: Seq<GpioChipEntry>) -> Seq<Seq<char>> {
    es.map_values(|e: GpioChipEntry| e.0@)
}

/// The GPIO controllers among the entries of `sys/bus/gpio/devices` (those
/// named `gpiochip...`), sorted by id; each is built from the first entry
/// with its name.
pub fn gpio_chips(entries: &Vec<GpioChipEntry>) -> (r: Vec<GpioChip>)
    ensures
        ({
            let ids = sorted_of(chip_names(entries@).filter(|n: Seq<char>| starts_with(n, "gpiochip"@)));
            &&& r@.len() == ids.len()
            &&& forall|i: int|
                0 <= i < r@.len() ==> chip_view(#[trigger] r@[i]) == chip_of_entry(
                    entries@[index_named(chip_names(entries@), ids[i], 0)],
                )
        }),
{
    let ghost nv = chip_names(entries@);
    let mut names: Vec<String> = Vec::new();
    let mut kept: Vec<String> = Vec::new();
    let mut i: usize = 0;
    while i < entries.len()
        invariant
            i <= entries.len(),
            nv == chip_names(entries@),
            strings_view(names@) == nv.take(i as int),
            strings_view(kept@) == nv.take(i as int).filter(|n: Seq<char>| starts_with(n, "gpiochip"@)),
        decreases entries.len() - i,
    {
        let n = chars_of(entries[i].0.as_str());
        proof {
            let t = nv.take(i as int);
            let item = nv[i as int];
            assert(nv.take(i + 1) =~= t.push(item));
            assert(t.push(item).filter(|n: Seq<char>| starts_with(n, "gpiochip"@)) == if starts_with(item, "gpiochip"@) {
                t.filter(|n: Seq<char>| starts_with(n, "gpiochip"@)).push(item)
            } else {
                t.filter(|n: Seq<char>| starts_with(n, "gpiochip"@))
            }) by {
                reveal(Seq::filter);
                assert(t.push(item).drop_last() =~= t);
            }
        }
        if starts_with_str(&n, "gpiochip") {
            push_str(&mut kept, entries[i].0.as_str());
        }
        push_str(&mut names, entries[i].0.as_str());
        i = i + 1;
    }
    assert(nv.take(entries@.len() as int) =~= nv);
    let ghost kv = strings_view(kept@);
    let sorted = sorted_unique(&kept);
    let ghost ids = sorted_of(kv);
    proof {
        crate::order::lemma_sorted_set_unique(strings_view(sorted@), ids);
    }
    let mut r: Vec<GpioChip> = Vec::new();
    let mut k: usize = 0;
    while k < sorted.len()
        invariant
            k <= sorted@.len(),
            strings_view(sorted@) == ids,
            ids.to_set() == kv.to_set(),
            kv == nv.filter(|n: Seq<char>| starts_with(n, "gpiochip"@)),
            strings_view(names@) == nv,
            nv == chip_names(entries@),
            r@.len() == k,
            forall|i: int|
                0 <= i < k ==> chip_view(#[trigger] r@[i]) == chip_of_entry(entries@[index_named(nv, ids[i], 0)]),
        decreases sorted@.len() - k,
    {
        proof {
            assert(ids.contains(ids[k as int]));
            assert(ids.to_set().contains(ids[k as int]));
            assert(kv.contains(ids[k as int]));
            let j = choose|j: int| 0 <= j < kv.len() && kv[j] == ids[k as int];
            assert(kv.contains(kv[j]));
            nv.lemma_filter_contains_rev(|n: Seq<char>| starts_with(n, "gpiochip"@), kv[j]);
        }
        let at = find_name(&names, sorted[k].as_str());
        let e = &entries[at];
        let label = match &e.1 {
            Some(l) => owned(l.as_str()),
            None => owned(e.0.as_str()),
        };
        let lines = attr_u32_exec(&e.2);
        r.push(GpioChip { id: owned(e.0.as_str()), label, lines });
        k = k + 1;
    }
    r
}

/// What a pin of the 40-pin header is: 3.3 V (pins 1 and 17), 5 V (2 and
/// 4), ground (6, 9, 14, 20, 25, 30, 34 and 39) or a GPIO line.
pub open spec fn pin_kind_spec(pin: u8) -> Seq<char> {
    if pin == 1 || pin == 17 {
        "3v3"@
    } else if pin == 2 || pin == 4 {
        "5v"@
    } else if pin == 6 || pin == 9 || pin == 14 || pin == 20 || pin == 25 || pin == 30 || pin == 34 || pin == 39 {
        "ground"@
    } else {
        "gpio"@
    }
}

/// What a pin of the header is (see [`pin_kind_spec`]).
pub fn pin_kind(pin: u8) -> (r: &'static str)
    ensures
        r@ == pin_kind_spec(pin),
{
    if pin == 1 || pin == 17 {
        "3v3"
    } else if pin == 2 || pin == 4 {
        "5v"
    } else if pin == 6 || pin == 9 || pin == 14 || pin == 20 || pin == 25 || pin == 30 || pin == 34 || pin == 39 {
        "ground"
    } else {
        "gpio"
    }
}

/// The label of a pin: `PIN_<n>` for a GPIO line, else its kind in upper
/// case.
pub open spec fn pin_label_spec(pin: u8) -> Seq<char> {
    if pin_kind_spec(pin) == "gpio"@ {
        "PIN_"@ + crate::text::decimal_spec(pin as nat)
    } else {
        crate::text::upper_seq(pin_kind_spec(pin))
    }
}

fn pin_label(pin: u8) -> (r: String)
    ensures
        r@ == pin_label_spec(pin),
{
    let kind = pin_kind(pin);
    let kv = chars_of(kind);
    if eq_str(&kv, "gpio") {
        let mut v = chars_of("PIN_");
        let d = crate::text::decimal(pin as u64);
        crate::text::extend(&mut v, &d);
        string_of(&v)
    } else {
        let up = crate::text::upper_all(&kv);
        string_of(&up)
    }
}

/// Where `gpiofind` says a line is: its first word (the controller) and
/// its second (the offset, a decimal number).
pub open spec fn location_spec(output: Seq<char>) -> Option<(Seq<char>, u32)> {
    let w = words(output);
    if w.len() < 2 {
        None
    } else {
        match parse_unsigned(w[1], 10, u32::MAX as nat) {
            Some(v) => Some((w[0], v as u32)),
            None => None,
        }
    }
}

/// The level `gpioget` reports: `low` for `0` or `inactive`, `high` for
/// `1` or `active`.
pub open spec fn level_spec(reading: Seq<char>) -> Option<Seq<char>> {
    if reading == "0"@ || reading == "inactive"@ {
        Some("low"@)
    } else if reading == "1"@ || reading == "active"@ {
        Some("high"@)
    } else {
        None
    }
}

/// A pin of the header on a live board, given what `gpiofind PIN_<n>`
/// printed (`location`) and, for a located line, what `gpioget` printed
/// (`reading`): a power or ground pin is only its kind; a GPIO line is
/// `gpio` where it was located and `unmapped` where not.
pub fn header_pin(pin: u8, location: Option<String>, reading: Option<String>) -> (r: GpioPin)
    ensures
        r.physical_pin == pin,
        r.label@ == pin_label_spec(pin),
        pin_kind_spec(pin) != "gpio"@ ==> r.kind@ == pin_kind_spec(pin) && r.chip is None && r.offset is None
            && r.value is None,
        pin_kind_spec(pin) == "gpio"@ ==> match location {
            Some(l) => match location_spec(l@) {
                Some((chip, offset)) => r.kind@ == "gpio"@ && opt_view(r.chip) == Some(chip) && r.offset == Some(
                    offset,
                ) && opt_view(r.value) == match reading {
                    Some(v) => level_spec(v@),
                    None => None,
                },
                None => r.kind@ == "unmapped"@ && r.chip is None && r.offset is None && r.value is None,
            },
            None => r.kind@ == "unmapped"@ && r.chip is None && r.offset is None && r.value is None,
        },
{
    let kind = pin_kind(pin);
    let label = pin_label(pin);
    let kv = chars_of(kind);
    if !eq_str(&kv, "gpio") {
        return GpioPin { physical_pin: pin, label, kind: owned(kind), chip: None, offset: None, value: None };
    }
    let located = match &location {
        Some(l) => {
            let w = words_exec(&chars_of(l.as_str()));
            if w.len() < 2 {
                None
            } else {
                assert(w@.map_values(|v: Vec<char>| v@)[1] == w@[1]@);
                match parse_decimal(&w[1], u32::MAX as u64) {
                    Some(v) => Some((string_of(&w[0]), v as u32)),
                    None => None,
                }
            }
        },
        None => None,
    };
    match located {
        Some((chip, offset)) => {
            let value = match &reading {
                Some(v) => {
                    let rv = chars_of(v.as_str());
                    if eq_str(&rv, "0") || eq_str(&rv, "inactive") {
                        Some(owned("low"))
                    } else if eq_str(&rv, "1") || eq_str(&rv, "active") {
                        Some(owned("high"))
                    } else {
                        None
                    }
                },
                None => None,
            };
            GpioPin { physical_pin: pin, label, kind: owned("gpio"), chip: Some(chip), offset: Some(offset), value }
        },
        None => GpioPin { physical_pin: pin, label, kind: owned("unmapped"), chip: None, offset: None, value: None },
    }
}

/// The kernel command line names a serial console: a `console=` option
/// for a `ttyS`, `ttyAMA`, `ttyAML` or `ttyFIQ` device.
pub open spec fn serial_console_spec(cmdline: Seq<char>) -> bool {
    exists|i: int|
        0 <= i < words(cmdline).len() && {
            let w = #[trigger] words(cmdline)[i];
            starts_with(w, "console=ttyS"@) || starts_with(w, "console=ttyAMA"@) || starts_with(w, "console=ttyAML"@)
                || starts_with(w, "console=ttyFIQ"@)
        }
}

/// Whether the kernel command line names a serial console (see
/// [`serial_console_spec`]).
pub fn serial_console_detected(cmdline: &str) -> (r: bool)
    ensures
        r == serial_console_spec(cmdline@),
{
    let w = words_exec(&chars_of(cmdline));
    let ghost wv = w@.map_values(|v: Vec<char>| v@);
    assert(wv == words(cmdline@));
    let mut i: usize = 0;
    while i < w.len()
        invariant
            i <= w.len(),
            wv == w@.map_values(|v: Vec<char>| v@),
            wv == words(cmdline@),
            forall|j: int|
                0 <= j < i ==> !(starts_with(#[trigger] wv[j], "console=ttyS"@) || starts_with(wv[j], "console=ttyAMA"@)
                    || starts_with(wv[j], "console=ttyAML"@) || starts_with(wv[j], "console=ttyFIQ"@)),
        decreases w.len() - i,
    {
        assert(wv[i as int] == w@[i as int]@);
        if starts_with_str(&w[i], "console=ttyS") || starts_with_str(&w[i], "console=ttyAMA") || starts_with_str(
            &w[i],
            "console=ttyAML",
        ) || starts_with_str(&w[i], "console=ttyFIQ") {
            return true;
        }
        i = i + 1;
    }
    false
}

// ----------------------------------------------------------------------
// Cameras
// ----------------------------------------------------------------------

/// A Video4Linux device.
#[derive(Debug, Clone, PartialEq, Eq)]
pub struct VideoDevice {
    pub id: String,
    pub path: String,
    pub name: String,
    pub driver: Option<String>,
}

/// An entry of `sys/class/video4linux`: its name, its `name` attribute
/// and the name of its driver, when they could be read.
pub type VideoEntry = (String, Option<String>, Option<String>);

/// A camera as plain values: id, device path, name, driver.
pub open spec fn video_view(d: VideoDevice) -> (Seq<char>, Seq<char>, Seq<char>, Option<Seq<char>>) {
    (d.id@, d.path@, d.name@, opt_view(d.driver))
}

/// The camera an entry describes: `/dev/<id>`, named by its id when it has
/// no name.
pub open spec fn video_of_entry(e: VideoEntry) -> (Seq<char>, Seq<char>, Seq<char>, Option<Seq<char>>) {
    (e.0@, "/dev/"@ + e.0@, match e.1 {
        Some(n) => n@,
        None => e.0@,
    }, opt_view(e.2))
}

/// The names of the entries.
pub open spec fn video_names(es: Seq<VideoEntry>) -> Seq<Seq<char>> {
    es.map_values(|e: VideoEntry| e.0@)
}

/// The cameras among the entries of `sys/class/video4linux` (those with a
/// `video<n>` name), sorted by id; each is built from the first entry with
/// its name.
pub fn video_devices(entries: &Vec<VideoEntry>) -> (r: Vec<VideoDevice>)
    ensures
        ({
            let ids = sorted_of(video_names(entries@).filter(|n: Seq<char>| crate::hardware::video_id_spec(n)));
            &&& r@.len() == ids.len()
            &&& forall|i: int|
                0 <= i < r@.len() ==> video_view(#[trigger] r@[i]) == video_of_entry(
                    entries@[index_named(video_names(entries@), ids[i], 0)],
                )
        }),
{
    let ghost nv = video_names(entries@);
    let mut names: Vec<String> = Vec::new();
    let mut kept: Vec<String> = Vec::new();
    let mut i: usize = 0;
    while i < entries.len()
        invariant
            i <= entries.len(),
            nv == video_names(entries@),
            strings_view(names@) == nv.take(i as int),
            strings_view(kept@) == nv.take(i as int).filter(|n: Seq<char>| crate::hardware::video_id_spec(n)),
        decreases entries.len() - i,
    {
        proof {
            let t = nv.take(i as int);
            let item = nv[i as int];
            assert(nv.take(i + 1) =~= t.push(item));
            assert(t.push(item).filter(|n: Seq<char>| crate::hardware::video_id_spec(n)) == if crate::hardware::video_id_spec(item) {
                t.filter(|n: Seq<char>| crate::hardware::video_id_spec(n)).push(item)
            } else {
                t.filter(|n: Seq<char>| crate::hardware::video_id_spec(n))
            }) by {
                reveal(Seq::filter);
                assert(t.push(item).drop_last() =~= t);
            }
        }
        if crate::hardware::valid_video_id(entries[i].0.as_str()) {
            push_str(&mut kept, entries[i].0.as_str());
        }
        push_str(&mut names, entries[i].0.as_str());
        i = i + 1;
    }
    assert(nv.take(entries@.len() as int) =~= nv);
    let ghost kv = strings_view(kept@);
    let sorted = sorted_unique(&kept);
    let ghost ids = sorted_of(kv);
    proof {
        crate::order::lemma_sorted_set_unique(strings_view(sorted@), ids);
    }
    let mut r: Vec<VideoDevice> = Vec::new();
    let mut k: usize = 0;
    while k < sorted.len()
        invariant
            k <= sorted@.len(),
            strings_view(sorted@) == ids,
            ids.to_set() == kv.to_set(),
            kv == nv.filter(|n: Seq<char>| crate::hardware::video_id_spec(n)),
            strings_view(names@) == nv,
            nv == video_names(entries@),
            r@.len() == k,
            forall|i: int|
                0 <= i < k ==> video_view(#[trigger] r@[i]) == video_of_entry(entries@[index_named(nv, ids[i], 0)]),
        decreases sorted@.len() - k,
    {
        proof {
            assert(ids.contains(ids[k as int]));
            assert(ids.to_set().contains(ids[k as int]));
            assert(kv.contains(ids[k as int]));
            let j = choose|j: int| 0 <= j < kv.len() && kv[j] == ids[k as int];
            assert(kv.contains(kv[j]));
            nv.lemma_filter_contains_rev(|n: Seq<char>| crate::hardware::video_id_spec(n), kv[j]);
        }
        let at = find_name(&names, sorted[k].as_str());
        let e = &entries[at];
        let mut path = chars_of("/dev/");
        crate::text::extend_str(&mut path, e.0.as_str());
        let name = match &e.1 {
            Some(n) => owned(n.as_str()),
            None => owned(e.0.as_str()),
        };
        let driver = match &e.2 {
            Some(d) => Some(owned(d.as_str())),
            None => None,
        };
        r.push(VideoDevice { id: owned(e.0.as_str()), path: string_of(&path), name, driver });
        k = k + 1;
    }
    r
}

/// Whether a board with `devices` cameras can show them and capture a
/// test frame (which needs `ffmpeg` and `timeout`), and why not.
pub fn video_availability(devices: usize, ffmpeg: bool, timeout: bool) -> (r: (bool, bool, Option<String>))
    ensures
        r.0 == (devices > 0),
        r.1 == (devices > 0 && ffmpeg && timeout),
        devices == 0 ==> opt_view(r.2) == Some("No Video4Linux device was detected."@),
        devices > 0 && !(ffmpeg && timeout) ==> opt_view(r.2) == Some("Install ffmpeg to capture a webcam test frame."@),
        devices > 0 && ffmpeg && timeout ==> r.2 is None,
{
    let supported = devices > 0;
    let capture = supported && ffmpeg && timeout;
    let reason = if !supported {
        Some(owned("No Video4Linux device was detected."))
    } else if !capture {
        Some(owned("Install ffmpeg to capture a webcam test frame."))
    } else {
        None
    };
    (supported, capture, reason)
}

/// Whether a test frame may be captured from camera `device_id`: on a demo
/// board only `video0` and `video1` exist; on a live board the id must be a
/// Video4Linux name, one of `devices`, and capture must be available
/// (else the reason it is not).
pub fn check_capture(
    synthetic: bool,
    device_id: &str,
    devices: &Vec<VideoDevice>,
    capture_available: bool,
    unavailable_reason: Option<String>,
) -> (r: Result<(), HardwareError>)
    ensures
        synthetic ==> (r is Ok <==> (device_id@ == "video0"@ || device_id@ == "video1"@)),
        synthetic && r is Err ==> (r matches Err(HardwareError::InvalidInput(m)) && m@ == "unknown video device "@
            + device_id@),
        !synthetic ==> if !crate::hardware::video_id_spec(device_id@) {
            r matches Err(HardwareError::InvalidInput(m)) && m@ == "invalid video device id"@
        } else if !(exists|i: int| 0 <= i < devices@.len() && (#[trigger] devices@[i]).id@ == device_id@) {
            r matches Err(HardwareError::InvalidInput(m)) && m@ == "unknown video device "@ + device_id@
        } else if !capture_available {
            r matches Err(HardwareError::Unsupported(m)) && m@ == match unavailable_reason {
                Some(t) => t@,
                None => "video capture is unavailable"@,
            }
        } else {
            r is Ok
        },
{
    let id = chars_of(device_id);
    let mut unknown = chars_of("unknown video device ");
    crate::text::extend_str(&mut unknown, device_id);
    if synthetic {
        if eq_str(&id, "video0") || eq_str(&id, "video1") {
            return Ok(());
        }
        return Err(HardwareError::InvalidInput(string_of(&unknown)));
    }
    if !crate::hardware::valid_video_id(device_id) {
        return Err(HardwareError::InvalidInput(owned("invalid video device id")));
    }
    let mut i: usize = 0;
    let mut found = false;
    while i < devices.len()
        invariant
            i <= devices.len(),
            id@ == device_id@,
            found == exists|j: int| 0 <= j < i && (#[trigger] devices@[j]).id@ == device_id@,
        decreases devices.len() - i,
    {
        let d = chars_of(devices[i].id.as_str());
        if crate::text::seq_eq(&d, &id) {
            found = true;
        }
        i = i + 1;
    }
    if !found {
        return Err(HardwareError::InvalidInput(string_of(&unknown)));
    }
    if !capture_available {
        return Err(
            HardwareError::Unsupported(
                match unavailable_reason {
                    Some(t) => t,
                    None => owned("video capture is unavailable"),
                },
            ),
        );
    }
    Ok(())
}

/// The arguments of the `timeout` command that captures one JPEG frame
/// from `/dev/<device_id>` with `ffmpeg`, killed after eight seconds.
pub fn capture_arguments(device_id: &str) -> (r: Vec<String>)
    ensures
        strings_view(r@) == seq![
            "--signal=KILL"@, "8"@, "ffmpeg"@, "-hide_banner"@, "-loglevel"@, "error"@, "-f"@, "video4linux2"@,
            "-i"@, "/dev/"@ + device_id@, "-frames:v"@, "1"@, "-f"@, "image2pipe"@, "-vcodec"@, "mjpeg"@, "pipe:1"@,
        ],
{
    let mut path = chars_of("/dev/");
    crate::text::extend_str(&mut path, device_id);
    let p = string_of(&path);
    let mut v: Vec<String> = Vec::new();
    push_str(&mut v, "--signal=KILL");
    push_str(&mut v, "8");
    push_str(&mut v, "ffmpeg");
    push_str(&mut v, "-hide_banner");
    push_str(&mut v, "-loglevel");
    push_str(&mut v, "error");
    push_str(&mut v, "-f");
    push_str(&mut v, "video4linux2");
    push_str(&mut v, "-i");
    push_str(&mut v, p.as_str());
    push_str(&mut v, "-frames:v");
    push_str(&mut v, "1");
    push_str(&mut v, "-f");
    push_str(&mut v, "image2pipe");
    push_str(&mut v, "-vcodec");
    push_str(&mut v, "mjpeg");
    push_str(&mut v, "pipe:1");
    v
}

/// What the capture command's outcome comes to: a failed command is an
/// I/O error with its trimmed error output; an empty frame or one over
/// 8 MiB is refused; otherwise the frame, base64-encoded.
pub fn capture_outcome(success: bool, stderr: &[u8], frame: &[u8]) -> (r: Result<String, HardwareError>)
    ensures
        !success ==> (r matches Err(HardwareError::Io(m)) && (vstd::utf8::valid_utf8(stderr@) ==> m@
            == "camera capture failed: "@ + crate::text::trim(vstd::utf8::decode_utf8(stderr@)))),
        success && (frame@.len() == 0 || frame@.len() > 8 * 1024 * 1024) ==> (r matches Err(HardwareError::Io(m))
            && m@ == "camera returned an empty or oversized frame"@),
        success && 0 < frame@.len() <= 8 * 1024 * 1024 ==> (r matches Ok(b) && b@ == crate::base64::encode_spec(
            frame@,
        )),
{
    if !success {
        let text = crate::text::utf8_lossy(stderr);
        let t = crate::text::trimmed_chars(text.as_str());
        let mut m = chars_of("camera capture failed: ");
        crate::text::extend(&mut m, &t);
        return Err(HardwareError::Io(string_of(&m)));
    }
    if frame.len() == 0 || frame.len() > 8 * 1024 * 1024 {
        return Err(HardwareError::Io(owned("camera returned an empty or oversized frame")));
    }
    Ok(crate::base64::encode_base64(frame))
}

// ----------------------------------------------------------------------
// Thermal control
// ----------------------------------------------------------------------

/// A cooling device of the thermal framework.
#[derive(Debug, Clone, PartialEq, Eq)]
pub struct CoolingDevice {
    pub id: String,
    pub kind: String,
    pub current_state: Option<u32>,
    pub max_state: Option<u32>,
}

/// An entry of `sys/class/thermal` that may be a cooling device: its name,
/// and its `type`, `cur_state` and `max_state` attributes when they could
/// be read.
pub type CoolingEntry = (String, Option<String>, Option<String>, Option<String>);

/// A cooling device as plain values: id, type, current and maximum state.
pub open spec fn cooling_view(d: CoolingDevice) -> (Seq<char>, Seq<char>, Option<u32>, Option<u32>) {
    (d.id@, d.kind@, d.current_state, d.max_state)
}

/// The cooling device an entry describes, typed by its id when it has no
/// type.
pub open spec fn cooling_of_entry(e: CoolingEntry) -> (Seq<char>, Seq<char>, Option<u32>, Option<u32>) {
    (e.0@, match e.1 {
        Some(k) => k@,
        None => e.0@,
    }, attr_u32(opt_view(e.2)), attr_u32(opt_view(e.3)))
}

/// The names of the entries.
pub open spec fn cooling_names(es: Seq<CoolingEntry>) -> Seq<Seq<char>> {
    es.map_values(|e: CoolingEntry| e.0@)
}

/// The cooling devices among the entries of `sys/class/thermal` (those
/// named `cooling_device...`), sorted by id; each is built from the first
/// entry with its name.
pub fn cooling_devices(entries: &Vec<CoolingEntry>) -> (r: Vec<CoolingDevice>)
    ensures
        ({
            let ids = sorted_of(cooling_names(entries@).filter(|n: Seq<char>| starts_with(n, "cooling_device"@)));
            &&& r@.len() == ids.len()
            &&& forall|i: int|
                0 <= i < r@.len() ==> cooling_view(#[trigger] r@[i]) == cooling_of_entry(
                    entries@[index_named(cooling_names(entries@), ids[i], 0)],
                )
        }),
{
    let ghost nv = cooling_names(entries@);
    let mut names: Vec<String> = Vec::new();
    let mut kept: Vec<String> = Vec::new();
    let mut i: usize = 0;
    while i < entries.len()
        invariant
            i <= entries.len(),
            nv == cooling_names(entries@),
            strings_view(names@) == nv.take(i as int),
            strings_view(kept@) == nv.take(i as int).filter(|n: Seq<char>| starts_with(n, "cooling_device"@)),
        decreases entries.len() - i,
    {
        let n = chars_of(entries[i].0.as_str());
        proof {
            let t = nv.take(i as int);
            let item = nv[i as int];
            assert(nv.take(i + 1) =~= t.push(item));
            assert(t.push(item).filter(|n: Seq<char>| starts_with(n, "cooling_device"@)) == if starts_with(
                item,
                "cooling_device"@,
            ) {
                t.filter(|n: Seq<char>| starts_with(n, "cooling_device"@)).push(item)
            } else {
                t.filter(|n: Seq<char>| starts_with(n, "cooling_device"@))
            }) by {
                reveal(Seq::filter);
                assert(t.push(item).drop_last() =~= t);
            }
        }
        if starts_with_str(&n, "cooling_device") {
            push_str(&mut kept, entries[i].0.as_str());
        }
        push_str(&mut names, entries[i].0.as_str());
        i = i + 1;
    }
    assert(nv.take(entries@.len() as int) =~= nv);
    let ghost kv = strings_view(kept@);
    let sorted = sorted_unique(&kept);
    let ghost ids = sorted_of(kv);
    proof {
        crate::order::lemma_sorted_set_unique(strings_view(sorted@), ids);
    }
    let mut r: Vec<CoolingDevice> = Vec::new();
    let mut k: usize = 0;
    while k < sorted.len()
        invariant
            k <= sorted@.len(),
            strings_view(sorted@) == ids,
            ids.to_set() == kv.to_set(),
            kv == nv.filter(|n: Seq<char>| starts_with(n, "cooling_device"@)),
            strings_view(names@) == nv,
            nv == cooling_names(entries@),
            r@.len() == k,
            forall|i: int|
                0 <= i < k ==> cooling_view(#[trigger] r@[i]) == cooling_of_entry(entries@[index_named(nv, ids[i], 0)]),
        decreases sorted@.len() - k,
    {
        proof {
            assert(ids.contains(ids[k as int]));
            assert(ids.to_set().contains(ids[k as int]));
            assert(kv.contains(ids[k as int]));
            let j = choose|j: int| 0 <= j < kv.len() && kv[j] == ids[k as int];
            assert(kv.contains(kv[j]));
            nv.lemma_filter_contains_rev(|n: Seq<char>| starts_with(n, "cooling_device"@), kv[j]);
        }
        let at = find_name(&names, sorted[k].as_str());
        let e = &entries[at];
        let kind = match &e.1 {
            Some(t) => owned(t.as_str()),
            None => owned(e.0.as_str()),
        };
        let current_state = attr_u32_exec(&e.2);
        let max_state = attr_u32_exec(&e.3);
        r.push(CoolingDevice { id: owned(e.0.as_str()), kind, current_state, max_state });
        k = k + 1;
    }
    r
}

/// A cooling device type names a PWM fan: lower-cased, with `_` read as
/// `-`, it contains `pwm-fan`.
pub open spec fn pwm_fan_kind(kind: Seq<char>) -> bool {
    crate::text::contains(
        crate::text::lower_seq(kind).map_values(|c: char| if c == '_' { '-' } else { c }),
        "pwm-fan"@,
    )
}

/// Whether a cooling device type names a PWM fan (see [`pwm_fan_kind`]).
pub fn is_pwm_fan_kind(kind: &str) -> (r: bool)
    ensures
        r == pwm_fan_kind(kind@),
{
    let low = crate::text::lower_all(&chars_of(kind));
    let mut dashed: Vec<char> = Vec::new();
    let mut k: usize = 0;
    while k < low.len()
        invariant
            k <= low.len(),
            dashed@ == low@.take(k as int).map_values(|c: char| if c == '_' { '-' } else { c }),
        decreases low.len() - k,
    {
        let c = low[k];
        dashed.push(if c == '_' { '-' } else { c });
        assert(low@.take(k + 1) =~= low@.take(k as int).push(c));
        assert(dashed@ =~= low@.take(k + 1).map_values(|c: char| if c == '_' { '-' } else { c }));
        k = k + 1;
    }
    assert(low@.take(low@.len() as int) =~= low@);
    crate::text::contains_str(&dashed, "pwm-fan")
}

/// Whether any cooling device is a PWM fan (see [`pwm_fan_kind`]).
pub fn pwm_fan_detected(devices: &Vec<CoolingDevice>) -> (r: bool)
    ensures
        r == exists|i: int| 0 <= i < devices@.len() && pwm_fan_kind((#[trigger] devices@[i]).kind@),
{
    let mut i: usize = 0;
    while i < devices.len()
        invariant
            i <= devices.len(),
            forall|j: int| 0 <= j < i ==> !pwm_fan_kind((#[trigger] devices@[j]).kind@),
        decreases devices.len() - i,
    {
        if is_pwm_fan_kind(devices[i].kind.as_str()) {
            return true;
        }
        i = i + 1;
    }
    false
}

/// The policies every thermal zone that lists policies offers (zones that
/// list none are left out): `p` is one when some zone lists policies and
/// each such zone lists `p`.
pub open spec fn common_policy(zones: Seq<Seq<Seq<char>>>, p: Seq<char>) -> bool {
    &&& exists|i: int| 0 <= i < zones.len() && (#[trigger] zones[i]).len() > 0
    &&& forall|i: int| 0 <= i < zones.len() && (#[trigger] zones[i]).len() > 0 ==> zones[i].contains(p)
}

/// The policies every thermal zone offers, sorted (see [`common_policy`]);
/// `zones` holds the policies each zone lists.
pub fn policy_intersection(zones: &Vec<Vec<String>>) -> (r: Vec<String>)
    ensures
        crate::order::strictly_sorted(strings_view(r@)),
        forall|p: Seq<char>| strings_view(r@).contains(p) <==> common_policy(zones@.map_values(|z: Vec<String>| strings_view(z@)), p),
{
    let ghost zv = zones@.map_values(|z: Vec<String>| strings_view(z@));
    let mut first: usize = 0;
    while first < zones.len() && zones[first].len() == 0
        invariant
            first <= zones.len(),
            zv == zones@.map_values(|z: Vec<String>| strings_view(z@)),
            forall|j: int| 0 <= j < first ==> zv[j].len() == 0,
        decreases zones.len() - first,
    {
        assert(zv[first as int].len() == zones@[first as int]@.len());
        first = first + 1;
    }
    let mut common: Vec<String> = Vec::new();
    if first == zones.len() {
        proof {
            assert forall|p: Seq<char>| !common_policy(zv, p) by {
                if common_policy(zv, p) {
                    let i = choose|i: int| 0 <= i < zv.len() && (#[trigger] zv[i]).len() > 0;
                    assert(zv[i].len() == 0);
                }
            }
        }
        let r = sorted_unique(&common);
        assert forall|p: Seq<char>| strings_view(r@).contains(p) <==> common_policy(zv, p) by {
            assert(strings_view(r@).to_set() == strings_view(common@).to_set());
            if strings_view(r@).contains(p) {
                assert(strings_view(r@).to_set().contains(p));
                assert(strings_view(common@).to_set().contains(p));
            }
        }
        return r;
    }
    assert(zv[first as int].len() == zones@[first as int]@.len());
    let candidates = &zones[first];
    let ghost cv = strings_view(candidates@);
    assert(cv == zv[first as int]);
    let mut c: usize = 0;
    while c < candidates.len()
        invariant
            c <= candidates.len(),
            first < zones.len(),
            cv == strings_view(candidates@),
            cv == zv[first as int],
            cv.len() > 0,
            zv == zones@.map_values(|z: Vec<String>| strings_view(z@)),
            forall|q: Seq<char>| #[trigger] strings_view(common@).contains(q) <==> (cv.take(c as int).contains(q) && common_policy(zv, q)),
        decreases candidates.len() - c,
    {
        let p = candidates[c].as_str();
        assert(cv[c as int] == p@);
        let ghost old_common = strings_view(common@);
        let mut all = true;
        let mut z: usize = 0;
        while z < zones.len()
            invariant
                z <= zones.len(),
                zv == zones@.map_values(|z: Vec<String>| strings_view(z@)),
                all == forall|j: int| 0 <= j < z && (#[trigger] zv[j]).len() > 0 ==> zv[j].contains(p@),
            decreases zones.len() - z,
        {
            assert(zv[z as int] == strings_view(zones@[z as int]@));
            if zones[z].len() > 0 && !crate::catalog::is_listed(&zones[z], p) {
                all = false;
            }
            z = z + 1;
        }
        proof {
            assert(zv[first as int].len() > 0);
            assert(all <==> common_policy(zv, p@));
        }
        assert(old_common == strings_view(common@));
        if all {
            push_str(&mut common, p);
        }
        proof {
            let t0 = cv.take(c as int);
            let t1 = cv.take(c + 1);
            assert(t1 =~= t0.push(p@));
            let nc = strings_view(common@);
            if all {
                assert(nc == old_common.push(p@));
            } else {
                assert(nc == old_common);
            }
            assert forall|q: Seq<char>| nc.contains(q) <==> (t1.contains(q) && common_policy(zv, q)) by {
                assert(old_common.contains(q) <==> (t0.contains(q) && common_policy(zv, q)));
                if nc.contains(q) {
                    if q != p@ || !all {
                        let k = choose|k: int| 0 <= k < nc.len() && #[trigger] nc[k] == q;
                        if all {
                            assert(k < old_common.len());
                        }
                        assert(old_common[k] == q);
                        assert(old_common.contains(q));
                        let m = choose|m: int| 0 <= m < t0.len() && #[trigger] t0[m] == q;
                        assert(t1[m] == q);
                    } else {
                        assert(t1[c as int] == q);
                    }
                }
                if t1.contains(q) && common_policy(zv, q) {
                    let k = choose|k: int| 0 <= k < t1.len() && #[trigger] t1[k] == q;
                    if k < c {
                        assert(t0[k] == q);
                        assert(old_common.contains(q));
                        let m = choose|m: int| 0 <= m < old_common.len() && #[trigger] old_common[m] == q;
                        assert(nc[m] == q);
                    } else {
                        assert(q == p@);
                        assert(all);
                        assert(nc[nc.len() - 1] == q);
                    }
                }
            }
        }
        c = c + 1;
    }
    assert(cv.take(cv.len() as int) =~= cv);
    let r = sorted_unique(&common);
    proof {
        assert forall|p: Seq<char>| strings_view(r@).contains(p) <==> common_policy(zv, p) by {
            assert(strings_view(r@).to_set() == strings_view(common@).to_set());
            if strings_view(r@).contains(p) {
                assert(strings_view(r@).to_set().contains(p));
                assert(strings_view(common@).to_set().contains(p));
            }
            if common_policy(zv, p) {
                assert(zv[first as int].len() > 0);
                assert(cv.contains(p));
                assert(strings_view(common@).contains(p));
                assert(strings_view(common@).to_set().contains(p));
                assert(strings_view(r@).to_set().contains(p));
            }
        }
    }
    r
}

/// The policy recommended among `available`: `step_wise` when a PWM fan
/// drives the cooling and it is offered, else `power_allocator` when
/// offered, else the first offered.
pub open spec fn recommended_spec(pwm_fan: bool, available: Seq<Seq<char>>) -> Option<Seq<char>> {
    if pwm_fan && available.contains("step_wise"@) {
        Some("step_wise"@)
    } else if available.contains("power_allocator"@) {
        Some("power_allocator"@)
    } else if available.len() > 0 {
        Some(available[0])
    } else {
        None
    }
}

/// The policy recommended among `available` (see [`recommended_spec`]).
pub fn recommended_policy(pwm_fan: bool, available: &Vec<String>) -> (r: Option<String>)
    ensures
        opt_view(r) == recommended_spec(pwm_fan, strings_view(available@)),
{
    if pwm_fan && crate::catalog::is_listed(available, "step_wise") {
        Some(owned("step_wise"))
    } else if crate::catalog::is_listed(available, "power_allocator") {
        Some(owned("power_allocator"))
    } else if available.len() > 0 {
        Some(owned(available[0].as_str()))
    } else {
        None
    }
}

/// Whether thermal policy `policy` may be set on a board whose thermal
/// control is `supported` (or not, for `reason`), whose zones all offer
/// `available`, and which has a PWM fan or not: the name must be valid,
/// control supported, the policy offered, and `power_allocator` is
/// refused beside a PWM fan.
pub fn check_thermal_policy(
    policy: &str,
    supported: bool,
    reason: Option<String>,
    available: &Vec<String>,
    pwm_fan: bool,
) -> (r: Result<(), HardwareError>)
    ensures
        if !crate::hardware::valid_policy(policy@) {
            r matches Err(HardwareError::InvalidInput(m)) && m@ == "invalid thermal policy"@
        } else if !supported {
            r matches Err(HardwareError::Unsupported(m)) && m@ == match reason {
                Some(t) => t@,
                None => "thermal control is unavailable"@,
            }
        } else if !strings_view(available@).contains(policy@) {
            r matches Err(HardwareError::InvalidInput(m)) && m@ == "policy "@ + policy@
                + " is not available on every thermal zone"@
        } else if policy@ == "power_allocator"@ && pwm_fan {
            r matches Err(HardwareError::Conflict(m)) && m@
                == "power_allocator is incompatible with the detected pwm-fan cooling device"@
        } else {
            r is Ok
        },
{
    crate::hardware::validate_policy(policy)?;
    if !supported {
        return Err(
            HardwareError::Unsupported(
                match reason {
                    Some(t) => t,
                    None => owned("thermal control is unavailable"),
                },
            ),
        );
    }
    if !crate::catalog::is_listed(available, policy) {
        let mut m = chars_of("policy ");
        crate::text::extend_str(&mut m, policy);
        crate::text::extend_str(&mut m, " is not available on every thermal zone");
        return Err(HardwareError::InvalidInput(string_of(&m)));
    }
    let pv = chars_of(policy);
    if eq_str(&pv, "power_allocator") && pwm_fan {
        return Err(
            HardwareError::Conflict(owned("power_allocator is incompatible with the detected pwm-fan cooling device")),
        );
    }
    Ok(())
}

} // verus!
