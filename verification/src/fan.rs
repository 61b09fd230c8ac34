//! The integer side of fan-curve control: which cooling devices are PWM
//! fans, how a fan speed maps to a cooling state, which thermal zone may
//! drive a fan, and which kernel governor takes over again.
use vstd::prelude::*;
use crate::devices::{attr_u32, find_name, index_named, opt_view, pwm_fan_kind, sorted_of};
use crate::hardware::HardwareError;
use crate::lex::{words, words_exec};
use crate::model::{push_str, strings_view};
use crate::order::sorted_unique;
use crate::text::{chars_of, eq_str, is_digit, owned, starts_with, string_of};

verus! {

/// A PWM fan that a fan curve can drive.
#[derive(Debug, Clone, PartialEq, Eq)]
pub struct FanCurveDevice {
    pub id: String,
    pub kind: String,
    pub current_state: Option<u32>,
    pub max_state: u32,
}

/// `value` is `prefix` followed by one or more ASCII digits.
pub open spec fn thermal_id_spec(value: Seq<char>, prefix: Seq<char>) -> bool {
    &&& starts_with(value, prefix)
    &&& value.len() > prefix.len()
    &&& forall|i: int| prefix.len() <= i < value.len() ==> is_digit(#[trigger] value[i])
}

/// Whether `value` is `prefix` followed by digits (see
/// [`thermal_id_spec`]).
pub fn valid_thermal_id(value: &str, prefix: &str) -> (r: bool)
    ensures
        r == thermal_id_spec(value@, prefix@),
{
    let v = chars_of(value);
    let p = chars_of(prefix);
    if !crate::text::starts_with_exec(&v, &p) || v.len() <= p.len() {
        return false;
    }
    let mut i = p.len();
    while i < v.len()
        invariant
            p.len() <= i <= v.len(),
            v@ == value@,
            p@ == prefix@,
            forall|j: int| p@.len() <= j < i ==> is_digit(#[trigger] v@[j]),
        decreases v.len() - i,
    {
        if !crate::text::digit(v[i]) {
            return false;
        }
        i = i + 1;
    }
    true
}

/// The cooling state a fan speed (in percent) comes to on a fan with
/// `max_state` states: the percentage of the maximum, rounded up.
pub open spec fn state_spec(percent: u8, max_state: u32) -> int {
    (percent * max_state + 99) / 100
}

/// The cooling state a fan speed comes to (see [`state_spec`]).
pub fn percent_to_state(percent: u8, max_state: u32) -> (r: u32)
    requires
        percent * max_state <= u32::MAX,
    ensures
        r == state_spec(percent, max_state),
{
    let product = percent as u32 * max_state;
    let q = product / 100;
    if product % 100 == 0 {
        q
    } else {
        q + 1
    }
}

/// An entry of `sys/class/thermal`: its name, and its `type`, `cur_state`
/// and `max_state` attributes when they could be read.
pub type FanEntry = (String, Option<String>, Option<String>, Option<String>);

/// The names of the entries.
pub open spec fn fan_names(es: Seq<FanEntry>) -> Seq<Seq<char>> {
    es.map_values(|e: FanEntry| e.0@)
}

/// The type of an entry, its name when it has none.
pub open spec fn entry_kind(e: FanEntry) -> Seq<char> {
    match e.1 {
        Some(k) => k@,
        None => e.0@,
    }
}

/// An entry is a fan a curve can drive: a `cooling_device<n>` of a PWM
/// fan type with a readable, non-zero maximum state.
pub open spec fn is_fan_entry(e: FanEntry) -> bool {
    &&& thermal_id_spec(e.0@, "cooling_device"@)
    &&& pwm_fan_kind(entry_kind(e))
    &&& attr_u32(opt_view(e.3)) matches Some(m) && m > 0
}

/// A fan as plain values: id, type, current state, maximum state.
pub open spec fn fan_view(d: FanCurveDevice) -> (Seq<char>, Seq<char>, Option<u32>, u32) {
    (d.id@, d.kind@, d.current_state, d.max_state)
}

/// The fan an entry describes.
pub open spec fn fan_of_entry(e: FanEntry) -> (Seq<char>, Seq<char>, Option<u32>, u32) {
    (e.0@, entry_kind(e), attr_u32(opt_view(e.2)), attr_u32(opt_view(e.3))->Some_0)
}

/// The names of the fan entries.
pub open spec fn fan_entry_names(es: Seq<FanEntry>) -> Seq<Seq<char>> {
    fan_names(es.filter(|e: FanEntry| is_fan_entry(e)))
}

fn kind_exec(e: &FanEntry) -> (r: String)
    ensures
        r@ == entry_kind(*e),
{
    match &e.1 {
        Some(k) => owned(k.as_str()),
        None => owned(e.0.as_str()),
    }
}

fn u32_attr(text: &Option<String>) -> (r: Option<u32>)
    ensures
        r == attr_u32(opt_view(*text)),
{
    match text {
        Some(t) => match crate::lex::parse_decimal(&chars_of(t.as_str()), u32::MAX as u64) {
            Some(v) => Some(v as u32),
            None => None,
        },
        None => None,
    }
}

fn is_fan(e: &FanEntry) -> (r: bool)
    ensures
        r == is_fan_entry(*e),
{
    if !valid_thermal_id(e.0.as_str(), "cooling_device") {
        return false;
    }
    let kind = kind_exec(e);
    if !crate::devices::is_pwm_fan_kind(kind.as_str()) {
        return false;
    }
    match u32_attr(&e.3) {
        Some(m) => m > 0,
        None => false,
    }
}

/// The fans a curve can drive among the entries of `sys/class/thermal`
/// (see [`is_fan_entry`]), sorted by id; each is built from the first fan
/// entry with its name.
pub fn fan_devices(entries: &Vec<FanEntry>) -> (r: Vec<FanCurveDevice>)
    ensures
        ({
            let fans = entries@.filter(|e: FanEntry| is_fan_entry(e));
            let ids = sorted_of(fan_names(fans));
            &&& r@.len() == ids.len()
            &&& forall|i: int|
                0 <= i < r@.len() ==> fan_view(#[trigger] r@[i]) == fan_of_entry(fans[index_named(fan_names(fans), ids[i], 0)])
        }),
{
    let ghost fans = entries@.filter(|e: FanEntry| is_fan_entry(e));
    let mut idx: Vec<usize> = Vec::new();
    let mut names: Vec<String> = Vec::new();
    let mut i: usize = 0;
    while i < entries.len()
        invariant
            i <= entries.len(),
            idx@.len() == names@.len(),
            forall|k: int| 0 <= k < idx@.len() ==> (#[trigger] idx@[k]) < entries@.len(),
            idx@.map_values(|k: usize| entries@[k as int]) == entries@.take(i as int).filter(|e: FanEntry| is_fan_entry(e)),
            strings_view(names@) == fan_names(entries@.take(i as int).filter(|e: FanEntry| is_fan_entry(e))),
        decreases entries.len() - i,
    {
        let ghost t = entries@.take(i as int);
        let ghost item = entries@[i as int];
        proof {
            assert(entries@.take(i + 1) =~= t.push(item));
            assert(t.push(item).filter(|e: FanEntry| is_fan_entry(e)) == if is_fan_entry(item) {
                t.filter(|e: FanEntry| is_fan_entry(e)).push(item)
            } else {
                t.filter(|e: FanEntry| is_fan_entry(e))
            }) by {
                reveal(Seq::filter);
                assert(t.push(item).drop_last() =~= t);
            }
        }
        if is_fan(&entries[i]) {
            let ghost before_idx = idx@;
            let ghost before_names = strings_view(names@);
            idx.push(i);
            push_str(&mut names, entries[i].0.as_str());
            assert(idx@.map_values(|k: usize| entries@[k as int]) =~= before_idx.map_values(|k: usize| entries@[k as int]).push(item));
            assert(fan_names(t.filter(|e: FanEntry| is_fan_entry(e)).push(item)) =~= fan_names(t.filter(|e: FanEntry| is_fan_entry(e))).push(item.0@));
        }
        i = i + 1;
    }
    assert(entries@.take(entries@.len() as int) =~= entries@);
    let ghost nv = strings_view(names@);
    let sorted = sorted_unique(&names);
    let ghost ids = sorted_of(nv);
    proof {
        crate::order::lemma_sorted_set_unique(strings_view(sorted@), ids);
    }
    let mut r: Vec<FanCurveDevice> = Vec::new();
    let mut k: usize = 0;
    while k < sorted.len()
        invariant
            k <= sorted@.len(),
            strings_view(sorted@) == ids,
            ids.to_set() == nv.to_set(),
            nv == strings_view(names@),
            nv == fan_names(fans),
            fans == entries@.filter(|e: FanEntry| is_fan_entry(e)),
            idx@.len() == names@.len(),
            forall|j: int| 0 <= j < idx@.len() ==> (#[trigger] idx@[j]) < entries@.len(),
            idx@.map_values(|j: usize| entries@[j as int]) == fans,
            r@.len() == k,
            forall|i: int| 0 <= i < k ==> fan_view(#[trigger] r@[i]) == fan_of_entry(fans[index_named(nv, ids[i], 0)]),
        decreases sorted@.len() - k,
    {
        proof {
            assert(ids.contains(ids[k as int]));
            assert(ids.to_set().contains(ids[k as int]));
            assert(nv.contains(ids[k as int]));
        }
        let at = find_name(&names, sorted[k].as_str());
        let e = &entries[idx[at]];
        assert(fans[at as int] == entries@[idx@[at as int] as int]);
        let kind = kind_exec(e);
        let current_state = u32_attr(&e.2);
        let max_state = match u32_attr(&e.3) {
            Some(m) => m,
            None => 0,
        };
        r.push(FanCurveDevice { id: owned(e.0.as_str()), kind, current_state, max_state });
        k = k + 1;
    }
    r
}

/// A thermal zone as fan-curve binding checks see it: its id and the
/// cooling devices bound to it, `None` when the bindings could not be
/// read safely.
pub type ZoneBindings = (String, Option<Vec<String>>);

/// The bindings of a zone as plain values.
pub open spec fn bindings_view(z: ZoneBindings) -> (Seq<char>, Option<Seq<Seq<char>>>) {
    (z.0@, match z.1 {
        Some(b) => Some(strings_view(b@)),
        None => None,
    })
}

/// What is wrong with driving fan `device` from zone `zone` among `zones`:
/// the zone is unknown (0); it is bound to anything but exactly that fan
/// (1); some zone's bindings are unreadable (2); another zone also drives
/// the fan (3). Zones are checked in order; nothing is wrong otherwise.
pub open spec fn binding_issue(zones: Seq<(Seq<char>, Option<Seq<Seq<char>>>)>, zone: Seq<char>, device: Seq<char>) -> Option<int> {
    let at = index_named(zones.map_values(|z: (Seq<char>, Option<Seq<Seq<char>>>)| z.0), zone, 0);
    if at >= zones.len() {
        Some(0)
    } else if zones[at].1 != Some(seq![device]) {
        Some(1)
    } else {
        other_zone_issue(zones, zone, device, 0)
    }
}

/// The first issue among zones from `from` on: unreadable bindings (2), or
/// another zone bound to the fan (3).
pub open spec fn other_zone_issue(zones: Seq<(Seq<char>, Option<Seq<Seq<char>>>)>, zone: Seq<char>, device: Seq<char>, from: int) -> Option<int>
    decreases zones.len() - from,
{
    if from < 0 || from >= zones.len() {
        None
    } else {
        match zones[from].1 {
            None => Some(2),
            Some(b) => if zones[from].0 != zone && b.contains(device) {
                Some(3)
            } else {
                other_zone_issue(zones, zone, device, from + 1)
            },
        }
    }
}

/// The error a binding issue comes to.
pub open spec fn binding_error(code: int, e: HardwareError) -> bool {
    if code == 0 {
        e matches HardwareError::Unsupported(m) && m@ == "The saved thermal zone is unavailable."@
    } else if code == 1 {
        e matches HardwareError::Conflict(m) && m@
            == "Fan curves require a thermal zone bound only to the selected fan; CPU/GPU cooling must remain under kernel control."@
    } else if code == 2 {
        e matches HardwareError::Conflict(m) && m@ == "Unable to verify thermal cooling-device bindings."@
    } else {
        e matches HardwareError::Conflict(m) && m@ == "The selected fan is also managed by another thermal zone."@
    }
}

/// Accepts driving fan `device_id` from zone `zone_id` (see
/// [`binding_issue`]): the zone must drive that fan alone, and no other
/// zone may drive it.
pub fn validate_fan_binding(zones: &Vec<ZoneBindings>, zone_id: &str, device_id: &str) -> (r: Result<(), HardwareError>)
    ensures
        ({
            let zv = zones@.map_values(|z: ZoneBindings| bindings_view(z));
            match binding_issue(zv, zone_id@, device_id@) {
                None => r is Ok,
                Some(code) => r matches Err(e) && binding_error(code, e),
            }
        }),
{
    let ghost zv = zones@.map_values(|z: ZoneBindings| bindings_view(z));
    let ghost ids = zv.map_values(|z: (Seq<char>, Option<Seq<Seq<char>>>)| z.0);
    let mut names: Vec<String> = Vec::new();
    let mut i: usize = 0;
    while i < zones.len()
        invariant
            i <= zones.len(),
            zv == zones@.map_values(|z: ZoneBindings| bindings_view(z)),
            ids == zv.map_values(|z: (Seq<char>, Option<Seq<Seq<char>>>)| z.0),
            strings_view(names@) == ids.take(i as int),
        decreases zones.len() - i,
    {
        push_str(&mut names, zones[i].0.as_str());
        assert(ids.take(i + 1) =~= ids.take(i as int).push(ids[i as int]));
        i = i + 1;
    }
    assert(ids.take(zones@.len() as int) =~= ids);
    if !crate::catalog::is_listed(&names, zone_id) {
        proof {
            if index_named(ids, zone_id@, 0) < zv.len() {
                crate::devices::lemma_index_named_found(ids, zone_id@, 0);
            }
        }
        return Err(HardwareError::Unsupported(owned("The saved thermal zone is unavailable.")));
    }
    let at = find_name(&names, zone_id);
    assert(zv[at as int] == bindings_view(zones@[at as int]));
    let selected_ok = match &zones[at].1 {
        Some(b) => b.len() == 1 && eq_str(&chars_of(b[0].as_str()), device_id),
        None => false,
    };
    proof {
        if zones@[at as int].1 is Some {
            let b = zones@[at as int].1->Some_0;
            if strings_view(b@) == seq![device_id@] {
                assert(strings_view(b@).len() == 1);
                assert(strings_view(b@)[0] == b@[0]@);
                assert(selected_ok);
            }
            if selected_ok {
                assert(strings_view(b@) =~= seq![device_id@]);
            }
        }
    }
    if !selected_ok {
        return Err(
            HardwareError::Conflict(
                owned(
                    "Fan curves require a thermal zone bound only to the selected fan; CPU/GPU cooling must remain under kernel control.",
                ),
            ),
        );
    }
    assert(binding_issue(zv, zone_id@, device_id@) == other_zone_issue(zv, zone_id@, device_id@, 0));
    let mut k: usize = 0;
    while k < zones.len()
        invariant
            k <= zones.len(),
            zv == zones@.map_values(|z: ZoneBindings| bindings_view(z)),
            binding_issue(zv, zone_id@, device_id@) == other_zone_issue(zv, zone_id@, device_id@, 0),
            other_zone_issue(zv, zone_id@, device_id@, 0) == other_zone_issue(zv, zone_id@, device_id@, k as int),
        decreases zones.len() - k,
    {
        assert(zv[k as int] == bindings_view(zones@[k as int]));
        match &zones[k].1 {
            None => {
                return Err(HardwareError::Conflict(owned("Unable to verify thermal cooling-device bindings.")));
            },
            Some(b) => {
                let same = eq_str(&chars_of(zones[k].0.as_str()), zone_id);
                if !same && crate::catalog::is_listed(b, device_id) {
                    return Err(HardwareError::Conflict(owned("The selected fan is also managed by another thermal zone.")));
                }
            },
        }
        k = k + 1;
    }
    Ok(())
}

/// The kernel governors tried, in order, when a fan curve hands a zone
/// back: the one it replaced, then the usual ones.
pub open spec fn recovery_candidates(previous: Seq<char>) -> Seq<Seq<char>> {
    seq![previous, "step_wise"@, "power_allocator"@, "bang_bang"@, "fair_share"@]
}

/// The first candidate at or after `from` that is a kernel governor (not
/// `user_space`) the zone offers.
pub open spec fn recovery_from(c: Seq<Seq<char>>, available: Seq<Seq<char>>, from: int) -> Option<Seq<char>>
    decreases c.len() - from,
{
    if from < 0 || from >= c.len() {
        None
    } else if c[from] != "user_space"@ && available.contains(c[from]) {
        Some(c[from])
    } else {
        recovery_from(c, available, from + 1)
    }
}

/// The governor that takes over a zone again when its fan curve stops,
/// given the one the curve replaced and what the zone offers (its
/// `available_policies` text): see [`recovery_from`]; an error when none
/// is offered.
pub fn recovery_policy(previous: &str, available_policies: &str) -> (r: Result<String, HardwareError>)
    ensures
        match recovery_from(recovery_candidates(previous@), words(available_policies@), 0) {
            Some(p) => r matches Ok(s) && s@ == p,
            None => r matches Err(HardwareError::Unsupported(m)) && m@
                == "No kernel thermal governor is available for recovery."@,
        },
{
    let av = words_exec(&chars_of(available_policies));
    let mut avs: Vec<String> = Vec::new();
    let mut i: usize = 0;
    let ghost wv = av@.map_values(|v: Vec<char>| v@);
    assert(wv == words(available_policies@));
    while i < av.len()
        invariant
            i <= av.len(),
            wv == av@.map_values(|v: Vec<char>| v@),
            strings_view(avs@) == wv.take(i as int),
        decreases av.len() - i,
    {
        push_str(&mut avs, string_of(&av[i]).as_str());
        assert(wv.take(i + 1) =~= wv.take(i as int).push(wv[i as int]));
        i = i + 1;
    }
    assert(wv.take(av@.len() as int) =~= wv);
    let mut c: Vec<String> = Vec::new();
    push_str(&mut c, previous);
    push_str(&mut c, "step_wise");
    push_str(&mut c, "power_allocator");
    push_str(&mut c, "bang_bang");
    push_str(&mut c, "fair_share");
    let ghost cv = recovery_candidates(previous@);
    assert(strings_view(c@) =~= cv);
    let mut k: usize = 0;
    while k < c.len()
        invariant
            k <= c.len(),
            c@.len() == 5,
            strings_view(c@) == cv,
            cv == recovery_candidates(previous@),
            cv.len() == 5,
            strings_view(avs@) == words(available_policies@),
            recovery_from(cv, words(available_policies@), 0) == recovery_from(cv, words(available_policies@), k as int),
        decreases c.len() - k,
    {
        let name = chars_of(c[k].as_str());
        assert(strings_view(c@)[k as int] == c@[k as int]@);
        assert(name@ == cv[k as int]);
        if !eq_str(&name, "user_space") && crate::catalog::is_listed(&avs, c[k].as_str()) {
            assert(recovery_from(cv, words(available_policies@), k as int) == Some(cv[k as int]));
            return Ok(owned(c[k].as_str()));
        }
        k = k + 1;
    }
    Err(HardwareError::Unsupported(owned("No kernel thermal governor is available for recovery.")))
}


// ----------------------------------------------------------------------
// Planning a fan curve
// ----------------------------------------------------------------------

/// A thermal zone as fan-curve planning reads it: its id, its governor,
/// whether it offers `user_space`, and the cooling devices bound to it
/// (`None` when they could not be read safely).
pub struct FanZone {
    pub id: String,
    pub policy: Option<String>,
    pub supports_user_space: bool,
    pub cooling_device_ids: Option<Vec<String>>,
}

/// What fan-curve control looks like on a board: whether it is there and
/// can be changed (and why not), whether a curve is active, the zones and
/// the PWM fans.
pub struct FanCurveState {
    pub supported: bool,
    pub mutable: bool,
    pub active: bool,
    pub unavailable_reason: Option<String>,
    pub zones: Vec<FanZone>,
    pub devices: Vec<FanCurveDevice>,
}

/// What a plan of a fan-curve change settles: the zone and fan it drives
/// (indices into the state's lists), the governor to give back later, and
/// the warnings shown with it.
pub struct FanCurveDecision {
    pub zone: Option<usize>,
    pub device: Option<usize>,
    pub previous_policy: Option<String>,
    pub warnings: Vec<String>,
}

/// The ids of the zones.
pub open spec fn zone_ids(zs: Seq<FanZone>) -> Seq<Seq<char>> {
    zs.map_values(|z: FanZone| z.id@)
}

/// The bindings of the zones as plain values.
pub open spec fn zone_bindings(zs: Seq<FanZone>) -> Seq<(Seq<char>, Option<Seq<Seq<char>>>)> {
    zs.map_values(|z: FanZone| (z.id@, match z.cooling_device_ids {
        Some(b) => Some(strings_view(b@)),
        None => None,
    }))
}

/// The ids of the fans.
pub open spec fn device_ids(ds: Seq<FanCurveDevice>) -> Seq<Seq<char>> {
    ds.map_values(|d: FanCurveDevice| d.id@)
}

/// The reason given, or `default`.
pub open spec fn reason_or(reason: Option<String>, default: Seq<char>) -> Seq<char> {
    match reason {
        Some(m) => m@,
        None => default,
    }
}

/// The warnings shown with a plan that enables a curve.
pub open spec fn enable_warnings() -> Seq<Seq<char>> {
    seq![
        "user_space_governor_replaces_kernel_fan_control"@,
        "invalid_curve_can_cause_overheating"@,
        "sensor_failure_forces_full_speed"@,
    ]
}

/// The message of the refusal to take over a zone that something else
/// already drives with `user_space`.
pub open spec fn external_controller_conflict() -> Seq<char> {
    "the selected zone is already controlled by user_space; restore a kernel governor or stop the external controller first"@
}

/// The saved curve, when it could be read and there is one, drives
/// `zone`.
pub open spec fn saved_for(saved: Result<Option<(String, String)>, HardwareError>, zone: Seq<char>) -> bool {
    saved matches Ok(Some(s)) && s.0@ == zone
}

/// What planning a fan-curve request comes to. The request enables a
/// curve (`enabled`, driving `device_id` from `zone_id`) or disables it,
/// and holds a configuration or not (`has_config`); `curve` is the verdict
/// on the configuration's points; `writable` says whether the zone's
/// governor and the fan's state can be written; `saved` is the saved
/// curve as read (its zone and the governor it replaced). Checks run in
/// this order: the request's shape and points, support, the zone, `user_space`
/// support, the fan, the bindings, writability, the saved curve, and
/// another controller already on the zone. A demo board (`synthetic`)
/// needs no writability and reads no saved curve.
pub open spec fn fan_plan_spec(
    st: FanCurveState,
    synthetic: bool,
    enabled: bool,
    has_config: bool,
    curve: Result<(), HardwareError>,
    zone_id: Seq<char>,
    device_id: Seq<char>,
    writable: bool,
    saved: Result<Option<(String, String)>, HardwareError>,
    r: Result<FanCurveDecision, HardwareError>,
) -> bool {
    let zi = index_named(zone_ids(st.zones@), zone_id, 0);
    let di = index_named(device_ids(st.devices@), device_id, 0);
    if enabled && !has_config {
        r matches Err(HardwareError::InvalidInput(m)) && m@ == "an enabled fan curve requires a configuration"@
    } else if !enabled && has_config {
        r matches Err(HardwareError::InvalidInput(m)) && m@
            == "a disabled fan curve must not include a configuration"@
    } else if enabled && curve is Err {
        r matches Err(e) && curve == Err::<(), HardwareError>(e)
    } else if enabled && !st.supported {
        r matches Err(HardwareError::Unsupported(m)) && m@ == reason_or(
            st.unavailable_reason,
            "fan curve control is unavailable"@,
        )
    } else if enabled && !synthetic && !st.mutable {
        r matches Err(HardwareError::Unsupported(m)) && m@ == reason_or(
            st.unavailable_reason,
            "fan curve control is read-only"@,
        )
    } else if enabled && zi >= st.zones@.len() {
        r matches Err(HardwareError::InvalidInput(m)) && m@ == "unknown thermal zone "@ + zone_id
    } else if enabled && !st.zones@[zi].supports_user_space {
        r matches Err(HardwareError::Conflict(m)) && m@ == zone_id
            + " does not support the user_space thermal governor"@
    } else if enabled && di >= st.devices@.len() {
        r matches Err(HardwareError::InvalidInput(m)) && m@ == "unknown pwm-fan cooling device "@ + device_id
    } else if enabled && binding_issue(zone_bindings(st.zones@), zone_id, device_id) is Some {
        r matches Err(e) && binding_error(
            binding_issue(zone_bindings(st.zones@), zone_id, device_id)->Some_0,
            e,
        )
    } else if enabled && !synthetic && !writable {
        r matches Err(HardwareError::Unsupported(m)) && m@
            == "the selected thermal zone or pwm-fan control is read-only"@
    } else if enabled && !synthetic && saved is Err {
        r matches Err(e) && saved == Err::<Option<(String, String)>, HardwareError>(e)
    } else if enabled && !synthetic && !saved_for(saved, zone_id) && (st.zones@[zi].policy matches Some(
        p,
    ) && p@ == "user_space"@) {
        r matches Err(HardwareError::Conflict(m)) && m@ == external_controller_conflict()
    } else if enabled {
        r matches Ok(d) && d.zone == Some(zi as usize) && d.device == Some(di as usize) && opt_view(
            d.previous_policy,
        ) == (if synthetic {
            Some("step_wise"@)
        } else if saved_for(saved, zone_id) {
            Some(saved->Ok_0->Some_0.1@)
        } else {
            opt_view(st.zones@[zi].policy)
        }) && strings_view(d.warnings@) == enable_warnings()
    } else if !st.active {
        r matches Err(HardwareError::Conflict(m)) && m@ == "no active fan curve configuration exists"@
    } else if !synthetic && saved is Err {
        r matches Err(e) && saved == Err::<Option<(String, String)>, HardwareError>(e)
    } else {
        r matches Ok(d) && d.zone is None && d.device is None && opt_view(d.previous_policy) == (if synthetic {
            Some("step_wise"@)
        } else {
            match saved {
                Ok(Some(s)) => Some(s.1@),
                _ => None,
            }
        }) && strings_view(d.warnings@) == seq!["previous_thermal_governor_will_be_restored"@]
    }
}

fn zone_binding_list(zones: &Vec<FanZone>) -> (r: Vec<ZoneBindings>)
    ensures
        r@.map_values(|z: ZoneBindings| bindings_view(z)) == zone_bindings(zones@),
{
    let mut r: Vec<ZoneBindings> = Vec::new();
    let mut i: usize = 0;
    while i < zones.len()
        invariant
            i <= zones.len(),
            r@.map_values(|z: ZoneBindings| bindings_view(z)) == zone_bindings(zones@).take(i as int),
        decreases zones.len() - i,
    {
        let z = &zones[i];
        let b = match &z.cooling_device_ids {
            Some(v) => Some(crate::model::clone_strings(v)),
            None => None,
        };
        let ghost before = r@;
        let item = (owned(z.id.as_str()), b);
        assert(bindings_view(item) == zone_bindings(zones@)[i as int]) by {
            match z.cooling_device_ids {
                Some(v) => {
                    assert(strings_view(item.1->Some_0@) == strings_view(v@));
                },
                None => {},
            }
        }
        let ghost gi = item;
        r.push(item);
        assert(r@ == before.push(gi));
        assert(before.push(gi).map_values(|z: ZoneBindings| bindings_view(z)) =~= before.map_values(
            |z: ZoneBindings| bindings_view(z),
        ).push(bindings_view(gi)));
        assert(zone_bindings(zones@).take(i + 1) =~= zone_bindings(zones@).take(i as int).push(
            zone_bindings(zones@)[i as int],
        ));
        i = i + 1;
    }
    assert(zone_bindings(zones@).take(zones@.len() as int) =~= zone_bindings(zones@));
    r
}

fn zone_index(zones: &Vec<FanZone>, id: &str) -> (r: usize)
    ensures
        r as int == index_named(zone_ids(zones@), id@, 0),
{
    let ghost ids = zone_ids(zones@);
    let k = chars_of(id);
    let mut i: usize = 0;
    while i < zones.len()
        invariant
            i <= zones.len(),
            ids == zone_ids(zones@),
            k@ == id@,
            index_named(ids, id@, 0) == index_named(ids, id@, i as int),
        decreases zones.len() - i,
    {
        let c = chars_of(zones[i].id.as_str());
        if crate::text::seq_eq(&c, &k) {
            return i;
        }
        i = i + 1;
    }
    i
}

fn device_index(devices: &Vec<FanCurveDevice>, id: &str) -> (r: usize)
    ensures
        r as int == index_named(device_ids(devices@), id@, 0),
{
    let ghost ids = device_ids(devices@);
    let k = chars_of(id);
    let mut i: usize = 0;
    while i < devices.len()
        invariant
            i <= devices.len(),
            ids == device_ids(devices@),
            k@ == id@,
            index_named(ids, id@, 0) == index_named(ids, id@, i as int),
        decreases devices.len() - i,
    {
        let c = chars_of(devices[i].id.as_str());
        if crate::text::seq_eq(&c, &k) {
            return i;
        }
        i = i + 1;
    }
    i
}

fn reason_or_exec(reason: &Option<String>, default: &str) -> (r: String)
    ensures
        r@ == reason_or(*reason, default@),
{
    match reason {
        Some(m) => owned(m.as_str()),
        None => owned(default),
    }
}

fn is_user_space(policy: &Option<String>) -> (r: bool)
    ensures
        r == (*policy matches Some(p) && p@ == "user_space"@),
{
    match policy {
        Some(p) => eq_str(&chars_of(p.as_str()), "user_space"),
        None => false,
    }
}

/// Plans a fan-curve change (see [`fan_plan_spec`]).
pub fn plan_fan_curve(
    st: &FanCurveState,
    synthetic: bool,
    enabled: bool,
    has_config: bool,
    curve: Result<(), HardwareError>,
    zone_id: &str,
    device_id: &str,
    writable: bool,
    saved: Result<Option<(String, String)>, HardwareError>,
) -> (r: Result<FanCurveDecision, HardwareError>)
    ensures
        fan_plan_spec(*st, synthetic, enabled, has_config, curve, zone_id@, device_id@, writable, saved, r),
{
    if enabled && !has_config {
        return Err(HardwareError::InvalidInput(owned("an enabled fan curve requires a configuration")));
    }
    if !enabled && has_config {
        return Err(HardwareError::InvalidInput(owned("a disabled fan curve must not include a configuration")));
    }
    if !enabled {
        if !st.active {
            return Err(HardwareError::Conflict(owned("no active fan curve configuration exists")));
        }
        let previous = if synthetic {
            Some(owned("step_wise"))
        } else {
            match saved {
                Err(e) => {
                    return Err(e);
                },
                Ok(Some(s)) => Some(s.1),
                Ok(None) => None,
            }
        };
        let mut warnings: Vec<String> = Vec::new();
        push_str(&mut warnings, "previous_thermal_governor_will_be_restored");
        assert(strings_view(warnings@) =~= seq!["previous_thermal_governor_will_be_restored"@]);
        return Ok(FanCurveDecision { zone: None, device: None, previous_policy: previous, warnings });
    }
    match curve {
        Err(e) => {
            return Err(e);
        },
        Ok(()) => {},
    }
    if !st.supported {
        return Err(HardwareError::Unsupported(reason_or_exec(&st.unavailable_reason, "fan curve control is unavailable")));
    }
    if !synthetic && !st.mutable {
        return Err(HardwareError::Unsupported(reason_or_exec(&st.unavailable_reason, "fan curve control is read-only")));
    }
    let zi = zone_index(&st.zones, zone_id);
    if zi >= st.zones.len() {
        let mut m = chars_of("unknown thermal zone ");
        crate::text::extend_str(&mut m, zone_id);
        return Err(HardwareError::InvalidInput(string_of(&m)));
    }
    proof {
        crate::devices::lemma_index_named_found(zone_ids(st.zones@), zone_id@, 0);
    }
    if !st.zones[zi].supports_user_space {
        let mut m = chars_of(zone_id);
        crate::text::extend_str(&mut m, " does not support the user_space thermal governor");
        return Err(HardwareError::Conflict(string_of(&m)));
    }
    let di = device_index(&st.devices, device_id);
    if di >= st.devices.len() {
        let mut m = chars_of("unknown pwm-fan cooling device ");
        crate::text::extend_str(&mut m, device_id);
        return Err(HardwareError::InvalidInput(string_of(&m)));
    }
    let bindings = zone_binding_list(&st.zones);
    match validate_fan_binding(&bindings, zone_id, device_id) {
        Err(e) => {
            return Err(e);
        },
        Ok(()) => {},
    }
    if !synthetic && !writable {
        return Err(HardwareError::Unsupported(owned("the selected thermal zone or pwm-fan control is read-only")));
    }
    let previous = if synthetic {
        Some(owned("step_wise"))
    } else {
        let (own, saved_policy) = match saved {
            Err(e) => {
                return Err(e);
            },
            Ok(Some(s)) => {
                let same = eq_str(&chars_of(s.0.as_str()), zone_id);
                (same, Some(s.1))
            },
            Ok(None) => (false, None),
        };
        if !own && is_user_space(&st.zones[zi].policy) {
            return Err(HardwareError::Conflict(owned(
                "the selected zone is already controlled by user_space; restore a kernel governor or stop the external controller first",
            )));
        }
        if own {
            saved_policy
        } else {
            match &st.zones[zi].policy {
                Some(p) => Some(owned(p.as_str())),
                None => None,
            }
        }
    };
    let mut warnings: Vec<String> = Vec::new();
    push_str(&mut warnings, "user_space_governor_replaces_kernel_fan_control");
    push_str(&mut warnings, "invalid_curve_can_cause_overheating");
    push_str(&mut warnings, "sensor_failure_forces_full_speed");
    assert(strings_view(warnings@) =~= enable_warnings());
    Ok(FanCurveDecision { zone: Some(zi), device: Some(di), previous_policy: previous, warnings })
}

/// A planned fan curve never fights the kernel or another controller: the
/// zone it drives offers `user_space` and is bound to that fan alone, no
/// other zone drives the fan, and on a real board both can be written and
/// the zone was not already under someone else's `user_space` control.
pub proof fn law_fan_curve_plans_respect_bindings(
    st: FanCurveState,
    synthetic: bool,
    has_config: bool,
    curve: Result<(), HardwareError>,
    zone_id: Seq<char>,
    device_id: Seq<char>,
    writable: bool,
    saved: Result<Option<(String, String)>, HardwareError>,
    r: Result<FanCurveDecision, HardwareError>,
)
    requires
        fan_plan_spec(st, synthetic, true, has_config, curve, zone_id, device_id, writable, saved, r),
        r is Ok,
    ensures
        binding_issue(zone_bindings(st.zones@), zone_id, device_id) is None,
        st.zones@[index_named(zone_ids(st.zones@), zone_id, 0)].supports_user_space,
        !synthetic ==> writable,
        !synthetic && !saved_for(saved, zone_id) ==> !(st.zones@[index_named(zone_ids(st.zones@), zone_id, 0)].policy matches Some(p) && p@ == "user_space"@),
{
}

/// The cooling state of each point of a curve on a fan with `max_state`
/// states (see [`state_spec`]).
pub fn resolved_states(speeds: &Vec<u8>, max_state: u32) -> (r: Vec<u32>)
    requires
        forall|i: int| 0 <= i < speeds@.len() ==> #[trigger] speeds@[i] * max_state <= u32::MAX,
    ensures
        r@.len() == speeds@.len(),
        forall|i: int| 0 <= i < speeds@.len() ==> r@[i] == state_spec(#[trigger] speeds@[i], max_state),
{
    let mut r: Vec<u32> = Vec::new();
    let mut i: usize = 0;
    while i < speeds.len()
        invariant
            i <= speeds.len(),
            r@.len() == i,
            forall|j: int| 0 <= j < speeds@.len() ==> #[trigger] speeds@[j] * max_state <= u32::MAX,
            forall|j: int| 0 <= j < i ==> r@[j] == state_spec(#[trigger] speeds@[j], max_state),
        decreases speeds.len() - i,
    {
        r.push(percent_to_state(speeds[i], max_state));
        i = i + 1;
    }
    r
}

} // verus!
