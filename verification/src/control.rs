//! The control plane's own rules: the checks a change passes before it
//! runs, the steps a dry run reports, and the bounded history of runs.
use vstd::prelude::*;
use crate::catalog::{dry_run_output, ExecutionPolicy};
use crate::fingerprint::hex_char;
use crate::hardware::{HardwareError, OverlayChange};
use crate::helper_request::RgbLedConfig;
use crate::model::{push_str, strings_view};
use crate::source_files::SourceFileChange;
use crate::source_plan::SourceError;
use crate::text::{chars_of, decimal, decimal_spec, extend, extend_str, join_exec, join_spec, string_of};

verus! {

// ----------------------------------------------------------------------
// Admission
// ----------------------------------------------------------------------

/// Where an accepted change runs: nowhere (a dry run), through the
/// privileged helper, or here.
#[derive(Debug, Clone, Copy, PartialEq, Eq, Structural)]
pub enum ApplyRoute {
    DryRun,
    Privileged,
    Live,
}

/// The user is root.
pub open spec fn is_root(uid: Option<u32>) -> bool {
    uid == Some(0u32)
}

/// Where a change runs under `policy` for the user `uid`: a dry run
/// changes nothing; a live change by another user than root goes to the
/// privileged helper.
pub open spec fn route_spec(policy: ExecutionPolicy, uid: Option<u32>) -> ApplyRoute {
    if policy == ExecutionPolicy::DryRun {
        ApplyRoute::DryRun
    } else if !is_root(uid) {
        ApplyRoute::Privileged
    } else {
        ApplyRoute::Live
    }
}

fn root(uid: Option<u32>) -> (r: bool)
    ensures
        r == is_root(uid),
{
    match uid {
        Some(u) => u == 0,
        None => false,
    }
}

/// Where a change runs (see [`route_spec`]).
pub fn route(policy: ExecutionPolicy, uid: Option<u32>) -> (r: ApplyRoute)
    ensures
        r == route_spec(policy, uid),
{
    if policy == ExecutionPolicy::DryRun {
        ApplyRoute::DryRun
    } else if !root(uid) {
        ApplyRoute::Privileged
    } else {
        ApplyRoute::Live
    }
}

/// The token is blank: empty once trimmed.
pub open spec fn blank_token(token: Seq<char>) -> bool {
    crate::text::trim(token).len() == 0
}

fn is_blank_token(token: &str) -> (r: bool)
    ensures
        r == blank_token(token@),
{
    let t = crate::text::trimmed_chars(token);
    t.len() == 0
}

/// Admits a hardware change bound to a plan: it must be confirmed,
/// then name a plan token; it then runs where [`route_spec`] says.
pub fn admit_hardware_change(confirmed: bool, plan_token: &str, policy: ExecutionPolicy, uid: Option<u32>) -> (r:
    Result<ApplyRoute, HardwareError>)
    ensures
        !confirmed ==> r == Err::<ApplyRoute, HardwareError>(HardwareError::ConfirmationRequired),
        confirmed && blank_token(plan_token@) ==> r == Err::<ApplyRoute, HardwareError>(
            HardwareError::PlanRequired,
        ),
        confirmed && !blank_token(plan_token@) ==> r == Ok::<ApplyRoute, HardwareError>(
            route_spec(policy, uid),
        ),
{
    if !confirmed {
        return Err(HardwareError::ConfirmationRequired);
    }
    if is_blank_token(plan_token) {
        return Err(HardwareError::PlanRequired);
    }
    Ok(route(policy, uid))
}

/// Admits a mirror change bound to a plan (as
/// [`admit_hardware_change`], with the errors of the mirror manager).
pub fn admit_source_change(confirmed: bool, plan_token: &str, policy: ExecutionPolicy, uid: Option<u32>) -> (r:
    Result<ApplyRoute, SourceError>)
    ensures
        !confirmed ==> r == Err::<ApplyRoute, SourceError>(SourceError::ConfirmationRequired),
        confirmed && blank_token(plan_token@) ==> r == Err::<ApplyRoute, SourceError>(
            SourceError::PlanRequired,
        ),
        confirmed && !blank_token(plan_token@) ==> r == Ok::<ApplyRoute, SourceError>(
            route_spec(policy, uid),
        ),
{
    if !confirmed {
        return Err(SourceError::ConfirmationRequired);
    }
    if is_blank_token(plan_token) {
        return Err(SourceError::PlanRequired);
    }
    Ok(route(policy, uid))
}

/// Admits a hardware change without a plan (an LED or RGB setting):
/// it must be confirmed; it then runs where [`route_spec`] says.
pub fn admit_confirmed_change(confirmed: bool, policy: ExecutionPolicy, uid: Option<u32>) -> (r: Result<
    ApplyRoute,
    HardwareError,
>)
    ensures
        !confirmed ==> r == Err::<ApplyRoute, HardwareError>(HardwareError::ConfirmationRequired),
        confirmed ==> r == Ok::<ApplyRoute, HardwareError>(route_spec(policy, uid)),
{
    if !confirmed {
        return Err(HardwareError::ConfirmationRequired);
    }
    Ok(route(policy, uid))
}

/// The message of the refusal to change the thermal governor under an
/// active fan curve.
pub open spec fn fan_curve_conflict() -> Seq<char> {
    "disable the active fan curve before changing the thermal governor"@
}

/// Admits a thermal-governor change: it must be confirmed, and no fan
/// curve may be active; it then runs where [`route_spec`] says.
pub fn admit_thermal_change(confirmed: bool, fan_curve_active: bool, policy: ExecutionPolicy, uid: Option<u32>) -> (r:
    Result<ApplyRoute, HardwareError>)
    ensures
        if !confirmed {
            r == Err::<ApplyRoute, HardwareError>(HardwareError::ConfirmationRequired)
        } else if fan_curve_active {
            r matches Err(HardwareError::Conflict(m)) && m@ == fan_curve_conflict()
        } else {
            r == Ok::<ApplyRoute, HardwareError>(route_spec(policy, uid))
        },
{
    if !confirmed {
        return Err(HardwareError::ConfirmationRequired);
    }
    if fan_curve_active {
        return Err(
            HardwareError::Conflict(
                crate::text::owned("disable the active fan curve before changing the thermal governor"),
            ),
        );
    }
    Ok(route(policy, uid))
}

/// Under a dry run a thermal governor must be one the board offers.
pub fn check_policy_offered(policy: &str, available: &Vec<String>) -> (r: Result<(), HardwareError>)
    ensures
        if strings_view(available@).contains(policy@) {
            r is Ok
        } else {
            r matches Err(HardwareError::InvalidInput(m)) && m@ == "policy "@ + policy@ + " is not available"@
        },
{
    let p = chars_of(policy);
    let mut i: usize = 0;
    while i < available.len()
        invariant
            i <= available.len(),
            p@ == policy@,
            forall|j: int| 0 <= j < i ==> available@[j]@ != policy@,
        decreases available.len() - i,
    {
        let c = chars_of(available[i].as_str());
        if crate::text::seq_eq(&c, &p) {
            proof {
                assert(strings_view(available@)[i as int] == policy@);
            }
            return Ok(());
        }
        i = i + 1;
    }
    proof {
        if strings_view(available@).contains(policy@) {
            let j = choose|j: int| 0 <= j < strings_view(available@).len() && strings_view(available@)[j] == policy@;
            assert(available@[j]@ == policy@);
        }
    }
    let mut m = chars_of("policy ");
    extend_str(&mut m, policy);
    extend_str(&mut m, " is not available");
    Err(HardwareError::InvalidInput(string_of(&m)))
}

/// Admits what only root may do, and only for real (restoring saved
/// settings, a tick of the fan-curve daemon).
pub fn require_live_root(policy: ExecutionPolicy, uid: Option<u32>) -> (r: Result<(), HardwareError>)
    ensures
        policy == ExecutionPolicy::Live && is_root(uid) ==> r is Ok,
        !(policy == ExecutionPolicy::Live && is_root(uid)) ==> r == Err::<(), HardwareError>(
            HardwareError::RootRequired,
        ),
{
    if policy != ExecutionPolicy::Live || !root(uid) {
        return Err(HardwareError::RootRequired);
    }
    Ok(())
}

/// An LED and the triggers it offers, as the LED status lists them.
pub open spec fn led_triggers(leds: Seq<(String, Vec<String>)>, id: Seq<char>) -> Option<Seq<Seq<char>>>
    decreases leds.len(),
{
    if leds.len() == 0 {
        None
    } else if leds[0].0@ == id {
        Some(strings_view(leds[0].1@))
    } else {
        led_triggers(leds.drop_first(), id)
    }
}

/// Admits an LED-trigger change: it must be confirmed, name a known
/// LED (the first of that id) and a trigger that LED offers; it then runs
/// where [`route_spec`] says.
pub fn admit_led_trigger(
    confirmed: bool,
    leds: &Vec<(String, Vec<String>)>,
    led_id: &str,
    trigger: &str,
    policy: ExecutionPolicy,
    uid: Option<u32>,
) -> (r: Result<ApplyRoute, HardwareError>)
    ensures
        !confirmed ==> r == Err::<ApplyRoute, HardwareError>(HardwareError::ConfirmationRequired),
        confirmed ==> match led_triggers(leds@, led_id@) {
            None => r matches Err(HardwareError::InvalidInput(m)) && m@ == "unknown LED "@ + led_id@,
            Some(ts) => if ts.contains(trigger@) {
                r == Ok::<ApplyRoute, HardwareError>(route_spec(policy, uid))
            } else {
                r matches Err(HardwareError::InvalidInput(m)) && m@ == "trigger "@ + trigger@
                    + " is not available for "@ + led_id@
            },
        },
{
    if !confirmed {
        return Err(HardwareError::ConfirmationRequired);
    }
    let id = chars_of(led_id);
    let mut i: usize = 0;
    assert(leds@.skip(0) =~= leds@);
    while i < leds.len()
        invariant
            confirmed,
            i <= leds.len(),
            id@ == led_id@,
            led_triggers(leds@, led_id@) == led_triggers(leds@.skip(i as int), led_id@),
        decreases leds.len() - i,
    {
        proof {
            assert(leds@.skip(i as int)[0] == leds@[i as int]);
            assert(leds@.skip(i as int).drop_first() =~= leds@.skip(i + 1));
        }
        let name = chars_of(leds[i].0.as_str());
        if crate::text::seq_eq(&name, &id) {
            let ts = &leds[i].1;
            let t = chars_of(trigger);
            let mut k: usize = 0;
            assert(led_triggers(leds@, led_id@) == Some(strings_view(ts@)));
            while k < ts.len()
                invariant
                    confirmed,
                    led_triggers(leds@, led_id@) == Some(strings_view(ts@)),
                    k <= ts.len(),
                    t@ == trigger@,
                    forall|j: int| 0 <= j < k ==> ts@[j]@ != trigger@,
                decreases ts.len() - k,
            {
                let c = chars_of(ts[k].as_str());
                if crate::text::seq_eq(&c, &t) {
                    proof {
                        assert(strings_view(ts@)[k as int] == trigger@);
                    }
                    return Ok(route(policy, uid));
                }
                k = k + 1;
            }
            proof {
                if strings_view(ts@).contains(trigger@) {
                    let j = choose|j: int| 0 <= j < strings_view(ts@).len() && strings_view(ts@)[j] == trigger@;
                    assert(ts@[j]@ == trigger@);
                }
            }
            let mut m = chars_of("trigger ");
            extend_str(&mut m, trigger);
            extend_str(&mut m, " is not available for ");
            extend_str(&mut m, led_id);
            return Err(HardwareError::InvalidInput(string_of(&m)));
        }
        i = i + 1;
    }
    let mut m = chars_of("unknown LED ");
    extend_str(&mut m, led_id);
    Err(HardwareError::InvalidInput(string_of(&m)))
}

// ----------------------------------------------------------------------
// Dry runs
// ----------------------------------------------------------------------

/// The summary of a dry run of a hardware change.
pub open spec fn hardware_dry_run_summary() -> Seq<char> {
    "Dry run completed; no hardware configuration was changed."@
}

/// The output of a dry run with these steps (see [`dry_run_output`]).
pub fn dry_run_text(steps: &Vec<String>) -> (r: String)
    ensures
        r@ == dry_run_output(strings_view(steps@)),
{
    let joined = join_exec(steps, "\n- ");
    let mut out = chars_of("planned steps:\n- ");
    extend_str(&mut out, joined.as_str());
    string_of(&out)
}

/// The step a dry run reports for one overlay change.
pub open spec fn overlay_step(c: OverlayChange) -> Seq<char> {
    c.id@ + ": "@ + if c.after_enabled {
        "enable"@
    } else {
        "disable"@
    }
}

/// The steps a dry run of an overlay change reports: one per change.
pub fn overlay_dry_run_steps(changes: &Vec<OverlayChange>) -> (r: Vec<String>)
    ensures
        strings_view(r@) == changes@.map_values(|c: OverlayChange| overlay_step(c)),
{
    let mut r: Vec<String> = Vec::new();
    let mut i: usize = 0;
    while i < changes.len()
        invariant
            i <= changes.len(),
            strings_view(r@) == changes@.take(i as int).map_values(|c: OverlayChange| overlay_step(c)),
        decreases changes.len() - i,
    {
        let c = &changes[i];
        let mut s = chars_of(c.id.as_str());
        extend_str(&mut s, ": ");
        if c.after_enabled {
            extend_str(&mut s, "enable");
        } else {
            extend_str(&mut s, "disable");
        }
        let line = string_of(&s);
        push_str(&mut r, line.as_str());
        assert(changes@.take(i + 1) =~= changes@.take(i as int).push(changes@[i as int]));
        i = i + 1;
    }
    assert(changes@.take(changes@.len() as int) =~= changes@);
    r
}

/// The steps a dry run of a thermal-governor change reports.
pub fn thermal_dry_run_steps(policy: &str) -> (r: Vec<String>)
    ensures
        strings_view(r@) == seq![
            "set every supported thermal zone to "@ + policy@,
            "persist "@ + policy@ + " for boot"@,
        ],
{
    let mut r: Vec<String> = Vec::new();
    let mut a = chars_of("set every supported thermal zone to ");
    extend_str(&mut a, policy);
    let mut b = chars_of("persist ");
    extend_str(&mut b, policy);
    extend_str(&mut b, " for boot");
    let la = string_of(&a);
    let lb = string_of(&b);
    push_str(&mut r, la.as_str());
    push_str(&mut r, lb.as_str());
    r
}

/// The steps a dry run of an LED-trigger change reports.
pub fn led_trigger_dry_run_steps(led_id: &str, trigger: &str) -> (r: Vec<String>)
    ensures
        strings_view(r@) == seq![
            "set "@ + led_id@ + " trigger to "@ + trigger@,
            "persist the LED trigger for boot"@,
        ],
{
    let mut r: Vec<String> = Vec::new();
    let mut a = chars_of("set ");
    extend_str(&mut a, led_id);
    extend_str(&mut a, " trigger to ");
    extend_str(&mut a, trigger);
    let la = string_of(&a);
    push_str(&mut r, la.as_str());
    push_str(&mut r, "persist the LED trigger for boot");
    r
}

/// The two lower-case hex digits of a byte.
pub open spec fn hex_byte(b: u8) -> Seq<char> {
    seq![hex_char(b / 16), hex_char(b % 16)]
}

fn hex_digit(d: u8) -> (c: char)
    requires
        d < 16,
    ensures
        c == hex_char(d),
{
    if d < 10 {
        (48u8 + d) as char
    } else {
        (87u8 + d) as char
    }
}

fn push_hex_byte(out: &mut Vec<char>, b: u8)
    ensures
        final(out)@ == old(out)@ + hex_byte(b),
{
    let ghost start = out@;
    out.push(hex_digit(b / 16));
    out.push(hex_digit(b % 16));
    assert(out@ =~= start + hex_byte(b));
}

/// The colour line a dry run of an RGB setting reports.
pub open spec fn rgb_color_step(c: RgbLedConfig) -> Seq<char> {
    "use color #"@ + hex_byte(c.red) + hex_byte(c.green) + hex_byte(c.blue) + ", "@ + decimal_spec(
        c.brightness as nat,
    ) + "% brightness, "@ + decimal_spec(c.cycle_ms as nat) + "ms cycle"@
}

/// The steps a dry run of an RGB LED setting reports.
pub fn rgb_dry_run_steps(config: &RgbLedConfig) -> (r: Vec<String>)
    ensures
        strings_view(r@) == seq![
            "set "@ + config.group_id@ + " to "@ + config.mode@ + " mode"@,
            rgb_color_step(*config),
            "persist the RGB LED pattern for boot"@,
        ],
{
    let mut r: Vec<String> = Vec::new();
    let mut a = chars_of("set ");
    extend_str(&mut a, config.group_id.as_str());
    extend_str(&mut a, " to ");
    extend_str(&mut a, config.mode.as_str());
    extend_str(&mut a, " mode");
    let la = string_of(&a);
    push_str(&mut r, la.as_str());
    let mut c = chars_of("use color #");
    push_hex_byte(&mut c, config.red);
    push_hex_byte(&mut c, config.green);
    push_hex_byte(&mut c, config.blue);
    extend_str(&mut c, ", ");
    let b = decimal(config.brightness as u64);
    extend(&mut c, &b);
    extend_str(&mut c, "% brightness, ");
    let m = decimal(config.cycle_ms as u64);
    extend(&mut c, &m);
    extend_str(&mut c, "ms cycle");
    let color = string_of(&c);
    push_str(&mut r, color.as_str());
    push_str(&mut r, "persist the RGB LED pattern for boot");
    r
}

/// The steps a dry run of a fan-curve change reports: applying one that
/// controls `device_id` from `zone_id` with `points` points, or disabling
/// the curve.
pub fn fan_curve_dry_run_steps(enabled: bool, zone_id: &str, device_id: &str, points: usize) -> (r: Vec<
    String,
>)
    ensures
        enabled ==> strings_view(r@) == seq![
            "set "@ + zone_id@ + " to the user_space governor"@,
            "control "@ + device_id@ + " with "@ + decimal_spec(points as nat) + " curve points"@,
            "persist the curve and start its fail-safe control service"@,
        ],
        !enabled ==> strings_view(r@) == seq![
            "stop and disable the fan curve service"@,
            "restore the previous thermal governor"@,
        ],
{
    let mut r: Vec<String> = Vec::new();
    if enabled {
        let mut a = chars_of("set ");
        extend_str(&mut a, zone_id);
        extend_str(&mut a, " to the user_space governor");
        let la = string_of(&a);
        push_str(&mut r, la.as_str());
        let mut c = chars_of("control ");
        extend_str(&mut c, device_id);
        extend_str(&mut c, " with ");
        let n = decimal(points as u64);
        extend(&mut c, &n);
        extend_str(&mut c, " curve points");
        let b = string_of(&c);
        push_str(&mut r, b.as_str());
        push_str(&mut r, "persist the curve and start its fail-safe control service");
    } else {
        push_str(&mut r, "stop and disable the fan curve service");
        push_str(&mut r, "restore the previous thermal governor");
    }
    r
}

// ----------------------------------------------------------------------
// Mirror plans as text
// ----------------------------------------------------------------------

/// The lines of the replaced entries: each old line with `- ` and its new
/// line with `+ `, pair by pair, as far as both lists go.
pub open spec fn pair_lines(before: Seq<Seq<char>>, after: Seq<Seq<char>>) -> Seq<Seq<char>>
    decreases before.len(),
{
    let n = if before.len() < after.len() {
        before.len()
    } else {
        after.len()
    };
    if n == 0 {
        seq![]
    } else {
        pair_lines(before.take(n - 1), after.take(n - 1)) + seq![
            "- "@ + before[n - 1],
            "+ "@ + after[n - 1],
        ]
    }
}

/// The lines shown for one changed source file.
pub open spec fn change_lines(c: SourceFileChange) -> Seq<Seq<char>> {
    seq![c.path@ + " ("@ + decimal_spec(c.replacements as nat) + " replacement(s))"@] + pair_lines(
        strings_view(c.before@),
        strings_view(c.after@),
    )
}

/// The lines shown for the changed source files, in order.
pub open spec fn plan_lines(cs: Seq<SourceFileChange>) -> Seq<Seq<char>>
    decreases cs.len(),
{
    if cs.len() == 0 {
        seq![]
    } else {
        plan_lines(cs.drop_last()) + change_lines(cs.last())
    }
}

/// The text a dry run of a mirror change shows.
pub open spec fn source_plan_text(cs: Seq<SourceFileChange>) -> Seq<char> {
    if cs.len() == 0 {
        "No managed APT source entry would change."@
    } else {
        join_spec(plan_lines(cs), "\n"@)
    }
}

/// The text a dry run of a mirror change shows (see
/// [`source_plan_text`]).
pub fn source_plan_output(changes: &Vec<SourceFileChange>) -> (r: String)
    ensures
        r@ == source_plan_text(changes@),
{
    if changes.len() == 0 {
        return crate::text::owned("No managed APT source entry would change.");
    }
    let mut lines: Vec<String> = Vec::new();
    let mut i: usize = 0;
    while i < changes.len()
        invariant
            i <= changes.len(),
            strings_view(lines@) == plan_lines(changes@.take(i as int)),
        decreases changes.len() - i,
    {
        let c = &changes[i];
        let ghost before_lines = strings_view(lines@);
        let ghost bv = strings_view(c.before@);
        let ghost av = strings_view(c.after@);
        let mut h = chars_of(c.path.as_str());
        extend_str(&mut h, " (");
        let n = decimal(c.replacements as u64);
        extend(&mut h, &n);
        extend_str(&mut h, " replacement(s))");
        let header = string_of(&h);
        push_str(&mut lines, header.as_str());
        let mut k: usize = 0;
        assert(bv.take(0) =~= Seq::<Seq<char>>::empty());
        assert(pair_lines(bv.take(0), av.take(0)) =~= Seq::<Seq<char>>::empty());
        while k < c.before.len() && k < c.after.len()
            invariant
                k <= c.before.len(),
                k <= c.after.len(),
                bv == strings_view(c.before@),
                av == strings_view(c.after@),
                strings_view(lines@) == before_lines + seq![h@] + pair_lines(bv.take(k as int), av.take(k as int)),
            decreases c.before.len() - k,
        {
            let mut a = chars_of("- ");
            extend_str(&mut a, c.before[k].as_str());
            let la = string_of(&a);
            let mut b = chars_of("+ ");
            extend_str(&mut b, c.after[k].as_str());
            let lb = string_of(&b);
            push_str(&mut lines, la.as_str());
            push_str(&mut lines, lb.as_str());
            proof {
                let b1 = bv.take(k + 1);
                let a1 = av.take(k + 1);
                assert(b1.take(k as int) =~= bv.take(k as int));
                assert(a1.take(k as int) =~= av.take(k as int));
                assert(pair_lines(b1, a1) == pair_lines(bv.take(k as int), av.take(k as int)) + seq![
                    "- "@ + bv[k as int],
                    "+ "@ + av[k as int],
                ]);
            }
            k = k + 1;
        }
        proof {
            let m = k as int;
            if m < bv.len() && m < av.len() {
            } else {
                assert(pair_lines(bv, av) == pair_lines(bv.take(m), av.take(m))) by {
                    if bv.len() <= av.len() {
                        assert(bv.take(m) =~= bv);
                        assert(pair_lines(bv, av) == pair_lines(bv, av.take(m))) by {
                            lemma_pair_lines_trim(bv, av);
                        }
                    } else {
                        assert(av.take(m) =~= av);
                        assert(pair_lines(bv, av) == pair_lines(bv.take(m), av)) by {
                            lemma_pair_lines_trim(bv, av);
                        }
                    }
                }
            }
            assert(changes@.take(i + 1).drop_last() =~= changes@.take(i as int));
            assert(strings_view(lines@) =~= plan_lines(changes@.take(i as int)) + change_lines(changes@[i as int]));
        }
        i = i + 1;
    }
    assert(changes@.take(changes@.len() as int) =~= changes@);
    join_exec(&lines, "\n")
}

proof fn lemma_pair_lines_trim(before: Seq<Seq<char>>, after: Seq<Seq<char>>)
    ensures
        pair_lines(before, after) == {
            let n = if before.len() < after.len() {
                before.len()
            } else {
                after.len()
            };
            pair_lines(before.take(n as int), after.take(n as int))
        },
{
    let n = if before.len() < after.len() {
        before.len()
    } else {
        after.len()
    };
    let b = before.take(n as int);
    let a = after.take(n as int);
    if n > 0 {
        assert(b.take(n - 1) =~= before.take(n - 1));
        assert(a.take(n - 1) =~= after.take(n - 1));
    }
}

/// The warnings of a mirror plan as the control plane shows them: under a
/// dry-run policy `dry_run` is added once.
pub fn with_policy_warning(warnings: Vec<String>, policy: ExecutionPolicy) -> (r: Vec<String>)
    ensures
        policy == ExecutionPolicy::DryRun && !strings_view(warnings@).contains("dry_run"@) ==> strings_view(r@)
            == strings_view(warnings@).push("dry_run"@),
        !(policy == ExecutionPolicy::DryRun && !strings_view(warnings@).contains("dry_run"@)) ==> r@
            == warnings@,
{
    if policy != ExecutionPolicy::DryRun {
        return warnings;
    }
    let mut i: usize = 0;
    while i < warnings.len()
        invariant
            i <= warnings.len(),
            forall|j: int| 0 <= j < i ==> warnings@[j]@ != "dry_run"@,
        decreases warnings.len() - i,
    {
        let c = chars_of(warnings[i].as_str());
        if crate::text::eq_str(&c, "dry_run") {
            proof {
                assert(strings_view(warnings@)[i as int] == "dry_run"@);
            }
            return warnings;
        }
        i = i + 1;
    }
    proof {
        if strings_view(warnings@).contains("dry_run"@) {
            let j = choose|j: int| 0 <= j < strings_view(warnings@).len() && strings_view(warnings@)[j] == "dry_run"@;
            assert(warnings@[j]@ == "dry_run"@);
        }
    }
    let mut r = warnings;
    push_str(&mut r, "dry_run");
    r
}

/// The first event of the activity log: what kind of control plane is
/// ready (a demo one or the board's own) and how it runs changes.
pub fn ready_event(synthetic: bool, policy: ExecutionPolicy) -> (r: (&'static str, &'static str))
    ensures
        r.0@ == if synthetic {
            "Demo control plane ready"@
        } else {
            "Local control plane ready"@
        },
        r.1@ == if policy == ExecutionPolicy::DryRun {
            "Inspection is active. Mutating operations will produce dry-run results."@
        } else {
            "Live execution is enabled for the fixed action catalog."@
        },
{
    let title = if synthetic {
        "Demo control plane ready"
    } else {
        "Local control plane ready"
    };
    let detail = if policy == ExecutionPolicy::DryRun {
        "Inspection is active. Mutating operations will produce dry-run results."
    } else {
        "Live execution is enabled for the fixed action catalog."
    };
    (title, detail)
}

// ----------------------------------------------------------------------
// Bounded history
// ----------------------------------------------------------------------

/// The newest `cap` of `s` (all of it when it is shorter).
pub open spec fn keep_newest<T>(s: Seq<T>, cap: nat) -> Seq<T> {
    if s.len() > cap {
        s.skip(s.len() - cap)
    } else {
        s
    }
}

/// A history that keeps the newest entries only: at most its capacity,
/// oldest first.
pub struct History<T> {
    items: Vec<T>,
    capacity: usize,
}

impl<T> View for History<T> {
    type V = Seq<T>;

    closed spec fn view(&self) -> Seq<T> {
        self.items@
    }
}

impl<T> History<T> {
    /// How many entries the history keeps.
    pub closed spec fn capacity_spec(&self) -> nat {
        self.capacity as nat
    }

    /// The history holds no more than its capacity.
    pub closed spec fn wf(&self) -> bool {
        self.items@.len() <= self.capacity
    }

    /// An empty history keeping `capacity` entries.
    pub fn new(capacity: usize) -> (r: Self)
        ensures
            r.wf(),
            r@ == Seq::<T>::empty(),
            r.capacity_spec() == capacity,
    {
        History { items: Vec::new(), capacity }
    }

    /// Records an entry: it becomes the newest, and the oldest go while
    /// there are more than the capacity.
    pub fn record(&mut self, item: T)
        requires
            old(self).wf(),
        ensures
            final(self).wf(),
            final(self).capacity_spec() == old(self).capacity_spec(),
            final(self)@ == keep_newest(old(self)@.push(item), old(self).capacity_spec()),
    {
        let ghost all = self.items@.push(item);
        self.items.push(item);
        if self.items.len() > self.capacity {
            let ghost before = self.items@;
            self.items.remove(0);
            assert(self.items@ =~= all.skip(all.len() - self.capacity));
        }
    }

    /// The number of entries.
    pub fn len(&self) -> (r: usize)
        ensures
            r == self@.len(),
    {
        self.items.len()
    }

    /// The `i`-th entry counted from the newest.
    pub fn newest(&self, i: usize) -> (r: &T)
        requires
            i < self@.len(),
        ensures
            *r == self@[self@.len() - 1 - i],
    {
        &self.items[self.items.len() - 1 - i]
    }
}

/// Recording into a bounded history keeps exactly the newest entries of
/// everything recorded: what a history of `s` holds after `x` is what one
/// would hold that had kept all of `s` and then `x`.
pub proof fn law_history_keeps_the_newest<T>(s: Seq<T>, x: T, cap: nat)
    requires
        cap > 0,
    ensures
        keep_newest(keep_newest(s, cap).push(x), cap) == keep_newest(s.push(x), cap),
        keep_newest(s.push(x), cap).len() <= cap,
        keep_newest(s.push(x), cap).last() == x,
{
    let k = keep_newest(s, cap);
    if s.len() > cap {
        assert(k.len() == cap);
        assert(keep_newest(k.push(x), cap) =~= keep_newest(s.push(x), cap));
    } else {
        assert(k == s);
    }
}


/// A run of an action as the history keeps it.
#[derive(Debug, Clone)]
pub struct RunRecord {
    pub action_id: String,
    pub action_title: String,
    pub status: crate::model::ActionStatus,
    pub synthetic: bool,
    pub summary: String,
    pub output: Option<String>,
}

/// An entry of the activity feed: an id, the time it was recorded
/// (RFC 3339), its kind (`system` or `action`), a title and a detail.
#[derive(Debug, Clone)]
pub struct ActivityEvent {
    pub id: String,
    pub at: String,
    pub kind: String,
    pub title: String,
    pub detail: String,
    pub synthetic: bool,
}

/// How many runs the log keeps.
pub const RUNS_KEPT: usize = 40;

/// How many activity events the log keeps.
pub const EVENTS_KEPT: usize = 80;

/// The runs of actions and the activity feed of a control plane, each
/// keeping its newest entries only.
pub struct ControlLog {
    pub runs: History<RunRecord>,
    pub activity: History<ActivityEvent>,
}

/// The activity event that records a run.
pub open spec fn run_event(run: RunRecord, e: ActivityEvent) -> bool {
    &&& e.kind@ == "action"@
    &&& e.title@ == run.action_title@
    &&& e.detail@ == run.summary@
    &&& e.synthetic == run.synthetic
}

/// A fresh identifier for an activity event: `uuid::Uuid::new_v4`, as
/// hyphenated text. It is random, so nothing is stated of it.
#[verifier::external_body]
fn new_event_id() -> (r: String) {
    uuid::Uuid::new_v4().to_string()
}

/// The current time: `chrono::Utc::now`, as RFC 3339 text. It depends on
/// the clock, so nothing is stated of it.
#[verifier::external_body]
fn now_text() -> (r: String) {
    chrono::Utc::now().to_rfc3339()
}

impl ControlLog {
    /// The log keeps at most its 40 runs and 80 events.
    pub open spec fn wf(&self) -> bool {
        &&& self.runs.wf()
        &&& self.activity.wf()
        &&& self.runs.capacity_spec() == RUNS_KEPT
        &&& self.activity.capacity_spec() == EVENTS_KEPT
    }

    /// A new log whose only entry is the event that the control plane is
    /// ready (see [`ready_event`]), with the given id and time.
    pub fn start_at(synthetic: bool, policy: ExecutionPolicy, id: String, at: String) -> (r: Self)
        ensures
            r.wf(),
            r.runs@ == Seq::<RunRecord>::empty(),
            r.activity@.len() == 1,
            r.activity@[0].id@ == id@ && r.activity@[0].at@ == at@,
            r.activity@[0].kind@ == "system"@,
            r.activity@[0].synthetic == synthetic,
            r.activity@[0].title@ == if synthetic {
                "Demo control plane ready"@
            } else {
                "Local control plane ready"@
            },
            r.activity@[0].detail@ == if policy == ExecutionPolicy::DryRun {
                "Inspection is active. Mutating operations will produce dry-run results."@
            } else {
                "Live execution is enabled for the fixed action catalog."@
            },
    {
        let (title, detail) = ready_event(synthetic, policy);
        let mut activity: History<ActivityEvent> = History::new(EVENTS_KEPT);
        activity.record(
            ActivityEvent {
                id,
                at,
                kind: crate::text::owned("system"),
                title: crate::text::owned(title),
                detail: crate::text::owned(detail),
                synthetic,
            },
        );
        ControlLog { runs: History::new(RUNS_KEPT), activity }
    }

    /// A new log (see [`ControlLog::start_at`]) stamped with a fresh id
    /// and the current time.
    pub fn start(synthetic: bool, policy: ExecutionPolicy) -> (r: Self)
        ensures
            r.wf(),
            r.runs@ == Seq::<RunRecord>::empty(),
            r.activity@.len() == 1,
            r.activity@[0].kind@ == "system"@,
            r.activity@[0].synthetic == synthetic,
            r.activity@[0].title@ == if synthetic {
                "Demo control plane ready"@
            } else {
                "Local control plane ready"@
            },
            r.activity@[0].detail@ == if policy == ExecutionPolicy::DryRun {
                "Inspection is active. Mutating operations will produce dry-run results."@
            } else {
                "Live execution is enabled for the fixed action catalog."@
            },
    {
        let id = new_event_id();
        let at = now_text();
        Self::start_at(synthetic, policy, id, at)
    }

    /// Records a run: it becomes the newest run, and an `action` event with
    /// its title and summary, with the given id and time, becomes the
    /// newest event; the oldest go beyond 40 runs and 80 events.
    pub fn record_run_at(&mut self, run: RunRecord, id: String, at: String)
        requires
            old(self).wf(),
        ensures
            final(self).wf(),
            final(self).runs@ == keep_newest(old(self).runs@.push(run), RUNS_KEPT as nat),
            final(self).activity@ == keep_newest(old(self).activity@.push(final(self).activity@.last()), EVENTS_KEPT as nat),
            run_event(run, final(self).activity@.last()),
            final(self).activity@.last().id@ == id@ && final(self).activity@.last().at@ == at@,
            final(self).runs@.len() <= RUNS_KEPT,
            final(self).activity@.len() <= EVENTS_KEPT,
    {
        let event = ActivityEvent {
            id,
            at,
            kind: crate::text::owned("action"),
            title: crate::text::owned(run.action_title.as_str()),
            detail: crate::text::owned(run.summary.as_str()),
            synthetic: run.synthetic,
        };
        let ghost e = event;
        let ghost r = run;
        self.runs.record(run);
        self.activity.record(event);
        proof {
            law_history_keeps_the_newest(old(self).runs@, r, RUNS_KEPT as nat);
            law_history_keeps_the_newest(old(self).activity@, e, EVENTS_KEPT as nat);
        }
    }

    /// Records a run (see [`ControlLog::record_run_at`]), its event stamped
    /// with a fresh id and the current time.
    pub fn record_run(&mut self, run: RunRecord)
        requires
            old(self).wf(),
        ensures
            final(self).wf(),
            final(self).runs@ == keep_newest(old(self).runs@.push(run), RUNS_KEPT as nat),
            final(self).activity@ == keep_newest(old(self).activity@.push(final(self).activity@.last()), EVENTS_KEPT as nat),
            run_event(run, final(self).activity@.last()),
            final(self).runs@.len() <= RUNS_KEPT,
            final(self).activity@.len() <= EVENTS_KEPT,
    {
        let id = new_event_id();
        let at = now_text();
        self.record_run_at(run, id, at);
    }
}

/// Asks to run the action `id` (see [`crate::catalog::execution_spec`])
/// and keeps the log of runs: a refusal leaves the log as it was; a dry
/// run is recorded at once as the newest run, with its `action` event; a
/// step that still has to be carried out is handed back unrecorded, for
/// the caller to record once it has run.
pub fn execute_recorded(
    log: &mut ControlLog,
    synthetic: bool,
    h: &crate::catalog::HostFacts,
    policy: ExecutionPolicy,
    uid: Option<u32>,
    id: &str,
    confirmed: bool,
) -> (r: Result<crate::catalog::ExecutionStep, crate::actions::ActionError>)
    requires
        old(log).wf(),
    ensures
        crate::catalog::execution_spec(synthetic, *h, policy, uid, id@, confirmed, r),
        final(log).wf(),
        !(r matches Ok(crate::catalog::ExecutionStep::DryRun { .. })) ==> final(log).runs@ == old(log).runs@
            && final(log).activity@ == old(log).activity@,
        r matches Ok(crate::catalog::ExecutionStep::DryRun { summary, output }) ==> {
            let newest = final(log).runs@.last();
            &&& final(log).runs@ == keep_newest(old(log).runs@.push(newest), RUNS_KEPT as nat)
            &&& final(log).activity@ == keep_newest(
                old(log).activity@.push(final(log).activity@.last()),
                EVENTS_KEPT as nat,
            )
            &&& run_event(newest, final(log).activity@.last())
            &&& newest.action_id@ == id@
            &&& crate::catalog::catalog_index(id@) matches Some(k) && newest.action_title@
                == crate::catalog::catalog_row(k).title
            &&& newest.status == crate::model::ActionStatus::Succeeded
            &&& newest.synthetic
            &&& newest.summary@ == summary@
            &&& newest.output matches Some(o) && o@ == output@
        },
{
    let r = crate::catalog::plan_execution(synthetic, h, policy, uid, id, confirmed);
    if let Ok(crate::catalog::ExecutionStep::DryRun { summary, output }) = &r {
        let title = crate::catalog::catalog_title(synthetic, h, id);
        let action_title = match title {
            Some(t) => t,
            None => String::new(),
        };
        let record = RunRecord {
            action_id: crate::text::owned(id),
            action_title,
            status: crate::model::ActionStatus::Succeeded,
            synthetic: true,
            summary: crate::text::owned(summary.as_str()),
            output: Some(crate::text::owned(output.as_str())),
        };
        let ghost g = record;
        log.record_run(record);
        proof {
            let all = old(log).runs@.push(g);
            assert(all.len() > 0);
            assert(log.runs@.last() == g);
        }
    }
    r
}

} // verus!
