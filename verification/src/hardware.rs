//! Board hardware: device-tree overlays, the 40-pin header, video
//! devices and thermal policies.
use vstd::prelude::*;
use crate::actions::join3;
use crate::fingerprint::{absorb_rotating, fingerprint_text, rotating_fingerprint};
use crate::model::{push_str, strings_view};
use crate::order::{sorted_set_of, sorted_unique};
use vstd::utf8::encode_utf8;
use crate::text::{alnum, chars_of, contains, contains_str, digit, ends_with, ends_with_str, is_alnum, is_digit, owned, starts_with, starts_with_str, string_of, trim, trim_exec};

verus! {

/// Why a hardware change cannot go ahead.
#[derive(Debug, Clone, PartialEq, Eq)]
pub enum HardwareError {
    Unsupported(String),
    InvalidInput(String),
    Conflict(String),
    ConfirmationRequired,
    PlanRequired,
    StalePlan,
    RootRequired,
    Authorization(String),
    Io(String),
}

/// The message shown for an error.
pub open spec fn hardware_error_message(e: HardwareError) -> Seq<char> {
    match e {
        HardwareError::Unsupported(d) => "hardware tool is unavailable: "@ + d@,
        HardwareError::InvalidInput(d) => "invalid hardware selection: "@ + d@,
        HardwareError::Conflict(d) => "hardware resource conflict: "@ + d@,
        HardwareError::ConfirmationRequired => "confirmation is required before changing hardware configuration"@,
        HardwareError::PlanRequired => "preview the overlay change before applying it"@,
        HardwareError::StalePlan => "the overlay directory changed after preview; create a fresh plan"@,
        HardwareError::RootRequired => "changing hardware configuration requires root privileges"@,
        HardwareError::Authorization(d) => "administrator authorization failed: "@ + d@,
        HardwareError::Io(d) => "unable to manage hardware: "@ + d@,
    }
}

impl HardwareError {
    /// The message shown for this error (see [`hardware_error_message`]).
    pub fn message(&self) -> (r: String)
        ensures
            r@ == hardware_error_message(*self),
    {
        proof {
            reveal_strlit("");
        }
        match self {
            HardwareError::Unsupported(d) => join3("hardware tool is unavailable: ", d.as_str(), ""),
            HardwareError::InvalidInput(d) => join3("invalid hardware selection: ", d.as_str(), ""),
            HardwareError::Conflict(d) => join3("hardware resource conflict: ", d.as_str(), ""),
            HardwareError::ConfirmationRequired => owned(
                "confirmation is required before changing hardware configuration",
            ),
            HardwareError::PlanRequired => owned("preview the overlay change before applying it"),
            HardwareError::StalePlan => owned(
                "the overlay directory changed after preview; create a fresh plan",
            ),
            HardwareError::RootRequired => owned(
                "changing hardware configuration requires root privileges",
            ),
            HardwareError::Authorization(d) => join3(
                "administrator authorization failed: ",
                d.as_str(),
                "",
            ),
            HardwareError::Io(d) => join3("unable to manage hardware: ", d.as_str(), ""),
        }
    }
}

/// A character allowed in an overlay file name.
pub open spec fn overlay_id_char(c: char) -> bool {
    is_alnum(c) || c == '.' || c == '_' || c == '+' || c == '-'
}

/// An overlay id names a file in the managed directory and nothing else:
/// at most 128 characters, all ASCII letters, digits, `.`, `_`, `+` or
/// `-`, no `..`, ending in `.dtbo`.
pub open spec fn valid_overlay_id(id: Seq<char>) -> bool {
    &&& id.len() <= 128
    &&& ends_with(id, ".dtbo"@)
    &&& !contains(id, ".."@)
    &&& forall|i: int| 0 <= i < id.len() ==> overlay_id_char(#[trigger] id[i])
}

fn all_chars(v: &Vec<char>, kind: u8) -> (r: bool)
    requires
        kind < 2,
    ensures
        kind == 0 ==> (r == forall|i: int| 0 <= i < v@.len() ==> overlay_id_char(#[trigger] v@[i])),
        kind == 1 ==> (r == forall|i: int| 0 <= i < v@.len() ==> policy_char(#[trigger] v@[i])),
{
    let mut i: usize = 0;
    while i < v.len()
        invariant
            i <= v.len(),
            kind < 2,
            kind == 0 ==> forall|j: int| 0 <= j < i ==> overlay_id_char(#[trigger] v@[j]),
            kind == 1 ==> forall|j: int| 0 <= j < i ==> policy_char(#[trigger] v@[j]),
        decreases v.len() - i,
    {
        let c = v[i];
        let ok = if kind == 0 {
            alnum(c) || c == '.' || c == '_' || c == '+' || c == '-'
        } else {
            alnum(c) || c == '_' || c == '-'
        };
        if !ok {
            return false;
        }
        i = i + 1;
    }
    true
}

/// A valid overlay id names a file directly inside the
/// managed directory: it holds no path separator and is neither `.` nor
/// `..`.
pub proof fn law_overlay_ids_stay_in_the_directory(id: Seq<char>)
    requires
        valid_overlay_id(id),
    ensures
        forall|i: int| 0 <= i < id.len() ==> id[i] != '/',
        id != "."@,
        id != ".."@,
{
    reveal_strlit(".dtbo");
    reveal_strlit(".");
    reveal_strlit("..");
    assert forall|i: int| 0 <= i < id.len() implies id[i] != '/' by {
        assert(overlay_id_char(id[i]));
    }
}

/// Checks that an overlay id stays inside the managed directory (see
/// [`valid_overlay_id`]).
pub fn validate_overlay_id(id: &str) -> (r: Result<(), HardwareError>)
    ensures
        valid_overlay_id(id@) ==> r is Ok,
        !valid_overlay_id(id@) ==> (r matches Err(HardwareError::InvalidInput(m)) && m@
            == "invalid overlay id "@ + id@),
{
    let v = chars_of(id);
    let ok = v.len() <= 128 && ends_with_str(&v, ".dtbo") && !contains_str(&v, "..") && all_chars(
        &v,
        0,
    );
    if ok {
        Ok(())
    } else {
        proof {
            reveal_strlit("");
        }
        Err(HardwareError::InvalidInput(join3("invalid overlay id ", id, "")))
    }
}

/// A character allowed in a thermal policy name.
pub open spec fn policy_char(c: char) -> bool {
    is_alnum(c) || c == '_' || c == '-'
}

/// A thermal policy name: 1 to 64 ASCII letters, digits, `_` or `-`.
pub open spec fn valid_policy(p: Seq<char>) -> bool {
    0 < p.len() <= 64 && forall|i: int| 0 <= i < p.len() ==> policy_char(#[trigger] p[i])
}

/// Checks a thermal policy name (see [`valid_policy`]).
pub fn validate_policy(policy: &str) -> (r: Result<(), HardwareError>)
    ensures
        valid_policy(policy@) ==> r is Ok,
        !valid_policy(policy@) ==> (r matches Err(HardwareError::InvalidInput(m)) && m@
            == "invalid thermal policy"@),
{
    let v = chars_of(policy);
    if v.len() > 0 && v.len() <= 64 && all_chars(&v, 1) {
        Ok(())
    } else {
        Err(HardwareError::InvalidInput(owned("invalid thermal policy")))
    }
}

/// A Video4Linux device name: `video` followed by one or more digits.
pub open spec fn video_id_spec(id: Seq<char>) -> bool {
    starts_with(id, "video"@) && id.len() > 5 && forall|i: int| 5 <= i < id.len() ==> is_digit(#[trigger] id[i])
}

/// Whether `id` is a Video4Linux device name (see [`video_id_spec`]).
pub fn valid_video_id(id: &str) -> (r: bool)
    ensures
        r == video_id_spec(id@),
{
    proof {
        reveal_strlit("video");
    }
    let v = chars_of(id);
    if !starts_with_str(&v, "video") || v.len() <= 5 {
        return false;
    }
    let mut i: usize = 5;
    while i < v.len()
        invariant
            5 <= i <= v.len(),
            v@ == id@,
            forall|j: int| 5 <= j < i ==> is_digit(#[trigger] v@[j]),
        decreases v.len() - i,
    {
        if !digit(v[i]) {
            assert(!is_digit(id@[i as int]));
            return false;
        }
        i = i + 1;
    }
    true
}

/// A device-tree overlay in the managed directory.
#[derive(Debug, Clone, PartialEq, Eq)]
pub struct OverlayEntry {
    pub id: String,
    pub title: String,
    pub description: Option<String>,
    pub category: Option<String>,
    pub enabled: bool,
    pub exclusive: Vec<String>,
    pub packages: Vec<String>,
}

/// One overlay a plan switches on or off.
#[derive(Debug, Clone, PartialEq, Eq)]
pub struct OverlayChange {
    pub id: String,
    pub before_enabled: bool,
    pub after_enabled: bool,
}

/// The overlays of a board and whether they can be switched.
#[derive(Debug, Clone)]
pub struct OverlayStatus {
    pub synthetic: bool,
    pub supported: bool,
    pub mutable: bool,
    pub bootloader: String,
    pub directory: Option<String>,
    pub revision: String,
    pub overlays: Vec<OverlayEntry>,
    pub unavailable_reason: Option<String>,
}

/// A plan to switch overlays.
#[derive(Debug, Clone)]
pub struct OverlayPlan {
    pub synthetic: bool,
    pub revision: String,
    pub plan_token: String,
    pub selected_ids: Vec<String>,
    pub changes: Vec<OverlayChange>,
    pub warnings: Vec<String>,
    pub requires_root: bool,
    pub reboot_required: bool,
}

/// The bytes the revision of a set of overlays is taken from: each id
/// followed by whether it is enabled.
pub open spec fn overlay_revision_bytes(ovs: Seq<OverlayEntry>) -> Seq<u8>
    decreases ovs.len(),
{
    if ovs.len() == 0 {
        seq![]
    } else {
        let o = ovs.last();
        overlay_revision_bytes(ovs.drop_last()) + encode_utf8(o.id@) + seq![
            if o.enabled {
                1u8
            } else {
                0u8
            },
        ]
    }
}

/// The revision of a set of overlays.
pub open spec fn overlay_revision_spec(ovs: Seq<OverlayEntry>) -> Seq<char> {
    fingerprint_text("overlays-v1"@, absorb_rotating(overlay_revision_bytes(ovs)))
}

fn push_bytes(out: &mut Vec<u8>, s: &str)
    ensures
        final(out)@ == old(out)@ + encode_utf8(s@),
{
    let b = s.as_bytes();
    let ghost start = out@;
    let mut i: usize = 0;
    while i < b.len()
        invariant
            i <= b.len(),
            b@ == encode_utf8(s@),
            out@ == start + b@.take(i as int),
        decreases b.len() - i,
    {
        out.push(b[i]);
        assert(b@.take(i + 1) =~= b@.take(i as int).push(b@[i as int]));
        i = i + 1;
    }
    assert(b@.take(b@.len() as int) =~= b@);
}

/// The revision of a set of overlays (see [`overlay_revision_spec`]).
pub fn overlay_revision(overlays: &Vec<OverlayEntry>) -> (r: String)
    ensures
        r@ == overlay_revision_spec(overlays@),
{
    let mut bytes: Vec<u8> = Vec::new();
    let mut i: usize = 0;
    while i < overlays.len()
        invariant
            i <= overlays.len(),
            bytes@ == overlay_revision_bytes(overlays@.take(i as int)),
        decreases overlays.len() - i,
    {
        let o = &overlays[i];
        push_bytes(&mut bytes, o.id.as_str());
        bytes.push(if o.enabled {
            1u8
        } else {
            0u8
        });
        assert(overlays@.take(i + 1).drop_last() =~= overlays@.take(i as int));
        assert(overlays@.take(i + 1).last() == *o);
        i = i + 1;
    }
    assert(overlays@.take(overlays@.len() as int) =~= overlays@);
    string_of(&rotating_fingerprint("overlays-v1", &bytes))
}

/// A switch of one overlay: its id and whether it ends up enabled.
pub open spec fn change_view(c: OverlayChange) -> (Seq<char>, bool, bool) {
    (c.id@, c.before_enabled, c.after_enabled)
}

/// The bytes a plan token is taken from: the revision, each selected id
/// followed by a zero byte, each change's id followed by whether it ends
/// up enabled.
pub open spec fn overlay_token_bytes(
    revision: Seq<char>,
    sel: Seq<Seq<char>>,
    changes: Seq<(Seq<char>, bool, bool)>,
) -> Seq<u8> {
    encode_utf8(revision) + ids_bytes(sel) + change_bytes(changes)
}

/// Each id followed by a zero byte.
pub open spec fn ids_bytes(sel: Seq<Seq<char>>) -> Seq<u8>
    decreases sel.len(),
{
    if sel.len() == 0 {
        seq![]
    } else {
        ids_bytes(sel.drop_last()) + encode_utf8(sel.last()) + seq![0u8]
    }
}

/// Each change's id followed by whether it ends up enabled.
pub open spec fn change_bytes(changes: Seq<(Seq<char>, bool, bool)>) -> Seq<u8>
    decreases changes.len(),
{
    if changes.len() == 0 {
        seq![]
    } else {
        let c = changes.last();
        change_bytes(changes.drop_last()) + encode_utf8(c.0) + seq![
            if c.2 {
                1u8
            } else {
                0u8
            },
        ]
    }
}

/// The token of an overlay plan.
pub open spec fn overlay_token_spec(
    revision: Seq<char>,
    sel: Seq<Seq<char>>,
    changes: Seq<(Seq<char>, bool, bool)>,
) -> Seq<char> {
    fingerprint_text("overlay-plan-v1"@, absorb_rotating(overlay_token_bytes(revision, sel, changes)))
}

/// The views of a list of changes.
pub open spec fn changes_view(v: Seq<OverlayChange>) -> Seq<(Seq<char>, bool, bool)> {
    v.map_values(|c: OverlayChange| change_view(c))
}

fn overlay_plan_token(revision: &str, selected: &Vec<String>, changes: &Vec<OverlayChange>) -> (r:
    String)
    ensures
        r@ == overlay_token_spec(revision@, strings_view(selected@), changes_view(changes@)),
{
    let mut bytes: Vec<u8> = Vec::new();
    push_bytes(&mut bytes, revision);
    assert(bytes@ =~= encode_utf8(revision@));
    let ghost sv = strings_view(selected@);
    let mut i: usize = 0;
    while i < selected.len()
        invariant
            i <= selected.len(),
            sv == strings_view(selected@),
            bytes@ == encode_utf8(revision@) + ids_bytes(sv.take(i as int)),
        decreases selected.len() - i,
    {
        push_bytes(&mut bytes, selected[i].as_str());
        bytes.push(0u8);
        assert(sv.take(i + 1).drop_last() =~= sv.take(i as int));
        assert(sv.take(i + 1).last() == selected@[i as int]@);
        i = i + 1;
    }
    assert(sv.take(selected@.len() as int) =~= sv);
    let ghost cv = changes_view(changes@);
    let mut k: usize = 0;
    assert(bytes@ =~= encode_utf8(revision@) + ids_bytes(sv) + change_bytes(cv.take(0)));
    while k < changes.len()
        invariant
            k <= changes.len(),
            cv == changes_view(changes@),
            bytes@ == encode_utf8(revision@) + ids_bytes(sv) + change_bytes(cv.take(k as int)),
        decreases changes.len() - k,
    {
        let c = &changes[k];
        push_bytes(&mut bytes, c.id.as_str());
        bytes.push(if c.after_enabled {
            1u8
        } else {
            0u8
        });
        assert(cv.take(k + 1).drop_last() =~= cv.take(k as int));
        assert(cv.take(k + 1).last() == change_view(*c));
        k = k + 1;
    }
    assert(cv.take(changes@.len() as int) =~= cv);
    string_of(&rotating_fingerprint("overlay-plan-v1", &bytes))
}

/// The index of the overlay, among the first `n`, that a lookup by `id`
/// finds: the last one with that id.
pub open spec fn overlay_lookup(ovs: Seq<OverlayEntry>, id: Seq<char>, n: int) -> Option<int>
    decreases n,
{
    if n <= 0 || n > ovs.len() {
        None
    } else if ovs[n - 1].id@ == id {
        Some(n - 1)
    } else {
        overlay_lookup(ovs, id, n - 1)
    }
}

/// The overlay a lookup by `id` finds.
pub open spec fn find_overlay(ovs: Seq<OverlayEntry>, id: Seq<char>) -> Option<int> {
    overlay_lookup(ovs, id, ovs.len() as int)
}

fn find_overlay_exec(ovs: &Vec<OverlayEntry>, id: &Vec<char>) -> (r: Option<usize>)
    ensures
        r matches Some(i) ==> find_overlay(ovs@, id@) == Some(i as int) && i < ovs@.len(),
        r is None ==> find_overlay(ovs@, id@) is None,
{
    let mut n = ovs.len();
    while n > 0
        invariant
            n <= ovs.len(),
            find_overlay(ovs@, id@) == overlay_lookup(ovs@, id@, n as int),
        decreases n,
    {
        let cand = chars_of(ovs[n - 1].id.as_str());
        if crate::text::seq_eq(&cand, id) {
            return Some(n - 1);
        }
        n = n - 1;
    }
    None
}

/// The first selected id, at or after `k`, that is no valid overlay id or
/// names no overlay, with the message that says so.
pub open spec fn bad_selection(ovs: Seq<OverlayEntry>, sel: Seq<Seq<char>>, k: int) -> Option<
    Seq<char>,
>
    decreases sel.len() - k,
{
    if k < 0 || k >= sel.len() {
        None
    } else if !valid_overlay_id(sel[k]) {
        Some("invalid overlay id "@ + sel[k])
    } else if find_overlay(ovs, sel[k]) is None {
        Some("unknown overlay "@ + sel[k])
    } else {
        bad_selection(ovs, sel, k + 1)
    }
}

/// Why the overlays of a selection cannot be enabled together.
pub enum PlanIssue {
    /// Two overlays need the same resource.
    Conflict(Seq<char>),
    /// An overlay needs a package that is not installed.
    MissingPackage(Seq<char>),
}

/// The overlay title that claimed resource `r` first.
pub open spec fn owner_of(cl: Seq<(Seq<char>, Seq<char>)>, r: Seq<char>, from: int) -> Option<
    Seq<char>,
>
    decreases cl.len() - from,
{
    if from < 0 || from >= cl.len() {
        None
    } else if cl[from].0 == r {
        Some(cl[from].1)
    } else {
        owner_of(cl, r, from + 1)
    }
}

/// The claims after an overlay titled `title` claims the first `n` of its
/// exclusive resources, or the first conflict.
pub open spec fn claim_resources(
    res: Seq<Seq<char>>,
    n: int,
    title: Seq<char>,
    cl: Seq<(Seq<char>, Seq<char>)>,
) -> Result<Seq<(Seq<char>, Seq<char>)>, PlanIssue>
    decreases n,
{
    if n <= 0 {
        Ok(cl)
    } else {
        match claim_resources(res, n - 1, title, cl) {
            Err(e) => Err(e),
            Ok(c2) => match owner_of(c2, res[n - 1], 0) {
                Some(o) => Err(
                    PlanIssue::Conflict(o + " and "@ + title + " both require "@ + res[n - 1]),
                ),
                None => Ok(c2.push((res[n - 1], title))),
            },
        }
    }
}

/// The first package, at or after `from`, that is not installed.
pub open spec fn first_missing(pkgs: Seq<Seq<char>>, installed: Seq<Seq<char>>, from: int) -> Option<
    Seq<char>,
>
    decreases pkgs.len() - from,
{
    if from < 0 || from >= pkgs.len() {
        None
    } else if !installed.contains(pkgs[from]) {
        Some(pkgs[from])
    } else {
        first_missing(pkgs, installed, from + 1)
    }
}

/// The claims after overlay `o` claims its resources and has its packages
/// checked (not on the demonstration host), or the first problem.
pub open spec fn claim_overlay(
    o: OverlayEntry,
    cl: Seq<(Seq<char>, Seq<char>)>,
    synthetic: bool,
    installed: Seq<Seq<char>>,
) -> Result<Seq<(Seq<char>, Seq<char>)>, PlanIssue> {
    let res = strings_view(o.exclusive@);
    match claim_resources(res, res.len() as int, o.title@, cl) {
        Err(e) => Err(e),
        Ok(c2) => if synthetic {
            Ok(c2)
        } else {
            match first_missing(strings_view(o.packages@), installed, 0) {
                Some(p) => Err(PlanIssue::MissingPackage(o.title@ + " requires package "@ + p)),
                None => Ok(c2),
            }
        },
    }
}

/// The claims of the first `k` selected overlays, in order, or the first
/// problem.
pub open spec fn claims_upto(
    ovs: Seq<OverlayEntry>,
    sel: Seq<Seq<char>>,
    k: int,
    synthetic: bool,
    installed: Seq<Seq<char>>,
) -> Result<Seq<(Seq<char>, Seq<char>)>, PlanIssue>
    decreases k,
{
    if k <= 0 {
        Ok(seq![])
    } else {
        match claims_upto(ovs, sel, k - 1, synthetic, installed) {
            Err(e) => Err(e),
            Ok(cl) => match find_overlay(ovs, sel[k - 1]) {
                Some(i) => claim_overlay(ovs[i], cl, synthetic, installed),
                None => Ok(cl),
            },
        }
    }
}

/// The switches a selection makes among the first `n` overlays, in their
/// order: each overlay whose state differs from whether it is selected.
pub open spec fn changes_of(ovs: Seq<OverlayEntry>, sel: Seq<Seq<char>>, n: int) -> Seq<
    (Seq<char>, bool, bool),
>
    decreases n,
{
    if n <= 0 {
        seq![]
    } else {
        let o = ovs[n - 1];
        changes_of(ovs, sel, n - 1) + if o.enabled != sel.contains(o.id@) {
            seq![(o.id@, o.enabled, !o.enabled)]
        } else {
            seq![]
        }
    }
}

/// The views of a list of claims.
pub open spec fn claims_view(v: Seq<(String, String)>) -> Seq<(Seq<char>, Seq<char>)> {
    v.map_values(|c: (String, String)| (c.0@, c.1@))
}

fn owner_of_exec(cl: &Vec<(String, String)>, r: &Vec<char>) -> (o: Option<String>)
    ensures
        o matches Some(t) ==> owner_of(claims_view(cl@), r@, 0) == Some(t@),
        o is None ==> owner_of(claims_view(cl@), r@, 0) is None,
{
    let ghost cv = claims_view(cl@);
    let mut i: usize = 0;
    while i < cl.len()
        invariant
            i <= cl.len(),
            cv == claims_view(cl@),
            owner_of(cv, r@, 0) == owner_of(cv, r@, i as int),
        decreases cl.len() - i,
    {
        let k = chars_of(cl[i].0.as_str());
        assert(cv[i as int] == (cl@[i as int].0@, cl@[i as int].1@));
        if crate::text::seq_eq(&k, r) {
            return Some(cl[i].1.clone());
        }
        i = i + 1;
    }
    None
}

pub(crate) fn contains_string(v: &Vec<String>, x: &Vec<char>) -> (r: bool)
    ensures
        r == strings_view(v@).contains(x@),
{
    let ghost sv = strings_view(v@);
    let mut i: usize = 0;
    while i < v.len()
        invariant
            i <= v.len(),
            sv == strings_view(v@),
            forall|j: int| 0 <= j < i ==> sv[j] != x@,
        decreases v.len() - i,
    {
        let c = chars_of(v[i].as_str());
        if crate::text::seq_eq(&c, x) {
            assert(sv[i as int] == x@);
            return true;
        }
        i = i + 1;
    }
    false
}

fn claim_overlay_exec(
    o: &OverlayEntry,
    cl: &mut Vec<(String, String)>,
    synthetic: bool,
    installed: &Vec<String>,
) -> (r: Option<HardwareError>)
    ensures
        match claim_overlay(*o, claims_view(old(cl)@), synthetic, strings_view(installed@)) {
            Ok(c) => r is None && claims_view(final(cl)@) == c,
            Err(PlanIssue::Conflict(m)) => r matches Some(HardwareError::Conflict(x)) && x@ == m,
            Err(PlanIssue::MissingPackage(m)) => r matches Some(HardwareError::Unsupported(x))
                && x@ == m,
        },
{
    let ghost start = claims_view(cl@);
    let ghost res = strings_view(o.exclusive@);
    let mut n: usize = 0;
    while n < o.exclusive.len()
        invariant
            n <= o.exclusive.len(),
            res == strings_view(o.exclusive@),
            start == claims_view(old(cl)@),
            claim_resources(res, n as int, o.title@, start) == Ok::<
                Seq<(Seq<char>, Seq<char>)>,
                PlanIssue,
            >(claims_view(cl@)),
        decreases o.exclusive.len() - n,
    {
        let rv = chars_of(o.exclusive[n].as_str());
        assert(res[n as int] == rv@);
        match owner_of_exec(cl, &rv) {
            Some(owner) => {
                let mut m = chars_of(owner.as_str());
                crate::text::extend_str(&mut m, " and ");
                crate::text::extend_str(&mut m, o.title.as_str());
                crate::text::extend_str(&mut m, " both require ");
                crate::text::extend(&mut m, &rv);
                proof {
                    lemma_claims_fail(res, n as int, o.exclusive@.len() as int, o.title@, start);
                }
                return Some(HardwareError::Conflict(string_of(&m)));
            },
            None => {
                let ghost before = claims_view(cl@);
                cl.push((o.exclusive[n].clone(), o.title.clone()));
                assert(claims_view(cl@) =~= before.push((rv@, o.title@)));
            },
        }
        n = n + 1;
    }
    if synthetic {
        return None;
    }
    let ghost pkgs = strings_view(o.packages@);
    let mut q: usize = 0;
    while q < o.packages.len()
        invariant
            q <= o.packages.len(),
            pkgs == strings_view(o.packages@),
            !synthetic,
            start == claims_view(old(cl)@),
            res == strings_view(o.exclusive@),
            claim_resources(res, res.len() as int, o.title@, start) == Ok::<
                Seq<(Seq<char>, Seq<char>)>,
                PlanIssue,
            >(claims_view(cl@)),
            first_missing(pkgs, strings_view(installed@), 0) == first_missing(
                pkgs,
                strings_view(installed@),
                q as int,
            ),
        decreases o.packages.len() - q,
    {
        let pv = chars_of(o.packages[q].as_str());
        assert(pkgs[q as int] == pv@);
        if !contains_string(installed, &pv) {
            let mut m = chars_of(o.title.as_str());
            crate::text::extend_str(&mut m, " requires package ");
            crate::text::extend(&mut m, &pv);
            return Some(HardwareError::Unsupported(string_of(&m)));
        }
        q = q + 1;
    }
    None
}

/// A conflict while claiming resource `n` fails the whole claim.
proof fn lemma_claims_fail(
    res: Seq<Seq<char>>,
    n: int,
    total: int,
    title: Seq<char>,
    cl: Seq<(Seq<char>, Seq<char>)>,
)
    requires
        0 <= n < total,
        claim_resources(res, n, title, cl) is Ok,
        claim_resources(res, n + 1, title, cl) is Err,
    ensures
        claim_resources(res, total, title, cl) == claim_resources(res, n + 1, title, cl),
    decreases total - n,
{
    if total > n + 1 {
        lemma_claims_fail(res, n, total - 1, title, cl);
    }
}

/// The reason a status gives, or `default` when it gives none.
pub open spec fn reason_or(reason: Option<String>, default: Seq<char>) -> Seq<char> {
    match reason {
        Some(r) => r@,
        None => default,
    }
}

/// `r` is what planning the selection `sel` (as given, in its order) on a
/// board with overlay status `status` gives: unsupported or read-only
/// boards are refused; then the first selected id that is invalid or
/// unknown; then the first resource two selected overlays both need, or
/// the first package a selected overlay needs that is missing (not
/// checked on the demonstration host); else the plan, whose changes are
/// the overlays whose state differs from the selection.
pub open spec fn overlay_plan_result(
    r: Result<OverlayPlan, HardwareError>,
    status: OverlayStatus,
    sel: Seq<Seq<char>>,
    synthetic: bool,
    installed: Seq<Seq<char>>,
) -> bool {
    let ovs = status.overlays@;
    if !status.supported {
        r matches Err(HardwareError::Unsupported(m)) && m@ == reason_or(
            status.unavailable_reason,
            "overlay switching is not supported"@,
        )
    } else if !synthetic && !status.mutable {
        r matches Err(HardwareError::Unsupported(m)) && m@ == reason_or(
            status.unavailable_reason,
            "overlay switching is read-only"@,
        )
    } else {
        match bad_selection(ovs, sel, 0) {
            Some(m) => r matches Err(HardwareError::InvalidInput(x)) && x@ == m,
            None => match claims_upto(ovs, sel, sel.len() as int, synthetic, installed) {
                Err(PlanIssue::Conflict(m)) => r matches Err(HardwareError::Conflict(x)) && x@ == m,
                Err(PlanIssue::MissingPackage(m)) => r matches Err(HardwareError::Unsupported(x))
                    && x@ == m,
                Ok(_) => r matches Ok(plan) && {
                    let ch = changes_of(ovs, sel, ovs.len() as int);
                    &&& plan.synthetic == synthetic
                    &&& plan.revision@ == status.revision@
                    &&& strings_view(plan.selected_ids@) == sel
                    &&& changes_view(plan.changes@) == ch
                    &&& plan.plan_token@ == overlay_token_spec(status.revision@, sel, ch)
                    &&& strings_view(plan.warnings@) == seq![
                        "applies_after_reboot"@,
                        "kernel_update_reset"@,
                    ]
                    &&& plan.requires_root
                    &&& plan.reboot_required == (ch.len() > 0)
                },
            },
        }
    }
}

fn reason_or_exec(reason: &Option<String>, default: &str) -> (r: String)
    ensures
        r@ == reason_or(*reason, default@),
{
    match reason {
        Some(x) => x.clone(),
        None => owned(default),
    }
}

fn clone_strings_of(v: &Vec<String>) -> (r: Vec<String>)
    ensures
        r@ == v@,
{
    crate::model::clone_strings(v)
}

/// Plans the selection `selected` as given (see [`overlay_plan_result`]).
pub fn plan_overlays_for(
    status: &OverlayStatus,
    selected: &Vec<String>,
    synthetic: bool,
    installed: &Vec<String>,
) -> (r: Result<OverlayPlan, HardwareError>)
    ensures
        overlay_plan_result(r, *status, strings_view(selected@), synthetic, strings_view(installed@)),
{
    if !status.supported {
        return Err(
            HardwareError::Unsupported(
                reason_or_exec(&status.unavailable_reason, "overlay switching is not supported"),
            ),
        );
    }
    if !synthetic && !status.mutable {
        return Err(
            HardwareError::Unsupported(
                reason_or_exec(&status.unavailable_reason, "overlay switching is read-only"),
            ),
        );
    }
    let ghost ovs = status.overlays@;
    let ghost sel = strings_view(selected@);
    let mut k: usize = 0;
    while k < selected.len()
        invariant
            k <= selected.len(),
            ovs == status.overlays@,
            sel == strings_view(selected@),
            status.supported,
            synthetic || status.mutable,
            bad_selection(ovs, sel, 0) == bad_selection(ovs, sel, k as int),
        decreases selected.len() - k,
    {
        let id = selected[k].as_str();
        assert(sel[k as int] == id@);
        match validate_overlay_id(id) {
            Ok(()) => {},
            Err(e) => {
                return Err(e);
            },
        }
        let iv = chars_of(id);
        if find_overlay_exec(&status.overlays, &iv).is_none() {
            proof {
                reveal_strlit("");
            }
            return Err(HardwareError::InvalidInput(join3("unknown overlay ", id, "")));
        }
        k = k + 1;
    }
    let mut claims: Vec<(String, String)> = Vec::new();
    assert(claims_view(claims@) =~= Seq::<(Seq<char>, Seq<char>)>::empty());
    let mut j: usize = 0;
    while j < selected.len()
        invariant
            j <= selected.len(),
            ovs == status.overlays@,
            sel == strings_view(selected@),
            status.supported,
            synthetic || status.mutable,
            bad_selection(ovs, sel, 0) is None,
            claims_upto(ovs, sel, j as int, synthetic, strings_view(installed@)) == Ok::<
                Seq<(Seq<char>, Seq<char>)>,
                PlanIssue,
            >(claims_view(claims@)),
        decreases selected.len() - j,
    {
        let iv = chars_of(selected[j].as_str());
        assert(sel[j as int] == iv@);
        match find_overlay_exec(&status.overlays, &iv) {
            Some(i) => {
                match claim_overlay_exec(&status.overlays[i], &mut claims, synthetic, installed) {
                    Some(e) => {
                        proof {
                            lemma_claims_stop(ovs, sel, j as int, selected@.len() as int, synthetic, strings_view(installed@));
                        }
                        return Err(e);
                    },
                    None => {},
                }
            },
            None => {},
        }
        j = j + 1;
    }
    let mut changes: Vec<OverlayChange> = Vec::new();
    let mut n: usize = 0;
    while n < status.overlays.len()
        invariant
            n <= status.overlays.len(),
            ovs == status.overlays@,
            sel == strings_view(selected@),
            changes_view(changes@) == changes_of(ovs, sel, n as int),
        decreases status.overlays.len() - n,
    {
        let o = &status.overlays[n];
        let iv = chars_of(o.id.as_str());
        let after = contains_string(selected, &iv);
        if o.enabled != after {
            let ghost before = changes_view(changes@);
            changes.push(OverlayChange { id: o.id.clone(), before_enabled: o.enabled, after_enabled: after });
            assert(changes_view(changes@) =~= before.push((o.id@, o.enabled, !o.enabled)));
        } else {
            assert(changes_view(changes@) =~= changes_of(ovs, sel, n + 1));
        }
        n = n + 1;
    }
    let plan_token = overlay_plan_token(status.revision.as_str(), selected, &changes);
    let mut warnings: Vec<String> = Vec::new();
    push_str(&mut warnings, "applies_after_reboot");
    push_str(&mut warnings, "kernel_update_reset");
    assert(strings_view(warnings@) =~= seq!["applies_after_reboot"@, "kernel_update_reset"@]);
    let reboot = changes.len() > 0;
    Ok(OverlayPlan {
        synthetic,
        revision: status.revision.clone(),
        plan_token,
        selected_ids: clone_strings_of(selected),
        changes,
        warnings,
        requires_root: true,
        reboot_required: reboot,
    })
}

/// Once the claims of the first `j + 1` selected overlays fail, the claims
/// of all of them fail the same way.
proof fn lemma_claims_stop(
    ovs: Seq<OverlayEntry>,
    sel: Seq<Seq<char>>,
    j: int,
    total: int,
    synthetic: bool,
    installed: Seq<Seq<char>>,
)
    requires
        0 <= j < total,
        claims_upto(ovs, sel, j + 1, synthetic, installed) is Err,
    ensures
        claims_upto(ovs, sel, total, synthetic, installed) == claims_upto(
            ovs,
            sel,
            j + 1,
            synthetic,
            installed,
        ),
    decreases total - j,
{
    if total > j + 1 {
        lemma_claims_stop(ovs, sel, j, total - 1, synthetic, installed);
    }
}

/// Plans a selection of overlays: the selection is taken sorted and
/// without repeats (see [`overlay_plan_result`]).
pub fn plan_overlays(
    status: &OverlayStatus,
    selected_ids: &Vec<String>,
    synthetic: bool,
    installed: &Vec<String>,
) -> (r: Result<OverlayPlan, HardwareError>)
    ensures
        exists|sel: Seq<Seq<char>>|
            sorted_set_of(sel, strings_view(selected_ids@)) && overlay_plan_result(
                r,
                *status,
                sel,
                synthetic,
                strings_view(installed@),
            ),
{
    let selected = sorted_unique(selected_ids);
    plan_overlays_for(status, &selected, synthetic, installed)
}

/// Checks the token supplied with an apply against the overlay plan: a
/// blank token means no plan was previewed; another token means the
/// overlays changed since.
pub fn verify_overlay_plan(plan: &OverlayPlan, supplied: &str) -> (r: Result<(), HardwareError>)
    ensures
        trim(supplied@).len() == 0 ==> r == Err::<(), HardwareError>(HardwareError::PlanRequired),
        trim(supplied@).len() > 0 && supplied@ != plan.plan_token@ ==> r == Err::<
            (),
            HardwareError,
        >(HardwareError::StalePlan),
        trim(supplied@).len() > 0 && supplied@ == plan.plan_token@ ==> r is Ok,
{
    let s = chars_of(supplied);
    let t = trim_exec(&s);
    if t.len() == 0 {
        return Err(HardwareError::PlanRequired);
    }
    let own = chars_of(plan.plan_token.as_str());
    if !crate::text::seq_eq(&s, &own) {
        return Err(HardwareError::StalePlan);
    }
    Ok(())
}

/// The overlays of the demonstration board: id, title, description,
/// category, whether enabled, and the one resource each needs.
pub open spec fn demo_overlay_row(i: int) -> (Seq<char>, Seq<char>, Seq<char>, Seq<char>, bool, Seq<char>) {
    if i == 0 {
        ("rk3588-uart2-m0.dtbo"@, "UART2 M0"@, "Route UART2 to the 40-pin header."@, "Serial"@, true, "uart2"@)
    } else if i == 1 {
        ("rk3588-i2c3-m0.dtbo"@, "I²C3 M0"@, "Enable the I²C3 bus on header pins."@, "Bus"@, true, "i2c3"@)
    } else if i == 2 {
        ("rk3588-spi0-m2-cs0-spidev.dtbo"@, "SPI0 M2"@, "Expose SPI0 chip select 0 through spidev."@, "Bus"@, false, "spi0"@)
    } else if i == 3 {
        ("rk3588-can1-m0.dtbo"@, "CAN1 M0"@, "Enable CAN1 on the expansion header."@, "Field bus"@, false, "can1"@)
    } else if i == 4 {
        ("rk3588-pwm12-m0.dtbo"@, "PWM12 M0"@, "Expose PWM12 for fan or actuator control."@, "PWM"@, false, "pwm12"@)
    } else {
        ("rk3588-disable-led.dtbo"@, "Disable status LED"@, "Turn off the board status LED after boot."@, "Board"@, false, "status-led"@)
    }
}

/// `o` is overlay `i` of the demonstration board.
pub open spec fn is_demo_overlay(o: OverlayEntry, i: int) -> bool {
    let row = demo_overlay_row(i);
    &&& o.id@ == row.0
    &&& o.title@ == row.1
    &&& o.description matches Some(d) && d@ == row.2
    &&& o.category matches Some(c) && c@ == row.3
    &&& o.enabled == row.4
    &&& strings_view(o.exclusive@) == seq![row.5]
    &&& o.packages@.len() == 0
}

fn demo_overlay(
    id: &str,
    title: &str,
    description: &str,
    category: &str,
    enabled: bool,
    resource: &str,
) -> (r: OverlayEntry)
    ensures
        r.id@ == id@,
        r.title@ == title@,
        r.description matches Some(d) && d@ == description@,
        r.category matches Some(c) && c@ == category@,
        r.enabled == enabled,
        strings_view(r.exclusive@) == seq![resource@],
        r.packages@.len() == 0,
{
    let mut exclusive: Vec<String> = Vec::new();
    push_str(&mut exclusive, resource);
    assert(strings_view(exclusive@) =~= seq![resource@]);
    OverlayEntry {
        id: owned(id),
        title: owned(title),
        description: Some(owned(description)),
        category: Some(owned(category)),
        enabled,
        exclusive,
        packages: Vec::new(),
    }
}

/// The overlay status of the demonstration board: six overlays (see
/// [`is_demo_overlay`]), two of them enabled, switchable through U-Boot in
/// `/boot/dtbo`.
pub open spec fn is_demo_overlay_status(r: OverlayStatus) -> bool {
    &&& r.synthetic
    &&& r.supported
    &&& r.mutable
    &&& r.bootloader@ == "u-boot"@
    &&& r.directory matches Some(d) && d@ == "/boot/dtbo"@
    &&& r.unavailable_reason is None
    &&& r.overlays@.len() == 6
    &&& forall|i: int| 0 <= i < 6 ==> is_demo_overlay(#[trigger] r.overlays@[i], i)
    &&& r.revision@ == overlay_revision_spec(r.overlays@)
}

/// The overlay status of the demonstration board (see
/// [`is_demo_overlay_status`]).
pub fn demo_overlay_status() -> (r: OverlayStatus)
    ensures
        is_demo_overlay_status(r),
{
    let mut overlays: Vec<OverlayEntry> = Vec::new();
    overlays.push(demo_overlay("rk3588-uart2-m0.dtbo", "UART2 M0", "Route UART2 to the 40-pin header.", "Serial", true, "uart2"));
    overlays.push(demo_overlay("rk3588-i2c3-m0.dtbo", "I²C3 M0", "Enable the I²C3 bus on header pins.", "Bus", true, "i2c3"));
    overlays.push(demo_overlay("rk3588-spi0-m2-cs0-spidev.dtbo", "SPI0 M2", "Expose SPI0 chip select 0 through spidev.", "Bus", false, "spi0"));
    overlays.push(demo_overlay("rk3588-can1-m0.dtbo", "CAN1 M0", "Enable CAN1 on the expansion header.", "Field bus", false, "can1"));
    overlays.push(demo_overlay("rk3588-pwm12-m0.dtbo", "PWM12 M0", "Expose PWM12 for fan or actuator control.", "PWM", false, "pwm12"));
    overlays.push(demo_overlay("rk3588-disable-led.dtbo", "Disable status LED", "Turn off the board status LED after boot.", "Board", false, "status-led"));
    let revision = overlay_revision(&overlays);
    OverlayStatus {
        synthetic: true,
        supported: true,
        mutable: true,
        bootloader: owned("u-boot"),
        directory: Some(owned("/boot/dtbo")),
        revision,
        overlays,
        unavailable_reason: None,
    }
}

/// The hardware of a board as read, with the packages installed on it.
pub struct HardwareManager {
    pub synthetic: bool,
    pub overlays: OverlayStatus,
    pub installed_packages: Vec<String>,
}

/// The overlay status of a board without a managed overlay directory.
pub fn no_overlay_directory() -> (r: OverlayStatus)
    ensures
        !r.synthetic,
        !r.supported,
        !r.mutable,
        r.bootloader@ == "unknown"@,
        r.directory is None,
        r.overlays@.len() == 0,
        r.revision@ == overlay_revision_spec(seq![]),
        r.unavailable_reason matches Some(m) && m@ == "No managed overlay directory was detected."@,
{
    let overlays: Vec<OverlayEntry> = Vec::new();
    let revision = overlay_revision(&overlays);
    assert(overlays@ =~= Seq::<OverlayEntry>::empty());
    OverlayStatus {
        synthetic: false,
        supported: false,
        mutable: false,
        bootloader: owned("unknown"),
        directory: None,
        revision,
        overlays,
        unavailable_reason: Some(owned("No managed overlay directory was detected.")),
    }
}

impl HardwareManager {
    /// The demonstration board (`synthetic`), or a live board of which
    /// nothing has been read, so without a managed overlay directory.
    pub fn new(synthetic: bool) -> (r: Self)
        ensures
            r.synthetic == synthetic,
            synthetic ==> is_demo_overlay_status(r.overlays),
            !synthetic ==> !r.overlays.supported,
            r.installed_packages@.len() == 0,
    {
        if synthetic {
            HardwareManager { synthetic: true, overlays: demo_overlay_status(), installed_packages: Vec::new() }
        } else {
            HardwareManager { synthetic: false, overlays: no_overlay_directory(), installed_packages: Vec::new() }
        }
    }

    /// A live board: its overlay status and its installed packages, as
    /// read.
    pub fn live(overlays: OverlayStatus, installed_packages: Vec<String>) -> (r: Self)
        ensures
            !r.synthetic,
            r.overlays == overlays,
            r.installed_packages == installed_packages,
    {
        HardwareManager { synthetic: false, overlays, installed_packages }
    }

    /// The overlays of the board.
    pub fn overlay_status(&self) -> (r: &OverlayStatus)
        ensures
            *r == self.overlays,
    {
        &self.overlays
    }

    /// Plans a selection of overlays on this board (see [`plan_overlays`]).
    pub fn plan_overlays(&self, selected_ids: &Vec<String>) -> (r: Result<OverlayPlan, HardwareError>)
        ensures
            exists|sel: Seq<Seq<char>>|
                sorted_set_of(sel, strings_view(selected_ids@)) && overlay_plan_result(
                    r,
                    self.overlays,
                    sel,
                    self.synthetic,
                    strings_view(self.installed_packages@),
                ),
    {
        plan_overlays(&self.overlays, selected_ids, self.synthetic, &self.installed_packages)
    }
}

} // verus!
