//! Pin-out profiles of boards and what the kernel reports about the pins:
//! which profile fits a board, and which function a pin serves.
use vstd::prelude::*;
use crate::model::strings_view;
use crate::order::{sorted_set_of, sorted_unique};
use crate::text::{join_exec, join_spec,
    alnum, alpha, chars_of, digit, ends_with, ends_with_str, eq_str, is_alnum, is_alpha, is_digit,
    lower, lower_all, lower_seq, lower_spec, occurs_at, owned, seq_eq, slice, starts_with,
    starts_with_str, string_of, trim_end, trim_end_exec, upper_all, upper_seq,
};

verus! {

/// The ASCII letters and digits of `v`, in lower case.
pub open spec fn normalize_spec(v: Seq<char>) -> Seq<char>
    decreases v.len(),
{
    if v.len() == 0 {
        seq![]
    } else {
        normalize_spec(v.drop_last()) + if is_alnum(v.last()) {
            seq![lower_spec(v.last())]
        } else {
            seq![]
        }
    }
}

fn normalize_chars(v: &Vec<char>) -> (r: Vec<char>)
    ensures
        r@ == normalize_spec(v@),
{
    let mut r: Vec<char> = Vec::new();
    let mut i: usize = 0;
    while i < v.len()
        invariant
            i <= v.len(),
            r@ == normalize_spec(v@.take(i as int)),
        decreases v.len() - i,
    {
        assert(v@.take(i + 1).drop_last() =~= v@.take(i as int));
        if alnum(v[i]) {
            r.push(lower(v[i]));
        }
        i = i + 1;
    }
    assert(v@.take(v@.len() as int) =~= v@);
    r
}

/// The ASCII letters and digits of `value`, in lower case.
pub fn normalize(value: &str) -> (r: String)
    ensures
        r@ == normalize_spec(value@),
{
    let v = chars_of(value);
    string_of(&normalize_chars(&v))
}

/// The length of the run of ASCII digits that begins `s`.
pub open spec fn digit_run(s: Seq<char>) -> nat
    decreases s.len(),
{
    if s.len() > 0 && is_digit(s[0]) {
        1 + digit_run(s.drop_first())
    } else {
        0
    }
}

/// The length of the run of ASCII letters and digits that begins `s`.
pub open spec fn alnum_run(s: Seq<char>) -> nat
    decreases s.len(),
{
    if s.len() > 0 && is_alnum(s[0]) {
        1 + alnum_run(s.drop_first())
    } else {
        0
    }
}

proof fn lemma_run_bound(s: Seq<char>)
    ensures
        digit_run(s) <= s.len(),
        alnum_run(s) <= s.len(),
        forall|i: int| 0 <= i < digit_run(s) ==> is_digit(#[trigger] s[i]),
        digit_run(s) < s.len() ==> !is_digit(s[digit_run(s) as int]),
        forall|i: int| 0 <= i < alnum_run(s) ==> is_alnum(#[trigger] s[i]),
        alnum_run(s) < s.len() ==> !is_alnum(s[alnum_run(s) as int]),
    decreases s.len(),
{
    if s.len() > 0 {
        lemma_run_bound(s.drop_first());
        assert forall|i: int| 0 < i < s.len() implies s[i] == s.drop_first()[i - 1] by {}
    }
}

fn in_run(c: char, digits: bool) -> (r: bool)
    ensures
        r == if digits {
            is_digit(c)
        } else {
            is_alnum(c)
        },
{
    if digits {
        digit(c)
    } else {
        alnum(c)
    }
}

/// Where the run of characters of one class that begins at `at` ends.
fn run_end(s: &Vec<char>, at: usize, digits: bool) -> (end: usize)
    requires
        at <= s.len(),
    ensures
        digits ==> end == at + digit_run(s@.skip(at as int)),
        !digits ==> end == at + alnum_run(s@.skip(at as int)),
        at <= end <= s.len(),
{
    let ghost t = s@.skip(at as int);
    let mut end = at;
    while end < s.len() && in_run(s[end], digits)
        invariant
            at <= end <= s.len(),
            t == s@.skip(at as int),
            digits ==> digit_run(t) == (end - at) + digit_run(s@.skip(end as int)),
            !digits ==> alnum_run(t) == (end - at) + alnum_run(s@.skip(end as int)),
        decreases s.len() - end,
    {
        assert(s@.skip(end as int)[0] == s@[end as int]);
        assert(s@.skip(end as int).drop_first() =~= s@.skip(end + 1));
        end = end + 1;
    }
    if end < s.len() {
        assert(s@.skip(end as int)[0] == s@[end as int]);
    } else {
        assert(s@.skip(end as int).len() == 0);
    }
    end
}

/// The mux mode a pin-control text names after a controller number: `M`
/// and digits right there, or else the first word of the form `M` and
/// digits, words being the runs of ASCII letters and digits.
pub open spec fn parse_mode_spec(suffix: Seq<char>) -> Option<Seq<char>> {
    let n = if suffix.len() > 0 && suffix[0] == 'M' {
        digit_run(suffix.skip(1))
    } else {
        0
    };
    if n > 0 {
        Some(suffix.subrange(1, 1 + n as int))
    } else {
        mode_word_from(suffix, 0)
    }
}

/// The first word at or after `at` of the form `M` and digits, without
/// its `M`.
pub open spec fn mode_word_from(s: Seq<char>, at: int) -> Option<Seq<char>>
    decreases s.len() - at,
{
    if at < 0 || at >= s.len() {
        None
    } else if !is_alnum(s[at]) {
        mode_word_from(s, at + 1)
    } else {
        let n = alnum_run(s.skip(at));
        if n == 0 || at + n > s.len() {
            None
        } else if s[at] == 'M' && n > 1 && digit_run(s.skip(at + 1)) == n - 1 {
            Some(s.subrange(at + 1, at + n))
        } else {
            mode_word_from(s, at + n)
        }
    }
}

/// The mux mode of a pin-control text (see [`parse_mode_spec`]).
pub fn parse_mode(suffix: &Vec<char>) -> (r: Option<Vec<char>>)
    ensures
        r matches Some(m) ==> parse_mode_spec(suffix@) == Some(m@),
        r is None ==> parse_mode_spec(suffix@) is None,
{
    if suffix.len() > 0 && suffix[0] == 'M' {
        let end = run_end(suffix, 1, true);
        if end > 1 {
            return Some(slice(suffix, 1, end));
        }
    }
    let mut at: usize = 0;
    while at < suffix.len()
        invariant
            at <= suffix.len(),
            parse_mode_spec(suffix@) == mode_word_from(suffix@, at as int),
        decreases suffix.len() - at,
    {
        if !alnum(suffix[at]) {
            at = at + 1;
        } else {
            let end = run_end(suffix, at, false);
            proof {
                lemma_run_bound(suffix@.skip(at as int));
            }
            assert(suffix@.skip(at as int)[0] == suffix@[at as int]);
            if suffix[at] == 'M' && end > at + 1 {
                let dend = run_end(suffix, at + 1, true);
                proof {
                    lemma_run_bound(suffix@.skip(at + 1));
                    lemma_digit_within_word(suffix@, at as int, end as int);
                }
                if dend == end {
                    return Some(slice(suffix, at + 1, end));
                }
            }
            at = end;
        }
    }
    None
}

/// The digits after an `M` that begins a word never run past the word.
proof fn lemma_digit_within_word(s: Seq<char>, at: int, end: int)
    requires
        0 <= at < end <= s.len(),
        end == at + alnum_run(s.skip(at)),
    ensures
        digit_run(s.skip(at + 1)) <= end - at - 1,
{
    lemma_run_bound(s.skip(at));
    lemma_run_bound(s.skip(at + 1));
    if digit_run(s.skip(at + 1)) > end - at - 1 {
        let k = end - at - 1;
        assert(is_digit(s.skip(at + 1)[k]));
        assert(s.skip(at + 1)[k] == s[end]);
        if end < s.len() {
            assert(s.skip(at)[alnum_run(s.skip(at)) as int] == s[end]);
        }
    }
}

/// A resource that names a pad: `gpio` and a digit, or `p`, a letter and
/// a digit.
pub open spec fn is_pad_spec(r: Seq<char>) -> bool {
    ||| (starts_with(r, "gpio"@) && r.len() > 4 && is_digit(r[4]))
    ||| (r.len() > 2 && r[0] == 'p' && is_alpha(r[1]) && is_digit(r[2]))
}

/// Whether a (normalised) resource names a pad (see [`is_pad_spec`]).
pub fn is_pad_resource(r: &Vec<char>) -> (b: bool)
    ensures
        b == is_pad_spec(r@),
{
    (starts_with_str(r, "gpio") && r.len() > 4 && digit(r[4])) || (r.len() > 2 && r[0] == 'p'
        && alpha(r[1]) && digit(r[2]))
}

/// The peripheral families a pin-control text can name, in the order
/// they are looked for.
pub open spec fn family_name(f: int) -> Seq<char> {
    if f == 0 {
        "UART"@
    } else if f == 1 {
        "I2C"@
    } else if f == 2 {
        "TWI"@
    } else if f == 3 {
        "SPI"@
    } else if f == 4 {
        "PWM"@
    } else if f == 5 {
        "I2S"@
    } else if f == 6 {
        "CAN"@
    } else if f == 7 {
        "PDM"@
    } else {
        "SPDIF"@
    }
}

fn family_exec(f: usize) -> (r: &'static str)
    ensures
        r@ == family_name(f as int),
{
    if f == 0 {
        "UART"
    } else if f == 1 {
        "I2C"
    } else if f == 2 {
        "TWI"
    } else if f == 3 {
        "SPI"
    } else if f == 4 {
        "PWM"
    } else if f == 5 {
        "I2S"
    } else if f == 6 {
        "CAN"
    } else if f == 7 {
        "PDM"
    } else {
        "SPDIF"
    }
}

/// A peripheral function: its family, controller number, mux mode and
/// whether it is a high-speed UART.
#[derive(Debug, Clone, PartialEq, Eq)]
pub struct FunctionSelector {
    pub family: String,
    pub controller: String,
    pub mode: Option<String>,
    pub high_speed_uart: bool,
}

/// The parts of a selector.
pub open spec fn selector_view(s: FunctionSelector) -> (Seq<char>, Seq<char>, Option<Seq<char>>, bool) {
    (
        s.family@,
        s.controller@,
        match s.mode {
            Some(m) => Some(m@),
            None => None,
        },
        s.high_speed_uart,
    )
}

/// The selector that family `f` found at `start` of an upper-cased text
/// gives, with its score: the family must be followed by a controller
/// number; a mux mode after it scores 4, and the word `GROUP` (2) or
/// `FUNCTION` (1) right before it adds to that. `TWI` is I2C; a UART
/// after `HS-` or `HS_` is a high-speed one.
pub open spec fn selector_candidate(upper: Seq<char>, start: int, f: int) -> Option<
    (nat, (Seq<char>, Seq<char>, Option<Seq<char>>, bool)),
> {
    let fam = family_name(f);
    if !occurs_at(upper, fam, start) {
        None
    } else {
        let suffix = upper.skip(start + fam.len());
        let c = digit_run(suffix);
        if c == 0 {
            None
        } else {
            let mode = parse_mode_spec(suffix.skip(c as int));
            let prefix = trim_end(upper.take(start));
            let context: nat = if ends_with(prefix, "GROUP"@) {
                2
            } else if ends_with(prefix, "FUNCTION"@) {
                1
            } else {
                0
            };
            let score: nat = (if mode is Some {
                4nat
            } else {
                0nat
            }) + context;
            Some(
                (
                    score,
                    (
                        if fam == "TWI"@ {
                            "I2C"@
                        } else {
                            fam
                        },
                        suffix.take(c as int),
                        mode,
                        fam == "UART"@ && (ends_with(prefix, "HS-"@) || ends_with(prefix, "HS_"@)),
                    ),
                ),
            )
        }
    }
}

/// The selector found at `start`, trying the families from `f` on.
pub open spec fn candidate_at(upper: Seq<char>, start: int, f: int) -> Option<
    (nat, (Seq<char>, Seq<char>, Option<Seq<char>>, bool)),
>
    decreases 9 - f,
{
    if f < 0 || f >= 9 {
        None
    } else {
        match selector_candidate(upper, start, f) {
            Some(c) => Some(c),
            None => candidate_at(upper, start, f + 1),
        }
    }
}

/// The best selector found before position `n`: the highest score, the
/// later position on a tie.
pub open spec fn best_upto(upper: Seq<char>, n: int) -> Option<
    (nat, (Seq<char>, Seq<char>, Option<Seq<char>>, bool)),
>
    decreases n,
{
    if n <= 0 {
        None
    } else {
        let prev = best_upto(upper, n - 1);
        match candidate_at(upper, n - 1, 0) {
            Some(c) => match prev {
                Some(p) => if c.0 >= p.0 {
                    Some(c)
                } else {
                    prev
                },
                None => Some(c),
            },
            None => prev,
        }
    }
}

/// The peripheral function a pin-control text names: the best selector
/// found in the text, upper-cased.
pub open spec fn selector_spec(value: Seq<char>) -> Option<
    (Seq<char>, Seq<char>, Option<Seq<char>>, bool),
> {
    let upper = upper_seq(value);
    match best_upto(upper, upper.len() as int) {
        Some((_, sel)) => Some(sel),
        None => None,
    }
}

fn opt_chars_to_string(o: Option<Vec<char>>) -> (r: Option<String>)
    ensures
        match r {
            Some(s) => o matches Some(v) && s@ == v@,
            None => o is None,
        },
{
    match o {
        Some(v) => Some(string_of(&v)),
        None => None,
    }
}

fn selector_candidate_exec(upper: &Vec<char>, start: usize, f: usize) -> (r: Option<(u8, FunctionSelector)>)
    requires
        f < 9,
    ensures
        match r {
            Some((score, sel)) => selector_candidate(upper@, start as int, f as int) == Some(
                (score as nat, selector_view(sel)),
            ),
            None => selector_candidate(upper@, start as int, f as int) is None,
        },
{
    let fam = family_exec(f);
    let fv = chars_of(fam);
    if !crate::text::occurs_at_exec(upper, &fv, start) {
        return None;
    }
    assert(start + fv@.len() <= upper@.len());
    assert(upper@.len() == upper.len() && fv@.len() == fv.len());
    let at = start + fv.len();
    let suffix = slice(upper, at, upper.len());
    assert(suffix@ == upper@.skip(start + fam@.len()));
    let c = run_end(&suffix, 0, true);
    assert(suffix@.skip(0) =~= suffix@);
    if c == 0 {
        return None;
    }
    let controller = slice(&suffix, 0, c);
    let rest = slice(&suffix, c, suffix.len());
    assert(rest@ == suffix@.skip(c as int));
    let mode = parse_mode(&rest);
    let head = slice(upper, 0, start);
    let prefix = trim_end_exec(&head);
    let context: u8 = if ends_with_str(&prefix, "GROUP") {
        2
    } else if ends_with_str(&prefix, "FUNCTION") {
        1
    } else {
        0
    };
    let score: u8 = (if mode.is_some() {
        4u8
    } else {
        0u8
    }) + context;
    let is_uart = eq_str(&fv, "UART");
    let family = if eq_str(&fv, "TWI") {
        owned("I2C")
    } else {
        owned(fam)
    };
    let high_speed_uart = is_uart && (ends_with_str(&prefix, "HS-") || ends_with_str(&prefix, "HS_"));
    let sel = FunctionSelector {
        family,
        controller: string_of(&controller),
        mode: opt_chars_to_string(mode),
        high_speed_uart,
    };
    Some((score, sel))
}

/// The peripheral function a pin-control text names (see
/// [`selector_spec`]).
pub fn parse_selector(value: &str) -> (r: Option<FunctionSelector>)
    ensures
        match r {
            Some(sel) => selector_spec(value@) == Some(selector_view(sel)),
            None => selector_spec(value@) is None,
        },
{
    let v = chars_of(value);
    let upper = upper_all(&v);
    let mut best: Option<(u8, FunctionSelector)> = None;
    let mut start: usize = 0;
    while start < upper.len()
        invariant
            start <= upper.len(),
            upper@ == upper_seq(value@),
            match best {
                Some((score, sel)) => best_upto(upper@, start as int) == Some(
                    (score as nat, selector_view(sel)),
                ),
                None => best_upto(upper@, start as int) is None,
            },
        decreases upper.len() - start,
    {
        let mut f: usize = 0;
        let mut found: Option<(u8, FunctionSelector)> = None;
        while f < 9 && found.is_none()
            invariant
                f <= 9,
                match found {
                    Some((score, sel)) => candidate_at(upper@, start as int, 0) == Some(
                        (score as nat, selector_view(sel)),
                    ),
                    None => candidate_at(upper@, start as int, 0) == candidate_at(
                        upper@,
                        start as int,
                        f as int,
                    ),
                },
            decreases 9 - f,
        {
            found = selector_candidate_exec(&upper, start, f);
            f = f + 1;
        }
        assert(match found {
            Some((score, sel)) => candidate_at(upper@, start as int, 0) == Some(
                (score as nat, selector_view(sel)),
            ),
            None => candidate_at(upper@, start as int, 0) is None,
        });
        match found {
            Some((score, sel)) => {
                let replace = match &best {
                    Some((b, _)) => score >= *b,
                    None => true,
                };
                if replace {
                    best = Some((score, sel));
                }
            },
            None => {},
        }
        start = start + 1;
    }
    match best {
        Some((_, sel)) => Some(sel),
        None => None,
    }
}

/// Whether a function that the kernel reports active (`evidence`) is the
/// function `function` of a pin: same family, controller and UART speed,
/// and the same mux mode when the evidence names one.
pub open spec fn selectors_match_spec(
    evidence: (Seq<char>, Seq<char>, Option<Seq<char>>, bool),
    function: (Seq<char>, Seq<char>, Option<Seq<char>>, bool),
) -> bool {
    &&& evidence.0 == function.0
    &&& evidence.1 == function.1
    &&& evidence.3 == function.3
    &&& (evidence.2 matches Some(m) ==> function.2 == Some(m))
}

fn opt_eq(a: &Option<String>, b: &Option<String>) -> (r: bool)
    ensures
        r == (match (*a, *b) {
            (Some(x), Some(y)) => x@ == y@,
            (None, None) => true,
            _ => false,
        }),
{
    match (a, b) {
        (Some(x), Some(y)) => {
            let xv = chars_of(x.as_str());
            let yv = chars_of(y.as_str());
            seq_eq(&xv, &yv)
        },
        (None, None) => true,
        _ => false,
    }
}

fn str_eq(a: &String, b: &String) -> (r: bool)
    ensures
        r == (a@ == b@),
{
    let av = chars_of(a.as_str());
    let bv = chars_of(b.as_str());
    seq_eq(&av, &bv)
}

/// Whether two selectors name the same function (see
/// [`selectors_match_spec`]).
pub fn selectors_match(evidence: &FunctionSelector, function: &FunctionSelector) -> (r: bool)
    ensures
        r == selectors_match_spec(selector_view(*evidence), selector_view(*function)),
{
    str_eq(&evidence.family, &function.family) && str_eq(&evidence.controller, &function.controller)
        && evidence.high_speed_uart == function.high_speed_uart && (evidence.mode.is_none()
        || opt_eq(&function.mode, &evidence.mode))
}

/// One pin of a header.
#[derive(Debug, Clone, PartialEq, Eq)]
pub struct PinoutPin {
    pub number: u8,
    pub name: String,
    pub default_function: String,
    pub kind: String,
    pub gpio: Option<String>,
    pub voltage: Option<String>,
    pub functions: Vec<String>,
    pub description: Option<String>,
}

/// A header of a board.
#[derive(Debug, Clone, PartialEq, Eq)]
pub struct PinoutConnector {
    pub id: String,
    pub name: String,
    pub pins: Vec<PinoutPin>,
}

/// The pin-out of a board, with the patterns that recognise it.
#[derive(Debug, Clone, PartialEq, Eq)]
pub struct PinoutProfile {
    pub id: String,
    pub name: String,
    pub description: Option<String>,
    pub layout: String,
    pub patterns: Vec<String>,
    pub connectors: Vec<PinoutConnector>,
}

/// What shows a function active: an overlay or a pin-control entry, its
/// text, and the resources it claims.
#[derive(Debug, Clone, PartialEq, Eq)]
pub struct FunctionEvidence {
    pub id: String,
    pub text: String,
    pub exclusive: Vec<String>,
}

/// The function a pin serves, as far as the evidence shows it.
#[derive(Debug, Clone, PartialEq, Eq)]
pub struct ResolvedFunction {
    pub name: Option<String>,
    pub kind: String,
    pub source_detail: Option<String>,
}

/// `s` has `t` as one of its `_`-separated fields.
pub open spec fn has_field(s: Seq<char>, t: Seq<char>) -> bool {
    exists|i: int|
        occurs_at(s, t, i) && (i == 0 || s[i - 1] == '_') && (i + t.len() == s.len() || s[i
            + t.len()] == '_')
}

fn field_at(s: &Vec<char>, t: &Vec<char>, i: usize) -> (r: bool)
    ensures
        r == (occurs_at(s@, t@, i as int) && (i == 0 || s@[i - 1] == '_') && (i + t@.len()
            == s@.len() || s@[i + t@.len()] == '_')),
{
    if !crate::text::occurs_at_exec(s, t, i) {
        return false;
    }
    assert(i + t@.len() <= s@.len());
    assert(s@.len() == s.len() && t@.len() == t.len());
    let end = i + t.len();
    (i == 0 || s[i - 1] == '_') && (end == s.len() || s[end] == '_')
}

fn has_field_exec(s: &Vec<char>, t: &str) -> (r: bool)
    ensures
        r == has_field(s@, t@),
{
    let tv = chars_of(t);
    let mut i: usize = 0;
    while i < s.len()
        invariant
            i <= s.len(),
            tv@ == t@,
            forall|j: int|
                0 <= j < i ==> !(occurs_at(s@, t@, j) && (j == 0 || s@[j - 1] == '_') && (j
                    + t@.len() == s@.len() || s@[j + t@.len()] == '_')),
        decreases s.len() + 1 - i,
    {
        if field_at(s, &tv, i) {
            return true;
        }
        i = i + 1;
    }
    if field_at(s, &tv, i) {
        return true;
    }
    assert forall|j: int|
        !(occurs_at(s@, t@, j) && (j == 0 || s@[j - 1] == '_') && (j + t@.len() == s@.len() || s@[j
            + t@.len()] == '_')) by {
        if j > s@.len() {
            assert(!occurs_at(s@, t@, j));
        }
    }
    false
}

/// The normalised pad resources of a list.
pub open spec fn pads_of(res: Seq<Seq<char>>) -> Seq<Seq<char>>
    decreases res.len(),
{
    if res.len() == 0 {
        seq![]
    } else {
        let n = normalize_spec(res.last());
        pads_of(res.drop_last()) + if is_pad_spec(n) {
            seq![n]
        } else {
            seq![]
        }
    }
}

/// Whether evidence for `function` (of family `family`) covers pin `pin`:
/// evidence that claims pads covers the pins named by them (by default
/// function, name or GPIO number); other evidence covers every pin of the
/// function, except that for a UART it covers only the data pins.
pub open spec fn covers_spec(
    exclusive: Seq<Seq<char>>,
    pin: PinoutPin,
    function: Seq<char>,
    family: Seq<char>,
) -> bool {
    let pads = pads_of(exclusive);
    if pads.len() > 0 {
        ||| pads.contains(normalize_spec(pin.default_function@))
        ||| pads.contains(normalize_spec(pin.name@))
        ||| (pin.gpio matches Some(g) && pads.contains(normalize_spec(g@)))
    } else {
        family != "UART"@ || has_field(upper_seq(function), "TX"@) || has_field(
            upper_seq(function),
            "RX"@,
        )
    }
}

fn contains_chars(v: &Vec<Vec<char>>, x: &Vec<char>) -> (r: bool)
    ensures
        r == crate::source_files::vecs_view(v@).contains(x@),
{
    let ghost vv = crate::source_files::vecs_view(v@);
    let mut i: usize = 0;
    while i < v.len()
        invariant
            i <= v.len(),
            vv == crate::source_files::vecs_view(v@),
            forall|j: int| 0 <= j < i ==> vv[j] != x@,
        decreases v.len() - i,
    {
        if seq_eq(&v[i], x) {
            assert(vv[i as int] == x@);
            return true;
        }
        i = i + 1;
    }
    false
}

/// Whether evidence covers a pin (see [`covers_spec`]).
pub fn evidence_covers_pin(
    item: &FunctionEvidence,
    pin: &PinoutPin,
    function: &str,
    family: &str,
) -> (r: bool)
    ensures
        r == covers_spec(strings_view(item.exclusive@), *pin, function@, family@),
{
    let ghost res = strings_view(item.exclusive@);
    let mut pads: Vec<Vec<char>> = Vec::new();
    let mut i: usize = 0;
    while i < item.exclusive.len()
        invariant
            i <= item.exclusive.len(),
            res == strings_view(item.exclusive@),
            crate::source_files::vecs_view(pads@) == pads_of(res.take(i as int)),
        decreases item.exclusive.len() - i,
    {
        let rv = chars_of(item.exclusive[i].as_str());
        let n = normalize_chars(&rv);
        assert(res.take(i + 1).drop_last() =~= res.take(i as int));
        assert(res.take(i + 1).last() == rv@);
        if is_pad_resource(&n) {
            let ghost before = crate::source_files::vecs_view(pads@);
            pads.push(n);
            assert(crate::source_files::vecs_view(pads@) =~= before.push(normalize_spec(rv@)));
        } else {
            assert(crate::source_files::vecs_view(pads@) =~= pads_of(res.take(i as int)) + Seq::<
                Seq<char>,
            >::empty());
        }
        i = i + 1;
    }
    assert(res.take(item.exclusive@.len() as int) =~= res);
    if pads.len() > 0 {
        let d = normalize_chars(&chars_of(pin.default_function.as_str()));
        let n = normalize_chars(&chars_of(pin.name.as_str()));
        if contains_chars(&pads, &d) || contains_chars(&pads, &n) {
            return true;
        }
        return match &pin.gpio {
            Some(g) => {
                let gv = normalize_chars(&chars_of(g.as_str()));
                contains_chars(&pads, &gv)
            },
            None => false,
        };
    }
    let fam = chars_of(family);
    if !eq_str(&fam, "UART") {
        return true;
    }
    let up = upper_all(&chars_of(function));
    has_field_exec(&up, "TX") || has_field_exec(&up, "RX")
}

/// A match of evidence and a pin function: the function, its family in
/// lower case, and the id of the evidence.
pub type FunctionMatch = (Seq<char>, Seq<char>, Seq<char>);

/// The matches of evidence `item` with the first `m` functions of `pin`.
pub open spec fn function_matches(
    pin: PinoutPin,
    item: FunctionEvidence,
    es: (Seq<char>, Seq<char>, Option<Seq<char>>, bool),
    m: int,
) -> Seq<FunctionMatch>
    decreases m,
{
    if m <= 0 {
        seq![]
    } else {
        let f = pin.functions@[m - 1]@;
        function_matches(pin, item, es, m - 1) + match selector_spec(f) {
            None => seq![],
            Some(fs) => if selectors_match_spec(es, fs) && covers_spec(
                strings_view(item.exclusive@),
                pin,
                f,
                fs.0,
            ) {
                seq![(f, lower_seq(fs.0), item.id@)]
            } else {
                seq![]
            },
        }
    }
}

/// The matches of the first `n` evidence items with the functions of a
/// pin, item by item.
pub open spec fn evidence_matches(pin: PinoutPin, ev: Seq<FunctionEvidence>, n: int) -> Seq<
    FunctionMatch,
>
    decreases n,
{
    if n <= 0 {
        seq![]
    } else {
        let item = ev[n - 1];
        evidence_matches(pin, ev, n - 1) + match selector_spec(item.text@) {
            None => seq![],
            Some(es) => function_matches(pin, item, es, pin.functions@.len() as int),
        }
    }
}


/// The evidence ids of a list of matches.
pub open spec fn match_sources(ms: Seq<FunctionMatch>) -> Seq<Seq<char>> {
    ms.map_values(|m: FunctionMatch| m.2)
}

/// What a pin serves given its matches and their evidence ids in order:
/// nothing confirmed without matches; a conflict when matches name
/// different functions; else the function and its family, with the ids
/// that show it.
pub open spec fn resolved_spec(ms: Seq<FunctionMatch>, sources: Seq<Seq<char>>) -> (
    Option<Seq<char>>,
    Seq<char>,
    Option<Seq<char>>,
) {
    if ms.len() == 0 {
        (None, "unconfirmed"@, None)
    } else if exists|i: int| 0 <= i < ms.len() && #[trigger] ms[i].0 != ms[0].0 {
        (None, "conflict"@, Some(join_spec(sources, ", "@)))
    } else {
        (Some(ms[0].0), ms[0].1, Some(join_spec(sources, ", "@)))
    }
}

/// The parts of a resolved function.
pub open spec fn resolved_view(r: ResolvedFunction) -> (Option<Seq<char>>, Seq<char>, Option<Seq<char>>) {
    (
        match r.name {
            Some(n) => Some(n@),
            None => None,
        },
        r.kind@,
        match r.source_detail {
            Some(d) => Some(d@),
            None => None,
        },
    )
}


/// The views of matches collected as strings.
pub open spec fn triples_view(v: Seq<(String, String, String)>) -> Seq<FunctionMatch> {
    v.map_values(|t: (String, String, String)| (t.0@, t.1@, t.2@))
}

/// The function the evidence shows a pin serving (see [`resolved_spec`]).
pub fn resolve_function_evidence(pin: &PinoutPin, evidence: &Vec<FunctionEvidence>) -> (r:
    ResolvedFunction)
    ensures
        ({
            let ms = evidence_matches(*pin, evidence@, evidence@.len() as int);
            exists|sources: Seq<Seq<char>>|
                sorted_set_of(sources, match_sources(ms)) && resolved_view(r) == resolved_spec(
                    ms,
                    sources,
                )
        }),
{
    let mut ms: Vec<(String, String, String)> = Vec::new();
    let mut n: usize = 0;
    while n < evidence.len()
        invariant
            n <= evidence.len(),
            triples_view(ms@) == evidence_matches(*pin, evidence@, n as int),
        decreases evidence.len() - n,
    {
        let item = &evidence[n];
        let ghost before = triples_view(ms@);
        match parse_selector(item.text.as_str()) {
            None => {
                assert(triples_view(ms@) =~= before + Seq::<FunctionMatch>::empty());
            },
            Some(es) => {
                let mut m: usize = 0;
                assert(triples_view(ms@) =~= before + function_matches(*pin, *item, selector_view(es), 0));
                while m < pin.functions.len()
                    invariant
                        m <= pin.functions.len(),
                        triples_view(ms@) == before + function_matches(
                            *pin,
                            *item,
                            selector_view(es),
                            m as int,
                        ),
                    decreases pin.functions.len() - m,
                {
                    let f = &pin.functions[m];
                    let ghost mid = triples_view(ms@);
                    match parse_selector(f.as_str()) {
                        None => {
                            assert(mid =~= mid + Seq::<FunctionMatch>::empty());
                        },
                        Some(fs) => {
                            if selectors_match(&es, &fs) && evidence_covers_pin(
                                item,
                                pin,
                                f.as_str(),
                                fs.family.as_str(),
                            ) {
                                let fam = lower_all(&chars_of(fs.family.as_str()));
                                ms.push((f.clone(), string_of(&fam), item.id.clone()));
                                assert(triples_view(ms@) =~= mid + seq![
                                    (f@, lower_seq(fs.family@), item.id@),
                                ]);
                            } else {
                                assert(mid =~= mid + Seq::<FunctionMatch>::empty());
                            }
                        },
                    }
                    m = m + 1;
                }
            },
        }
        n = n + 1;
    }
    let ghost mv = triples_view(ms@);
    if ms.len() == 0 {
        let ghost s0 = Seq::<Seq<char>>::empty();
        assert(sorted_set_of(s0, match_sources(mv))) by {
            assert(match_sources(mv) =~= Seq::<Seq<char>>::empty());
        }
        let r = ResolvedFunction { name: None, kind: owned("unconfirmed"), source_detail: None };
        assert(sorted_set_of(s0, match_sources(mv)) && resolved_view(r) == resolved_spec(mv, s0));
        return r;
    }
    let mut sources: Vec<String> = Vec::new();
    let mut differ = false;
    let first = chars_of(ms[0].0.as_str());
    let mut k: usize = 0;
    while k < ms.len()
        invariant
            k <= ms.len(),
            mv == triples_view(ms@),
            first@ == mv[0].0,
            strings_view(sources@) == match_sources(mv).take(k as int),
            differ == exists|i: int| 0 <= i < k && #[trigger] mv[i].0 != mv[0].0,
        decreases ms.len() - k,
    {
        let ghost before = strings_view(sources@);
        sources.push(ms[k].2.clone());
        assert(strings_view(sources@) =~= before.push(mv[k as int].2));
        assert(match_sources(mv).take(k + 1) =~= match_sources(mv).take(k as int).push(mv[k as int].2));
        let fk = chars_of(ms[k].0.as_str());
        if !seq_eq(&fk, &first) {
            assert(mv[k as int].0 != mv[0].0);
            differ = true;
        }
        k = k + 1;
    }
    assert(match_sources(mv).take(ms@.len() as int) =~= match_sources(mv));
    let sorted = sorted_unique(&sources);
    let ghost sv = strings_view(sorted@);
    let detail = join_exec(&sorted, ", ");
    let r = if differ {
        ResolvedFunction { name: None, kind: owned("conflict"), source_detail: Some(detail) }
    } else {
        ResolvedFunction {
            name: Some(ms[0].0.clone()),
            kind: ms[0].1.clone(),
            source_detail: Some(detail),
        }
    };
    assert(sorted_set_of(sv, match_sources(mv)) && resolved_view(r) == resolved_spec(mv, sv));
    r
}

/// The normalised observations of a board that are not empty.
pub open spec fn normalized_observations(obs: Seq<Seq<char>>) -> Seq<Seq<char>>
    decreases obs.len(),
{
    if obs.len() == 0 {
        seq![]
    } else {
        let n = normalize_spec(obs.last());
        normalized_observations(obs.drop_last()) + if n.len() > 0 {
            seq![n]
        } else {
            seq![]
        }
    }
}

/// How strongly a pattern recognises a board: the length of the
/// normalised pattern when it has five or more characters and some
/// observation contains it, else 0.
pub open spec fn pattern_score(pattern: Seq<char>, obs: Seq<Seq<char>>) -> nat {
    let n = normalize_spec(pattern);
    if n.len() >= 5 && exists|i: int| 0 <= i < obs.len() && crate::text::contains(#[trigger] obs[i], n) {
        n.len()
    } else {
        0
    }
}

/// The best score of the first `m` patterns of a profile.
pub open spec fn profile_score(patterns: Seq<Seq<char>>, m: int, obs: Seq<Seq<char>>) -> nat
    decreases m,
{
    if m <= 0 {
        0
    } else {
        let prev = profile_score(patterns, m - 1, obs);
        let s = pattern_score(patterns[m - 1], obs);
        if s > prev {
            s
        } else {
            prev
        }
    }
}

/// The profile, among the first `n`, that recognises a board best: the
/// highest score above zero, the later profile on a tie.
pub open spec fn best_profile(profiles: Seq<PinoutProfile>, n: int, obs: Seq<Seq<char>>) -> Option<int>
    decreases n,
{
    if n <= 0 {
        None
    } else {
        let prev = best_profile(profiles, n - 1, obs);
        let p = profiles[n - 1];
        let s = profile_score(strings_view(p.patterns@), p.patterns@.len() as int, obs);
        if s > 0 && (match prev {
            Some(i) => s >= profile_score(
                strings_view(profiles[i].patterns@),
                profiles[i].patterns@.len() as int,
                obs,
            ),
            None => true,
        }) {
            Some(n - 1)
        } else {
            prev
        }
    }
}

fn observe(observations: &Vec<String>) -> (r: Vec<Vec<char>>)
    ensures
        crate::source_files::vecs_view(r@) == normalized_observations(strings_view(observations@)),
{
    let ghost ov = strings_view(observations@);
    let mut r: Vec<Vec<char>> = Vec::new();
    let mut i: usize = 0;
    while i < observations.len()
        invariant
            i <= observations.len(),
            ov == strings_view(observations@),
            crate::source_files::vecs_view(r@) == normalized_observations(ov.take(i as int)),
        decreases observations.len() - i,
    {
        let n = normalize_chars(&chars_of(observations[i].as_str()));
        assert(ov.take(i + 1).drop_last() =~= ov.take(i as int));
        assert(ov.take(i + 1).last() == observations@[i as int]@);
        let ghost before = crate::source_files::vecs_view(r@);
        if n.len() > 0 {
            r.push(n);
            assert(crate::source_files::vecs_view(r@) =~= before.push(n@));
        } else {
            assert(before =~= before + Seq::<Seq<char>>::empty());
        }
        i = i + 1;
    }
    assert(ov.take(observations@.len() as int) =~= ov);
    r
}

fn pattern_score_exec(pattern: &String, obs: &Vec<Vec<char>>) -> (r: usize)
    ensures
        r == pattern_score(pattern@, crate::source_files::vecs_view(obs@)),
{
    let n = normalize_chars(&chars_of(pattern.as_str()));
    if n.len() < 5 {
        return 0;
    }
    let ghost ov = crate::source_files::vecs_view(obs@);
    let mut i: usize = 0;
    while i < obs.len()
        invariant
            i <= obs.len(),
            ov == crate::source_files::vecs_view(obs@),
            n@ == normalize_spec(pattern@),
            n@.len() >= 5,
            forall|j: int| 0 <= j < i ==> !crate::text::contains(#[trigger] ov[j], n@),
        decreases obs.len() - i,
    {
        assert(ov[i as int] == obs@[i as int]@);
        if crate::text::contains_exec(&obs[i], &n) {
            assert(crate::text::contains(ov[i as int], n@));
            return n.len();
        }
        i = i + 1;
    }
    0
}

fn profile_score_exec(p: &PinoutProfile, obs: &Vec<Vec<char>>) -> (r: usize)
    ensures
        r == profile_score(
            strings_view(p.patterns@),
            p.patterns@.len() as int,
            crate::source_files::vecs_view(obs@),
        ),
{
    let ghost pv = strings_view(p.patterns@);
    let mut best: usize = 0;
    let mut m: usize = 0;
    while m < p.patterns.len()
        invariant
            m <= p.patterns.len(),
            pv == strings_view(p.patterns@),
            best == profile_score(pv, m as int, crate::source_files::vecs_view(obs@)),
        decreases p.patterns.len() - m,
    {
        assert(pv[m as int] == p.patterns@[m as int]@);
        let s = pattern_score_exec(&p.patterns[m], obs);
        if s > best {
            best = s;
        }
        m = m + 1;
    }
    best
}

/// The profile that recognises a board best from what the board reports
/// about itself (model and compatible strings); see [`best_profile`].
pub fn match_profile<'a>(profiles: &'a Vec<PinoutProfile>, observations: &Vec<String>) -> (r: Option<
    &'a PinoutProfile,
>)
    ensures
        ({
            let obs = normalized_observations(strings_view(observations@));
            match best_profile(profiles@, profiles@.len() as int, obs) {
                Some(i) => r matches Some(p) && *p == profiles@[i],
                None => r is None,
            }
        }),
{
    let obs = observe(observations);
    let ghost ov = crate::source_files::vecs_view(obs@);
    let mut best: Option<usize> = None;
    let mut best_score: usize = 0;
    let mut n: usize = 0;
    while n < profiles.len()
        invariant
            n <= profiles.len(),
            ov == crate::source_files::vecs_view(obs@),
            best_profile(profiles@, n as int, ov) == match best {
                Some(i) => Some(i as int),
                None => None::<int>,
            },
            best matches Some(i) ==> i < n && best_score == profile_score(
                strings_view(profiles@[i as int].patterns@),
                profiles@[i as int].patterns@.len() as int,
                ov,
            ),
        decreases profiles.len() - n,
    {
        let s = profile_score_exec(&profiles[n], &obs);
        let take = s > 0 && (match best {
            Some(_) => s >= best_score,
            None => true,
        });
        if take {
            best = Some(n);
            best_score = s;
        }
        n = n + 1;
    }
    match best {
        Some(i) => Some(&profiles[i]),
        None => None,
    }
}

/// The profile with the given id.
pub fn profile_by_id<'a>(profiles: &'a Vec<PinoutProfile>, id: &str) -> (r: Option<&'a PinoutProfile>)
    ensures
        r matches Some(p) ==> p.id@ == id@ && exists|i: int|
            0 <= i < profiles@.len() && *p == profiles@[i] && forall|j: int|
                0 <= j < i ==> (#[trigger] profiles@[j]).id@ != id@,
        r is None ==> forall|i: int| 0 <= i < profiles@.len() ==> (#[trigger] profiles@[i]).id@ != id@,
{
    let want = chars_of(id);
    let mut i: usize = 0;
    while i < profiles.len()
        invariant
            i <= profiles.len(),
            want@ == id@,
            forall|j: int| 0 <= j < i ==> (#[trigger] profiles@[j]).id@ != id@,
        decreases profiles.len() - i,
    {
        let have = chars_of(profiles[i].id.as_str());
        if seq_eq(&have, &want) {
            return Some(&profiles[i]);
        }
        i = i + 1;
    }
    None
}

/// The score of profile `q` (see [`profile_score`]).
pub open spec fn score_of(profiles: Seq<PinoutProfile>, q: int, obs: Seq<Seq<char>>) -> nat {
    profile_score(strings_view(profiles[q].patterns@), profiles[q].patterns@.len() as int, obs)
}

/// The profile chosen for a board recognises it best: it scores above
/// zero, no profile scores more, and every later profile scores less (so a
/// tie goes to the later profile); when none is chosen, no profile
/// recognises the board at all.
pub proof fn law_chosen_profile_scores_highest(profiles: Seq<PinoutProfile>, n: int, obs: Seq<Seq<char>>)
    requires
        0 <= n <= profiles.len(),
    ensures
        match best_profile(profiles, n, obs) {
            Some(i) => {
                &&& 0 <= i < n
                &&& score_of(profiles, i, obs) > 0
                &&& forall|q: int| 0 <= q < n ==> #[trigger] score_of(profiles, q, obs) <= score_of(profiles, i, obs)
                &&& forall|q: int| i < q < n ==> #[trigger] score_of(profiles, q, obs) < score_of(profiles, i, obs)
            },
            None => forall|q: int| 0 <= q < n ==> #[trigger] score_of(profiles, q, obs) == 0,
        },
    decreases n,
{
    if n > 0 {
        law_chosen_profile_scores_highest(profiles, n - 1, obs);
        let s = score_of(profiles, n - 1, obs);
        match best_profile(profiles, n - 1, obs) {
            Some(i) => {
                assert(score_of(profiles, i, obs) == profile_score(
                    strings_view(profiles[i].patterns@),
                    profiles[i].patterns@.len() as int,
                    obs,
                ));
            },
            None => {},
        }
        assert(s == profile_score(
            strings_view(profiles[n - 1].patterns@),
            profiles[n - 1].patterns@.len() as int,
            obs,
        ));
    }
}

} // verus!
