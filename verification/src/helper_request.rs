//! The command line of the privileged helper: a fixed set of native
//! operations, each with its exact arguments and an explicit confirmation;
//! nothing else is accepted.
use vstd::prelude::*;
use crate::model::{push_str, strings_view};
use crate::text::{chars_of, eq_str, owned, string_of};

verus! {

/// A change to the SPI boot flash.
#[derive(Debug, Clone, PartialEq, Eq)]
pub struct SpiFlashRequest {
    pub operation: String,
    pub target_id: String,
    pub image_id: Option<String>,
}

/// A colour setting for an RGB LED group.
#[derive(Debug, Clone, PartialEq, Eq)]
pub struct RgbLedConfig {
    pub group_id: String,
    pub mode: String,
    pub red: u8,
    pub green: u8,
    pub blue: u8,
    pub brightness: u8,
    pub cycle_ms: u32,
}

/// An operation the privileged helper performs.
#[derive(Debug, Clone, PartialEq, Eq)]
pub enum HelperRequest {
    Action(String),
    SourcesApply { provider_id: String, plan_token: String },
    OverlaysApply { selected_ids: Vec<String>, plan_token: String },
    SpiFlashApply { request: SpiFlashRequest, plan_token: String },
    ThermalApply(String),
    /// The fan-curve request, as the JSON text it was given in.
    FanCurveApply { request_json: String, plan_token: String },
    ThermalRestore,
    LedTrigger { led_id: String, trigger: String },
    LedRgb(RgbLedConfig),
    LedRestore,
}

/// Why a helper command line was refused.
#[derive(Debug, Clone, PartialEq, Eq)]
pub enum HelperError {
    /// Not one of the fixed operations with its exact arguments.
    Invalid,
    /// A number of an RGB setting that is not one: the setting's name.
    BadNumber(String),
}

/// The message shown for a refused command line.
pub open spec fn helper_error_message(e: HelperError) -> Seq<char> {
    match e {
        HelperError::Invalid => "invalid helper request; expected a fixed native operation"@,
        HelperError::BadNumber(what) => "invalid "@ + what@,
    }
}

impl HelperError {
    /// The message shown for this error (see [`helper_error_message`]).
    pub fn message(&self) -> (r: String)
        ensures
            r@ == helper_error_message(*self),
    {
        match self {
            HelperError::Invalid => owned("invalid helper request; expected a fixed native operation"),
            HelperError::BadNumber(what) => {
                let mut v = chars_of("invalid ");
                crate::text::extend_str(&mut v, what.as_str());
                string_of(&v)
            },
        }
    }
}

/// The non-empty pieces of a comma-separated list, in order.
pub open spec fn comma_ids(s: Seq<char>) -> Seq<Seq<char>> {
    crate::efi::split_by(s, ',').filter(|p: Seq<char>| p.len() > 0)
}

/// A decimal number of at most `max`, as `str::parse` reads one.
pub open spec fn number(s: Seq<char>, max: nat) -> Option<nat> {
    crate::lex::parse_unsigned(s, 10, max)
}

/// The views of the arguments.
pub open spec fn args_view(a: Seq<String>) -> Seq<Seq<char>> {
    strings_view(a)
}

/// The request a helper command line `a` is, as a tag and the values that
/// go with it; `None` for a line that is none. Tags: action (0), sources
/// (1), overlays (2), SPI flash (3), thermal policy (4), fan curve (5),
/// thermal restore (6), LED trigger (7), RGB LED (8), LED restore (9).
pub open spec fn request_shape(a: Seq<Seq<char>>) -> Option<int> {
    let c = "--confirmed"@;
    if a.len() == 3 && a[0] == "action"@ && a[2] == c {
        Some(0)
    } else if a.len() == 4 && a[0] == "sources-apply"@ && a[3] == c {
        Some(1)
    } else if a.len() == 4 && a[0] == "overlays-apply"@ && a[3] == c {
        Some(2)
    } else if a.len() == 6 && a[0] == "spi-flash-apply"@ && a[5] == c {
        Some(3)
    } else if a.len() == 3 && a[0] == "thermal-apply"@ && a[2] == c {
        Some(4)
    } else if a.len() == 4 && a[0] == "fan-curve-apply"@ && a[3] == c {
        Some(5)
    } else if a.len() == 1 && a[0] == "thermal-restore"@ {
        Some(6)
    } else if a.len() == 4 && a[0] == "led-trigger"@ && a[3] == c {
        Some(7)
    } else if a.len() == 9 && a[0] == "led-rgb"@ && a[8] == c {
        Some(8)
    } else if a.len() == 1 && a[0] == "led-restore"@ {
        Some(9)
    } else {
        None
    }
}

/// The request a helper command line is: each operation takes its exact
/// arguments and, but for the restores, ends with `--confirmed`; the
/// overlay list is comma-separated (empty pieces dropped); an SPI image
/// `-` means none; the RGB channels, brightness (at most 255) and cycle
/// (at most `u32::MAX`) must be numbers.
pub fn parse_request(arguments: &Vec<String>) -> (r: Result<HelperRequest, HelperError>)
    ensures
        ({
            let a = args_view(arguments@);
            match request_shape(a) {
                None => r == Err::<HelperRequest, HelperError>(HelperError::Invalid),
                Some(tag) => if tag == 0 {
                    r matches Ok(HelperRequest::Action(id)) && id@ == a[1]
                } else if tag == 1 {
                    r matches Ok(HelperRequest::SourcesApply { provider_id, plan_token }) && provider_id@ == a[1]
                        && plan_token@ == a[2]
                } else if tag == 2 {
                    r matches Ok(HelperRequest::OverlaysApply { selected_ids, plan_token }) && strings_view(
                        selected_ids@,
                    ) == comma_ids(a[1]) && plan_token@ == a[2]
                } else if tag == 3 {
                    r matches Ok(HelperRequest::SpiFlashApply { request, plan_token }) && request.operation@ == a[1]
                        && request.target_id@ == a[2] && (a[3] == "-"@ ==> request.image_id is None) && (a[3]
                        != "-"@ ==> (request.image_id matches Some(i) && i@ == a[3])) && plan_token@ == a[4]
                } else if tag == 4 {
                    r matches Ok(HelperRequest::ThermalApply(p)) && p@ == a[1]
                } else if tag == 5 {
                    r matches Ok(HelperRequest::FanCurveApply { request_json, plan_token }) && request_json@ == a[1]
                        && plan_token@ == a[2]
                } else if tag == 6 {
                    r matches Ok(HelperRequest::ThermalRestore)
                } else if tag == 7 {
                    r matches Ok(HelperRequest::LedTrigger { led_id, trigger }) && led_id@ == a[1] && trigger@ == a[2]
                } else if tag == 8 {
                    if number(a[3], 255) is None {
                        r matches Err(HelperError::BadNumber(w)) && w@ == "red channel"@
                    } else if number(a[4], 255) is None {
                        r matches Err(HelperError::BadNumber(w)) && w@ == "green channel"@
                    } else if number(a[5], 255) is None {
                        r matches Err(HelperError::BadNumber(w)) && w@ == "blue channel"@
                    } else if number(a[6], 255) is None {
                        r matches Err(HelperError::BadNumber(w)) && w@ == "brightness"@
                    } else if number(a[7], u32::MAX as nat) is None {
                        r matches Err(HelperError::BadNumber(w)) && w@ == "cycle"@
                    } else {
                        r matches Ok(HelperRequest::LedRgb(cfg)) && cfg.group_id@ == a[1] && cfg.mode@ == a[2]
                            && cfg.red == number(a[3], 255)->Some_0 && cfg.green == number(a[4], 255)->Some_0
                            && cfg.blue == number(a[5], 255)->Some_0 && cfg.brightness == number(a[6], 255)->Some_0
                            && cfg.cycle_ms == number(a[7], u32::MAX as nat)->Some_0
                    }
                } else {
                    r matches Ok(HelperRequest::LedRestore)
                },
            }
        }),
{
    let ghost a = args_view(arguments@);
    let n = arguments.len();
    if n == 0 {
        return Err(HelperError::Invalid);
    }
    let cmd = chars_of(arguments[0].as_str());
    assert(cmd@ == a[0]);
    let last = chars_of(arguments[n - 1].as_str());
    assert(last@ == a[n - 1]);
    let confirmed = eq_str(&last, "--confirmed");
    if n == 3 && eq_str(&cmd, "action") && confirmed {
        return Ok(HelperRequest::Action(arguments[1].clone()));
    }
    if n == 4 && eq_str(&cmd, "sources-apply") && confirmed {
        return Ok(HelperRequest::SourcesApply { provider_id: arguments[1].clone(), plan_token: arguments[2].clone() });
    }
    if n == 4 && eq_str(&cmd, "overlays-apply") && confirmed {
        let ids = comma_pieces(arguments[1].as_str());
        return Ok(HelperRequest::OverlaysApply { selected_ids: ids, plan_token: arguments[2].clone() });
    }
    if n == 6 && eq_str(&cmd, "spi-flash-apply") && confirmed {
        let image = chars_of(arguments[3].as_str());
        let image_id = if eq_str(&image, "-") {
            None
        } else {
            Some(arguments[3].clone())
        };
        return Ok(
            HelperRequest::SpiFlashApply {
                request: SpiFlashRequest {
                    operation: arguments[1].clone(),
                    target_id: arguments[2].clone(),
                    image_id,
                },
                plan_token: arguments[4].clone(),
            },
        );
    }
    if n == 3 && eq_str(&cmd, "thermal-apply") && confirmed {
        return Ok(HelperRequest::ThermalApply(arguments[1].clone()));
    }
    if n == 4 && eq_str(&cmd, "fan-curve-apply") && confirmed {
        return Ok(
            HelperRequest::FanCurveApply { request_json: arguments[1].clone(), plan_token: arguments[2].clone() },
        );
    }
    if n == 1 && eq_str(&cmd, "thermal-restore") {
        return Ok(HelperRequest::ThermalRestore);
    }
    if n == 4 && eq_str(&cmd, "led-trigger") && confirmed {
        return Ok(HelperRequest::LedTrigger { led_id: arguments[1].clone(), trigger: arguments[2].clone() });
    }
    if n == 9 && eq_str(&cmd, "led-rgb") && confirmed {
        let red = match crate::lex::parse_decimal(&chars_of(arguments[3].as_str()), 255) {
            Some(v) => v as u8,
            None => {
                return Err(HelperError::BadNumber(owned("red channel")));
            },
        };
        let green = match crate::lex::parse_decimal(&chars_of(arguments[4].as_str()), 255) {
            Some(v) => v as u8,
            None => {
                return Err(HelperError::BadNumber(owned("green channel")));
            },
        };
        let blue = match crate::lex::parse_decimal(&chars_of(arguments[5].as_str()), 255) {
            Some(v) => v as u8,
            None => {
                return Err(HelperError::BadNumber(owned("blue channel")));
            },
        };
        let brightness = match crate::lex::parse_decimal(&chars_of(arguments[6].as_str()), 255) {
            Some(v) => v as u8,
            None => {
                return Err(HelperError::BadNumber(owned("brightness")));
            },
        };
        let cycle_ms = match crate::lex::parse_decimal(&chars_of(arguments[7].as_str()), u32::MAX as u64) {
            Some(v) => v as u32,
            None => {
                return Err(HelperError::BadNumber(owned("cycle")));
            },
        };
        return Ok(
            HelperRequest::LedRgb(
                RgbLedConfig {
                    group_id: arguments[1].clone(),
                    mode: arguments[2].clone(),
                    red,
                    green,
                    blue,
                    brightness,
                    cycle_ms,
                },
            ),
        );
    }
    if n == 1 && eq_str(&cmd, "led-restore") {
        return Ok(HelperRequest::LedRestore);
    }
    Err(HelperError::Invalid)
}

/// The non-empty comma-separated pieces of `s` (see [`comma_ids`]).
fn comma_pieces(s: &str) -> (r: Vec<String>)
    ensures
        strings_view(r@) == comma_ids(s@),
{
    let v = chars_of(s);
    let parts = crate::efi::split_by_exec(&v, ',');
    let ghost pv = crate::source_files::vecs_view(parts@);
    let mut r: Vec<String> = Vec::new();
    let mut i: usize = 0;
    while i < parts.len()
        invariant
            i <= parts.len(),
            pv == crate::source_files::vecs_view(parts@),
            pv == crate::efi::split_by(s@, ','),
            strings_view(r@) == pv.take(i as int).filter(|p: Seq<char>| p.len() > 0),
        decreases parts.len() - i,
    {
        proof {
            let t = pv.take(i as int);
            let item = pv[i as int];
            assert(pv.take(i + 1) =~= t.push(item));
            assert(t.push(item).filter(|p: Seq<char>| p.len() > 0) == if item.len() > 0 {
                t.filter(|p: Seq<char>| p.len() > 0).push(item)
            } else {
                t.filter(|p: Seq<char>| p.len() > 0)
            }) by {
                reveal(Seq::filter);
                assert(t.push(item).drop_last() =~= t);
            }
        }
        if parts[i].len() > 0 {
            push_str(&mut r, string_of(&parts[i]).as_str());
        }
        i = i + 1;
    }
    assert(pv.take(parts@.len() as int) =~= pv);
    r
}

} // verus!
