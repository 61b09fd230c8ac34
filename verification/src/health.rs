//! Health verdicts on storage devices.
use vstd::prelude::*;
use crate::model::{
    HealthState, MmcHealth, NvmeSmartLog, TelemetryReadState, TelemetryStatus, strings_view,
};
use crate::text::eq_str;

verus! {

/// The verdict on an NVMe controller: nothing is known unless its
/// telemetry was read; any critical-warning bit is critical; any decoded
/// warning flag is a warning.
pub open spec fn nvme_health_spec(telemetry: TelemetryStatus, smart: Option<NvmeSmartLog>) -> HealthState {
    if telemetry.state != TelemetryReadState::Available {
        HealthState::Unknown
    } else {
        match smart {
            None => HealthState::Unknown,
            Some(s) => if s.critical_warning != 0 {
                HealthState::Critical
            } else if s.warning_flags@.len() != 0 {
                HealthState::Warning
            } else {
                HealthState::Healthy
            },
        }
    }
}

pub fn nvme_health_state(telemetry: &TelemetryStatus, smart: Option<&NvmeSmartLog>) -> (r: HealthState)
    ensures
        r == nvme_health_spec(*telemetry, match smart {
            Some(s) => Some(*s),
            None => None,
        }),
{
    if telemetry.state != TelemetryReadState::Available {
        return HealthState::Unknown;
    }
    match smart {
        None => HealthState::Unknown,
        Some(smart) => {
            if smart.critical_warning != 0 {
                HealthState::Critical
            } else if smart.warning_flags.len() != 0 {
                HealthState::Warning
            } else {
                HealthState::Healthy
            }
        },
    }
}

/// A flag that by itself makes an eMMC card critical.
pub open spec fn is_urgent_flag(f: Seq<char>) -> bool {
    f == "pre_eol_urgent"@ || f == "life_time_typ_a_exceeded"@ || f == "life_time_typ_b_exceeded"@
}

/// Whether a life-time estimate is present and satisfies `p`.
pub open spec fn estimate_over(v: Option<u8>, limit: u8) -> bool {
    v matches Some(p) && p > limit
}

pub open spec fn estimate_at(v: Option<u8>, limit: u8) -> bool {
    v matches Some(p) && p == limit
}

/// The verdict on an eMMC or SD card: nothing is known unless its telemetry
/// was read; pre-EOL "urgent", an estimate over 100% or an urgent flag is
/// critical; pre-EOL "warning", an estimate at 100% or any other flag is a
/// warning; pre-EOL "normal" or any estimate is healthy; nothing is unknown.
pub open spec fn mmc_health_spec(telemetry: TelemetryStatus, health: MmcHealth) -> HealthState {
    let flags = strings_view(health.warning_flags@);
    let a = health.life_time_est_a_percent;
    let b = health.life_time_est_b_percent;
    if telemetry.state != TelemetryReadState::Available {
        HealthState::Unknown
    } else if health.pre_eol_info == 3 || estimate_over(a, 100) || estimate_over(b, 100) || (
    exists|i: int| 0 <= i < flags.len() && is_urgent_flag(#[trigger] flags[i])) {
        HealthState::Critical
    } else if health.pre_eol_info == 2 || estimate_at(a, 100) || estimate_at(b, 100)
        || flags.len() != 0 {
        HealthState::Warning
    } else if health.pre_eol_info == 1 || a is Some || b is Some {
        HealthState::Healthy
    } else {
        HealthState::Unknown
    }
}

fn has_urgent_flag(flags: &Vec<String>) -> (r: bool)
    ensures
        r == exists|i: int|
            0 <= i < flags@.len() && is_urgent_flag(#[trigger] strings_view(flags@)[i]),
{
    let mut i: usize = 0;
    while i < flags.len()
        invariant
            i <= flags.len(),
            forall|j: int| 0 <= j < i ==> !is_urgent_flag(#[trigger] strings_view(flags@)[j]),
        decreases flags.len() - i,
    {
        let f = crate::text::chars_of(flags[i].as_str());
        assert(strings_view(flags@)[i as int] == f@);
        if eq_str(&f, "pre_eol_urgent") || eq_str(&f, "life_time_typ_a_exceeded") || eq_str(
            &f,
            "life_time_typ_b_exceeded",
        ) {
            return true;
        }
        i = i + 1;
    }
    false
}

pub fn mmc_health_state(telemetry: &TelemetryStatus, health: &MmcHealth) -> (r: HealthState)
    ensures
        r == mmc_health_spec(*telemetry, *health),
{
    if telemetry.state != TelemetryReadState::Available {
        return HealthState::Unknown;
    }
    let a = health.life_time_est_a_percent;
    let b = health.life_time_est_b_percent;
    let exceeded = (match a {
        Some(p) => p > 100,
        None => false,
    }) || (match b {
        Some(p) => p > 100,
        None => false,
    });
    let at_limit = (match a {
        Some(p) => p == 100,
        None => false,
    }) || (match b {
        Some(p) => p == 100,
        None => false,
    });
    let urgent_flag = has_urgent_flag(&health.warning_flags);
    if health.pre_eol_info == 3 || exceeded || urgent_flag {
        return HealthState::Critical;
    }
    if health.pre_eol_info == 2 || at_limit || health.warning_flags.len() != 0 {
        return HealthState::Warning;
    }
    if health.pre_eol_info == 1 || a.is_some() || b.is_some() {
        return HealthState::Healthy;
    }
    HealthState::Unknown
}


/// Missing data is never healthy: a device whose telemetry was not read,
/// or an NVMe controller without a SMART log, is of unknown health.
pub proof fn law_missing_data_is_never_healthy(
    telemetry: TelemetryStatus,
    smart: Option<NvmeSmartLog>,
    health: MmcHealth,
)
    ensures
        telemetry.state != TelemetryReadState::Available ==> nvme_health_spec(telemetry, smart)
            == HealthState::Unknown && mmc_health_spec(telemetry, health) == HealthState::Unknown,
        smart is None ==> nvme_health_spec(telemetry, smart) == HealthState::Unknown,
{
}

/// Any critical-warning bit of a read SMART log, known or not, makes the
/// controller critical.
pub proof fn law_any_critical_bit_is_critical(telemetry: TelemetryStatus, smart: NvmeSmartLog)
    requires
        telemetry.state == TelemetryReadState::Available,
        smart.critical_warning != 0,
    ensures
        nvme_health_spec(telemetry, Some(smart)) == HealthState::Critical,
{
}

/// The two life-time estimates of an eMMC card count alike: swapping
/// them does not change the verdict.
pub proof fn law_mmc_health_is_symmetric(telemetry: TelemetryStatus, health: MmcHealth)
    ensures
        mmc_health_spec(telemetry, health) == mmc_health_spec(
            telemetry,
            (MmcHealth {
                pre_eol_info: health.pre_eol_info,
                life_time_est_a_percent: health.life_time_est_b_percent,
                life_time_est_b_percent: health.life_time_est_a_percent,
                warning_flags: health.warning_flags,
            }),
        ),
{
}

} // verus!
