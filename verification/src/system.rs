use vstd::prelude::*;
use vstd::string::StringExecFns;
use crate::text::u64_to_dec;
use crate::text::res_view;
use crate::decimal::all_digits;
use crate::decimal::lemma_dec_rep_digits;

verus! {

/// The local system metric a step can read.
#[derive(Clone, Copy, Debug, PartialEq, Eq, Structural)]
pub enum SystemVariant {
    MemTotal,
    MemFree,
    MemAvailable,
    LoadAvg1m,
    LoadAvg5m,
    LoadAvg15m,
    DiskTotal,
    DiskFree,
}

/// Relies on sys_info::mem_info: total, free and available memory, or None
/// when the platform query fails. The values depend on the machine's state.
#[verifier::external_body]
fn probe_mem() -> (r: Option<(u64, u64, u64)>) {
    sys_info::mem_info().ok().map(|m| (m.total, m.free, m.avail))
}

/// Relies on sys_info::loadavg: the 1, 5 and 15 minute load averages written
/// as decimal text, or None when the platform query fails.
#[verifier::external_body]
fn probe_load() -> (r: Option<(String, String, String)>) {
    sys_info::loadavg().ok().map(|l| (l.one.to_string(), l.five.to_string(), l.fifteen.to_string()))
}

/// Relies on sys_info::disk_info: total and free disk space, or None when the
/// platform query fails.
#[verifier::external_body]
fn probe_disk() -> (r: Option<(u64, u64)>) {
    sys_info::disk_info().ok().map(|d| (d.total, d.free))
}

/// The fixed failure message of each metric family.
pub open spec fn metric_err_msg(v: SystemVariant) -> Seq<char> {
    match v {
        SystemVariant::MemTotal => "Could not get memory"@,
        SystemVariant::MemFree => "Could not get memory"@,
        SystemVariant::MemAvailable => "Could not get memory"@,
        SystemVariant::LoadAvg1m => "Could not get load"@,
        SystemVariant::LoadAvg5m => "Could not get load"@,
        SystemVariant::LoadAvg15m => "Could not get load"@,
        SystemVariant::DiskTotal => "Could not get disk"@,
        SystemVariant::DiskFree => "Could not get disk"@,
    }
}

/// Whether the metric is reported as a whole number (memory and disk; load
/// averages are fractional).
pub open spec fn is_whole_metric(v: SystemVariant) -> bool {
    match v {
        SystemVariant::LoadAvg1m => false,
        SystemVariant::LoadAvg5m => false,
        SystemVariant::LoadAvg15m => false,
        _ => true,
    }
}

/// What is known of a system action's result: a failure carries exactly the
/// metric family's fixed message, and a whole-number metric's success payload
/// is a nonempty run of decimal digits.
pub open spec fn system_run_ok(v: SystemVariant, rv: Result<Seq<char>, Seq<char>>) -> bool {
    match rv {
        Result::Ok(s) => is_whole_metric(v) ==> all_digits(s) && s.len() >= 1,
        Result::Err(e) => e == metric_err_msg(v),
    }
}

/// Reads the requested local metric and writes it as decimal text; a query
/// failure yields the metric family's fixed message and nothing more.
pub fn run_system(variant: &SystemVariant) -> (r: Result<String, String>)
    ensures
        system_run_ok(*variant, res_view(r)),
{
    match variant {
        SystemVariant::MemTotal => match probe_mem() {
            Option::Some(m) => {
                proof {
                    lemma_dec_rep_digits(m.0 as nat);
                }
                Result::Ok(u64_to_dec(m.0))
            },
            Option::None => Result::Err(String::from_str("Could not get memory")),
        },
        SystemVariant::MemFree => match probe_mem() {
            Option::Some(m) => {
                proof {
                    lemma_dec_rep_digits(m.1 as nat);
                }
                Result::Ok(u64_to_dec(m.1))
            },
            Option::None => Result::Err(String::from_str("Could not get memory")),
        },
        SystemVariant::MemAvailable => match probe_mem() {
            Option::Some(m) => {
                proof {
                    lemma_dec_rep_digits(m.2 as nat);
                }
                Result::Ok(u64_to_dec(m.2))
            },
            Option::None => Result::Err(String::from_str("Could not get memory")),
        },
        SystemVariant::LoadAvg1m => match probe_load() {
            Option::Some(l) => Result::Ok(l.0),
            Option::None => Result::Err(String::from_str("Could not get load")),
        },
        SystemVariant::LoadAvg5m => match probe_load() {
            Option::Some(l) => Result::Ok(l.1),
            Option::None => Result::Err(String::from_str("Could not get load")),
        },
        SystemVariant::LoadAvg15m => match probe_load() {
            Option::Some(l) => Result::Ok(l.2),
            Option::None => Result::Err(String::from_str("Could not get load")),
        },
        SystemVariant::DiskTotal => match probe_disk() {
            Option::Some(d) => {
                proof {
                    lemma_dec_rep_digits(d.0 as nat);
                }
                Result::Ok(u64_to_dec(d.0))
            },
            Option::None => Result::Err(String::from_str("Could not get disk")),
        },
        SystemVariant::DiskFree => match probe_disk() {
            Option::Some(d) => {
                proof {
                    lemma_dec_rep_digits(d.1 as nat);
                }
                Result::Ok(u64_to_dec(d.1))
            },
            Option::None => Result::Err(String::from_str("Could not get disk")),
        },
    }
}

} // verus!
