//! The print job that the signals describe.

use vstd::prelude::*;
use vstd::string::StringExecFns;
use crate::model::{PrintJob, PrintJobView, PrinterStatus, clone_text, job_view};
use crate::number::clip;
use crate::signals::{Signals, SignalsView, clip_i32, clip_i32_opt, saturate_i32, saturate_i32_opt};
use crate::text::text_eq;

verus! {

/// Full progress, in thousandths of a percent.
pub const FULL_PROGRESS: i64 = 100_000;

/// Whether a job is reported: the printer prints or pauses, or a sign of a
/// job is there (time left, a layer, a percentage, the device's own word).
pub open spec fn job_is_reported(status: PrinterStatus, s: SignalsView) -> bool {
    ||| status == PrinterStatus::Printing
    ||| status == PrinterStatus::Paused
    ||| s.remaining_minutes > 0
    ||| s.layer_num > 0
    ||| s.percent.positive
    ||| s.print_real == 1
}

/// Minutes as seconds, held within the range of `i64`.
pub open spec fn seconds_of(minutes: i64) -> i64 {
    clip(minutes * 60, i64::MIN as int, i64::MAX as int) as i64
}

/// The share of the layers that are done, in thousandths of a percent,
/// rounded down.
pub open spec fn layer_share(current: i32, total: i32) -> int
    recommends
        current > 0,
        total > 0,
{
    (current * FULL_PROGRESS) / (total as int)
}

/// The progress of the job in thousandths of a percent, within 0 and 100
/// percent. The reported percentage, rounded to thousandths, stands where it
/// lies in (0, 100]; where it is zero, the share of the layers that are done
/// stands in; in every other case the progress is zero.
///
/// An estimate from the times would stand in only for a percentage of zero,
/// and there is a total time only for a positive percentage: it never
/// applies.
pub open spec fn progress_of(s: SignalsView) -> u32 {
    let current = clip_i32(s.layer_num);
    let total = clip_i32(s.total_layers);
    if s.percent.positive && s.percent.at_most_full {
        clip(s.percent.thousandths as int, 0, FULL_PROGRESS as int) as u32
    } else if s.percent.zero && current > 0 && total > 0 {
        clip(layer_share(current, total), 0, FULL_PROGRESS as int) as u32
    } else {
        0
    }
}

/// `a / b` rounded to the nearest integer, a half going up.
pub open spec fn rounded_quotient(a: int, b: int) -> int
    recommends
        a >= 0,
        b > 0,
{
    (2 * a + b) / (2 * b)
}

/// The size of an integer.
pub open spec fn size_of(x: int) -> int {
    if x < 0 {
        -x
    } else {
        x
    }
}

/// The time that the whole job takes, from the seconds left and the
/// percentage done, given in thousandths of a percent:
/// `seconds / (1 - percent / 100)`, rounded to the nearest second, a half
/// going away from zero, and held within the range of `i64`. At 100 percent
/// the quotient has no bound: it is the largest value for seconds above
/// zero, the smallest for seconds below zero, and zero for no seconds.
/// Above 100 percent the sign turns.
pub open spec fn total_time(seconds: i64, percent: i64) -> i64 {
    let rest = FULL_PROGRESS - percent;
    if rest == 0 {
        if seconds > 0 {
            i64::MAX
        } else if seconds < 0 {
            i64::MIN
        } else {
            0
        }
    } else {
        let size = rounded_quotient(size_of(seconds as int) * FULL_PROGRESS, size_of(rest));
        clip(
            if (seconds < 0) != (rest < 0) {
                -size
            } else {
                size
            },
            i64::MIN as int,
            i64::MAX as int,
        ) as i64
    }
}

/// The estimated total time: there is one where both the percentage and the
/// minutes left are positive. It goes by the percentage rounded to
/// thousandths.
pub open spec fn estimated_total_time_of(s: SignalsView) -> Option<i64> {
    if s.percent.positive && s.remaining_minutes > 0 {
        Some(total_time(seconds_of(s.remaining_minutes), s.percent.thousandths))
    } else {
        None
    }
}

/// The name of the job's file: the job name, or `Unknown` where that is
/// empty or `undefined`.
pub open spec fn file_name_of(job_name: Seq<char>) -> Seq<char> {
    if job_name.len() > 0 && job_name != "undefined"@ {
        job_name
    } else {
        "Unknown"@
    }
}

/// The job that the signals describe.
pub open spec fn print_job_of(s: SignalsView) -> PrintJobView {
    PrintJobView {
        progress: progress_of(s),
        time_remaining: seconds_of(s.remaining_minutes),
        estimated_total_time: estimated_total_time_of(s),
        file_name: file_name_of(s.job_name),
        print_type: s.print_type,
        layer_current: clip_i32(s.layer_num),
        layer_total: clip_i32(s.total_layers),
        speed_level: clip_i32_opt(s.speed_level),
        fan_speed: clip_i32_opt(s.fan_level),
        stage: clip_i32_opt(s.stage),
        lifecycle: s.lifecycle,
    }
}

/// The job of a printer in `status` with signals `s`, if one is reported.
pub open spec fn reported_job(status: PrinterStatus, s: SignalsView) -> Option<PrintJobView> {
    if job_is_reported(status, s) {
        Some(print_job_of(s))
    } else {
        None
    }
}

/// Progress never leaves the range from 0 to 100 percent, whatever the
/// percentage, the layers and the times say.
pub proof fn lemma_progress_is_clamped(s: SignalsView)
    ensures
        0 <= progress_of(s) <= FULL_PROGRESS,
{
}

/// Minutes as seconds, held within the range of `i64`.
pub fn to_seconds(minutes: i64) -> (r: i64)
    ensures
        r == seconds_of(minutes),
{
    let wide: i128 = (minutes as i128) * 60;
    if wide > i64::MAX as i128 {
        i64::MAX
    } else if wide < i64::MIN as i128 {
        i64::MIN
    } else {
        wide as i64
    }
}

/// The progress of the job in thousandths of a percent.
pub fn progress(s: &Signals) -> (r: u32)
    ensures
        r == progress_of(s@),
        r <= FULL_PROGRESS,
{
    let current: i32 = saturate_i32(s.layer_num);
    let total: i32 = saturate_i32(s.total_layers);
    if s.percent.positive && s.percent.at_most_full {
        if s.percent.thousandths > FULL_PROGRESS {
            FULL_PROGRESS as u32
        } else if s.percent.thousandths < 0 {
            0
        } else {
            s.percent.thousandths as u32
        }
    } else if s.percent.zero && current > 0 && total > 0 {
        let share: i64 = (current as i64 * FULL_PROGRESS) / (total as i64);
        if share > FULL_PROGRESS {
            FULL_PROGRESS as u32
        } else {
            share as u32
        }
    } else {
        0
    }
}

/// `a / b` rounded to the nearest integer, a half going up.
fn rounded_division(a: i128, b: i128) -> (r: i128)
    requires
        0 <= a <= 0x8000_0000_0000_0000 * 100_000,
        0 < b <= 0xffff_ffff_ffff_ffff,
    ensures
        r == rounded_quotient(a as int, b as int),
        0 <= r <= 2 * a + b,
{
    proof {
        lemma_quotient_bounds(2 * a + b, 2 * b);
    }
    (2 * a + b) / (2 * b)
}

/// A quotient of a non-negative number by a positive one lies between zero
/// and the number.
proof fn lemma_quotient_bounds(x: int, d: int)
    by (nonlinear_arith)
    requires
        0 <= x,
        0 < d,
    ensures
        0 <= x / d <= x,
{
}

/// The time that the whole job takes, from the seconds left and the
/// percentage done.
pub fn estimate_total_time(seconds: i64, percent: i64) -> (r: i64)
    ensures
        r == total_time(seconds, percent),
{
    let rest: i128 = FULL_PROGRESS as i128 - percent as i128;
    if rest == 0 {
        if seconds > 0 {
            i64::MAX
        } else if seconds < 0 {
            i64::MIN
        } else {
            0
        }
    } else {
        let wide: i128 = seconds as i128;
        let scaled: i128 = if wide < 0 {
            -wide * 100_000
        } else {
            wide * 100_000
        };
        let divisor: i128 = if rest < 0 {
            -rest
        } else {
            rest
        };
        let size: i128 = rounded_division(scaled, divisor);
        if (seconds < 0) != (rest < 0) {
            if size > 0x8000_0000_0000_0000 {
                i64::MIN
            } else {
                (-size) as i64
            }
        } else {
            if size > i64::MAX as i128 {
                i64::MAX
            } else {
                size as i64
            }
        }
    }
}

/// The name of the job's file.
pub fn file_name(job_name: &str) -> (r: String)
    ensures
        r@ == file_name_of(job_name@),
{
    if job_name.unicode_len() > 0 && !text_eq(job_name, "undefined") {
        String::from_str(job_name)
    } else {
        String::from_str("Unknown")
    }
}

/// The job that the signals describe.
pub fn print_job(s: &Signals) -> (r: PrintJob)
    ensures
        r@ == print_job_of(s@),
        r.progress <= FULL_PROGRESS,
{
    let seconds: i64 = to_seconds(s.remaining_minutes);
    let estimated: Option<i64> = if s.percent.positive && s.remaining_minutes > 0 {
        Some(estimate_total_time(seconds, s.percent.thousandths))
    } else {
        None
    };
    PrintJob {
        progress: progress(s),
        time_remaining: seconds,
        estimated_total_time: estimated,
        file_name: file_name(s.job_name.as_str()),
        print_type: clone_text(&s.print_type),
        layer_current: saturate_i32(s.layer_num),
        layer_total: saturate_i32(s.total_layers),
        speed_level: saturate_i32_opt(s.speed_level),
        fan_speed: saturate_i32_opt(s.fan_level),
        stage: saturate_i32_opt(s.stage),
        lifecycle: clone_text(&s.lifecycle),
    }
}

/// The job of a printer in `status` with signals `s`, if one is reported.
pub fn job_report(status: PrinterStatus, s: &Signals) -> (r: Option<PrintJob>)
    ensures
        job_view(r) == reported_job(status, s@),
        r matches Some(job) ==> job.progress <= FULL_PROGRESS,
{
    let reported = match status {
        PrinterStatus::Printing | PrinterStatus::Paused => true,
        _ => s.remaining_minutes > 0 || s.layer_num > 0 || s.percent.positive || s.print_real == 1,
    };
    if reported {
        Some(print_job(s))
    } else {
        None
    }
}

} // verus!
