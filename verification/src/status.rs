//! The status classifier's decisions: the indicators, the indicator bundle,
//! the table of print-engine states and the transition guard.

use vstd::prelude::*;
use crate::merge::{is_placeholder_name, placeholder_name};
use crate::model::{PrinterStatus, PrinterTemperatures};
use crate::signals::{Signals, SignalsView, or_zero};
use crate::text::text_eq;

verus! {

/// The indicators that the decisions rest on.
#[derive(Clone, Copy, Debug, PartialEq, Eq, Structural)]
pub struct Indicators {
    /// Time is left, or a layer is under way short of 100 percent.
    pub active_job: bool,
    /// The percentage lies strictly between 0 and 100.
    pub progress: bool,
    /// The stage is 1, 2 or 3.
    pub in_print_stage: bool,
    pub stage: i64,
    /// The nozzle is above 150 degrees or the bed above 40.
    pub high_temp: bool,
    pub fan_active: bool,
    /// The job has a name that is no placeholder.
    pub has_job_name: bool,
    pub remaining_minutes: i64,
    pub layer_num: i64,
    pub nozzle: i32,
}

/// The indicators that signals and temperatures give.
pub open spec fn indicators_of(s: SignalsView, t: PrinterTemperatures) -> Indicators {
    let stage = or_zero(s.stage);
    Indicators {
        active_job: s.remaining_minutes > 0 || (s.layer_num > 0 && s.percent.below_full),
        progress: s.percent.positive && s.percent.below_full,
        in_print_stage: stage == 1 || stage == 2 || stage == 3,
        stage: stage,
        high_temp: t.nozzle > 150 || t.bed > 40,
        fan_active: or_zero(s.fan_level) > 0,
        has_job_name: !is_placeholder_name(s.job_name),
        remaining_minutes: s.remaining_minutes,
        layer_num: s.layer_num,
        nozzle: t.nozzle,
    }
}

/// The status that the indicator bundle gives: the first rule that holds
/// decides, and where none holds the printer is idle.
pub open spec fn bundle_status(i: Indicators) -> PrinterStatus {
    if i.active_job && (i.progress || i.in_print_stage) {
        PrinterStatus::Printing
    } else if i.in_print_stage && i.stage == 2 {
        PrinterStatus::Paused
    } else if i.in_print_stage && i.stage == 3 {
        PrinterStatus::Error
    } else if i.high_temp && i.active_job && (i.fan_active || i.has_job_name) {
        PrinterStatus::Printing
    } else if i.nozzle > 200 && i.fan_active && (i.has_job_name || i.progress) {
        PrinterStatus::Printing
    } else if i.has_job_name && i.progress {
        PrinterStatus::Printing
    } else if i.remaining_minutes > 0 && i.layer_num > 0 {
        PrinterStatus::Printing
    } else if i.high_temp && i.fan_active {
        PrinterStatus::Printing
    } else {
        PrinterStatus::Idle
    }
}

/// A sign of activity that outweighs a reported idle state: an active job,
/// progress, or heat together with a running fan.
pub open spec fn shows_activity(i: Indicators) -> bool {
    i.active_job || i.progress || (i.high_temp && i.fan_active)
}

/// The status that a reported print-engine state gives.
pub open spec fn gcode_status(state: Seq<char>, i: Indicators) -> PrinterStatus {
    if state == "RUNNING"@ || state == "PRINTING"@ || state == "PREPARE"@ || state == "WORKING"@
        || state == "SLICING"@ || state == "PRINTING_MONITOR"@ {
        PrinterStatus::Printing
    } else if state == "PAUSE"@ || state == "PAUSED"@ {
        PrinterStatus::Paused
    } else if state == "FAILED"@ || state == "ERROR"@ {
        PrinterStatus::Error
    } else if state == "FINISH"@ || state == "FINISHED"@ {
        PrinterStatus::Idle
    } else if state == "IDLE"@ {
        if shows_activity(i) {
            PrinterStatus::Printing
        } else {
            PrinterStatus::Idle
        }
    } else {
        bundle_status(i)
    }
}

/// The status that the signals speak for, before the transition guard: a
/// print error first, then the device's own word that it prints, then its
/// print-engine state, and the indicator bundle where it reports none.
pub open spec fn candidate_status(s: SignalsView, i: Indicators) -> PrinterStatus {
    if s.print_error > 0 {
        PrinterStatus::Error
    } else if s.print_real == 1 {
        PrinterStatus::Printing
    } else {
        match s.gcode_state {
            Some(state) => gcode_status(state, i),
            None => bundle_status(i),
        }
    }
}

/// Whether a status is one that any transition may enter or leave.
pub open spec fn is_unguarded(status: PrinterStatus) -> bool {
    status == PrinterStatus::Error || status == PrinterStatus::Offline || status
        == PrinterStatus::Connecting
}

/// What lets an idle printer count as printing.
pub open spec fn start_is_corroborated(s: SignalsView, i: Indicators) -> bool {
    i.active_job || i.progress || s.print_real == 1 || (i.high_temp && i.fan_active)
}

/// What lets a printing printer count as idle.
pub open spec fn completion_is_signalled(s: SignalsView, i: Indicators) -> bool {
    ||| !s.percent.below_full
    ||| (s.remaining_minutes == 0 && s.layer_num == 0)
    ||| (!i.high_temp && !i.fan_active && !i.active_job)
}

/// Whether the step from `previous` to `candidate` is taken.
pub open spec fn transition_allowed(
    previous: PrinterStatus,
    candidate: PrinterStatus,
    s: SignalsView,
    i: Indicators,
) -> bool {
    if is_unguarded(previous) || is_unguarded(candidate) {
        true
    } else if previous == PrinterStatus::Idle && candidate == PrinterStatus::Printing {
        start_is_corroborated(s, i)
    } else if previous == PrinterStatus::Printing && candidate == PrinterStatus::Idle {
        completion_is_signalled(s, i)
    } else {
        true
    }
}

/// The status after the transition guard: the candidate where the step is
/// taken, and else the previous status.
pub open spec fn guarded_status(
    previous: PrinterStatus,
    candidate: PrinterStatus,
    s: SignalsView,
    i: Indicators,
) -> PrinterStatus {
    if transition_allowed(previous, candidate, s, i) {
        candidate
    } else {
        previous
    }
}

/// The guard changes nothing but the two steps between idle and printing:
/// where it holds a step back, the previous status is one of those two and
/// the candidate the other.
pub proof fn lemma_guard_holds_only_idle_and_printing(
    previous: PrinterStatus,
    candidate: PrinterStatus,
    s: SignalsView,
    i: Indicators,
)
    ensures
        guarded_status(previous, candidate, s, i) == candidate || (previous == PrinterStatus::Idle
            && candidate == PrinterStatus::Printing && !start_is_corroborated(s, i)) || (previous
            == PrinterStatus::Printing && candidate == PrinterStatus::Idle
            && !completion_is_signalled(s, i)),
        guarded_status(previous, candidate, s, i) == candidate || guarded_status(
            previous,
            candidate,
            s,
            i,
        ) == previous,
{
}

/// Computes the indicators.
pub fn compute_indicators(s: &Signals, t: PrinterTemperatures) -> (r: Indicators)
    ensures
        r == indicators_of(s@, t),
{
    let stage: i64 = match s.stage {
        Some(x) => x,
        None => 0,
    };
    let fan: i64 = match s.fan_level {
        Some(x) => x,
        None => 0,
    };
    Indicators {
        active_job: s.remaining_minutes > 0 || (s.layer_num > 0 && s.percent.below_full),
        progress: s.percent.positive && s.percent.below_full,
        in_print_stage: stage == 1 || stage == 2 || stage == 3,
        stage: stage,
        high_temp: t.nozzle > 150 || t.bed > 40,
        fan_active: fan > 0,
        has_job_name: !placeholder_name(s.job_name.as_str()),
        remaining_minutes: s.remaining_minutes,
        layer_num: s.layer_num,
        nozzle: t.nozzle,
    }
}

/// The status that the indicator bundle gives.
pub fn determine_status_from_indicators(i: &Indicators) -> (r: PrinterStatus)
    ensures
        r == bundle_status(*i),
{
    if i.active_job && (i.progress || i.in_print_stage) {
        PrinterStatus::Printing
    } else if i.in_print_stage && i.stage == 2 {
        PrinterStatus::Paused
    } else if i.in_print_stage && i.stage == 3 {
        PrinterStatus::Error
    } else if i.high_temp && i.active_job && (i.fan_active || i.has_job_name) {
        PrinterStatus::Printing
    } else if i.nozzle > 200 && i.fan_active && (i.has_job_name || i.progress) {
        PrinterStatus::Printing
    } else if i.has_job_name && i.progress {
        PrinterStatus::Printing
    } else if i.remaining_minutes > 0 && i.layer_num > 0 {
        PrinterStatus::Printing
    } else if i.high_temp && i.fan_active {
        PrinterStatus::Printing
    } else {
        PrinterStatus::Idle
    }
}

/// The status that a reported print-engine state gives.
pub fn status_of_gcode_state(state: &str, i: &Indicators) -> (r: PrinterStatus)
    ensures
        r == gcode_status(state@, *i),
{
    if text_eq(state, "RUNNING") || text_eq(state, "PRINTING") || text_eq(state, "PREPARE")
        || text_eq(state, "WORKING") || text_eq(state, "SLICING") || text_eq(
        state,
        "PRINTING_MONITOR",
    ) {
        PrinterStatus::Printing
    } else if text_eq(state, "PAUSE") || text_eq(state, "PAUSED") {
        PrinterStatus::Paused
    } else if text_eq(state, "FAILED") || text_eq(state, "ERROR") {
        PrinterStatus::Error
    } else if text_eq(state, "FINISH") || text_eq(state, "FINISHED") {
        PrinterStatus::Idle
    } else if text_eq(state, "IDLE") {
        if i.active_job || i.progress || (i.high_temp && i.fan_active) {
            PrinterStatus::Printing
        } else {
            PrinterStatus::Idle
        }
    } else {
        determine_status_from_indicators(i)
    }
}

/// The status that the signals speak for, before the transition guard.
pub fn candidate(s: &Signals, i: &Indicators) -> (r: PrinterStatus)
    ensures
        r == candidate_status(s@, *i),
{
    if s.print_error > 0 {
        PrinterStatus::Error
    } else if s.print_real == 1 {
        PrinterStatus::Printing
    } else {
        match &s.gcode_state {
            Some(state) => status_of_gcode_state(state.as_str(), i),
            None => determine_status_from_indicators(i),
        }
    }
}

/// Whether a status is one that any transition may enter or leave.
fn unguarded(status: PrinterStatus) -> (r: bool)
    ensures
        r == is_unguarded(status),
{
    match status {
        PrinterStatus::Error | PrinterStatus::Offline | PrinterStatus::Connecting => true,
        _ => false,
    }
}

/// Applies the transition guard to a candidate status.
pub fn guard(previous: PrinterStatus, candidate: PrinterStatus, s: &Signals, i: &Indicators) -> (r:
    PrinterStatus)
    ensures
        r == guarded_status(previous, candidate, s@, *i),
{
    let allowed = if unguarded(previous) || unguarded(candidate) {
        true
    } else {
        match (previous, candidate) {
            (PrinterStatus::Idle, PrinterStatus::Printing) => i.active_job || i.progress
                || s.print_real == 1 || (i.high_temp && i.fan_active),
            (PrinterStatus::Printing, PrinterStatus::Idle) => !s.percent.below_full || (
            s.remaining_minutes == 0 && s.layer_num == 0) || (!i.high_temp && !i.fan_active
                && !i.active_job),
            _ => true,
        }
    };
    if allowed {
        candidate
    } else {
        previous
    }
}

} // verus!
