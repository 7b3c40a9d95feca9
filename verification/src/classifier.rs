//! The status classifier: from the accumulated `print` subtree, the current
//! temperatures and the previous status to the new temperatures, the new
//! status, the job and the fault.

use vstd::prelude::*;
use crate::fault::{fault_report, reported_fault, reports_fault, error_message_of};
use crate::job::{FULL_PROGRESS, job_report, reported_job};
use crate::model::{
    PrintJob, PrintJobView, PrinterError, PrinterErrorView, PrinterStatus, PrinterTemperatures,
    fault_view, job_view,
};
use crate::signals::{SignalsView, clip_i32, read_signals, read_temperatures, signals_of, temperatures_of};
use crate::status::{candidate, candidate_status, compute_indicators, guard, guarded_status, indicators_of};
use crate::tree::{Json, Tree};

verus! {

/// What the classifier says of a printer.
#[derive(Debug, PartialEq, Eq)]
pub struct Classification {
    pub temperatures: PrinterTemperatures,
    pub status: PrinterStatus,
    pub print: Option<PrintJob>,
    pub error: Option<PrinterError>,
}

/// The model of a `Classification`.
pub struct ClassificationView {
    pub temperatures: PrinterTemperatures,
    pub status: PrinterStatus,
    pub print: Option<PrintJobView>,
    pub error: Option<PrinterErrorView>,
}

impl View for Classification {
    type V = ClassificationView;

    open spec fn view(&self) -> ClassificationView {
        ClassificationView {
            temperatures: self.temperatures,
            status: self.status,
            print: job_view(self.print),
            error: fault_view(self.error),
        }
    }
}

/// The status that the signals give over the previous one, after the
/// transition guard and before a fault is looked at.
pub open spec fn settled_status(s: SignalsView, t: PrinterTemperatures, previous: PrinterStatus) -> PrinterStatus {
    let i = indicators_of(s, t);
    guarded_status(previous, candidate_status(s, i), s, i)
}

/// What the classifier says of a `print` subtree, the temperatures so far
/// and the previous status.
///
/// The temperatures are read first, and the indicators rest on the new ones.
/// The job goes by the status that the guard leaves. A fault, where one is
/// reported, makes the status `Error` whatever the guard left.
pub open spec fn classification(print: Json, earlier: PrinterTemperatures, previous: PrinterStatus) -> ClassificationView {
    let t = temperatures_of(print, earlier);
    let s = signals_of(print);
    let settled = settled_status(s, t, previous);
    ClassificationView {
        temperatures: t,
        status: if reports_fault(s) {
            PrinterStatus::Error
        } else {
            settled
        },
        print: reported_job(settled, s),
        error: reported_fault(s),
    }
}

/// Classifies a printer from its accumulated `print` subtree.
pub fn classify(print: &Tree, earlier: PrinterTemperatures, previous: PrinterStatus) -> (r: Classification)
    ensures
        r@ == classification(print@, earlier, previous),
        r.print matches Some(job) ==> job.progress <= FULL_PROGRESS,
{
    let t = read_temperatures(print, earlier);
    let s = read_signals(print);
    let i = compute_indicators(&s, t);
    let wanted = candidate(&s, &i);
    let settled = guard(previous, wanted, &s, &i);
    let error = fault_report(&s);
    let status = match error {
        Some(_) => PrinterStatus::Error,
        None => settled,
    };
    Classification { temperatures: t, status: status, print: job_report(settled, &s), error: error }
}

/// The classifier is a function: equal subtrees, temperatures and previous
/// statuses give equal classifications.
pub proof fn lemma_classification_is_deterministic(
    print_a: Json,
    earlier_a: PrinterTemperatures,
    previous_a: PrinterStatus,
    print_b: Json,
    earlier_b: PrinterTemperatures,
    previous_b: PrinterStatus,
)
    requires
        print_a == print_b,
        earlier_a == earlier_b,
        previous_a == previous_b,
    ensures
        classification(print_a, earlier_a, previous_a) == classification(print_b, earlier_b, previous_b),
{
}

/// A print error comes first: where the subtree reports one, the status is
/// `Error` and a fault with its message is there, whatever else the subtree
/// says.
pub proof fn lemma_print_error_comes_first(print: Json, earlier: PrinterTemperatures, previous: PrinterStatus)
    requires
        signals_of(print).print_error > 0,
    ensures
        classification(print, earlier, previous).status == PrinterStatus::Error,
        classification(print, earlier, previous).error matches Some(fault) && fault.message
            == error_message_of(
            clip_i32(signals_of(print).print_error),
            clip_i32(signals_of(print).error_code),
        ) && fault.print_error > 0,
{
}

/// The progress of a classified job never leaves the range from 0 to 100
/// percent.
pub proof fn lemma_classified_progress_is_clamped(print: Json, earlier: PrinterTemperatures, previous: PrinterStatus)
    ensures
        classification(print, earlier, previous).print matches Some(job) ==> 0 <= job.progress
            <= FULL_PROGRESS,
{
}

} // verus!
