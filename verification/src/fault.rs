//! The fault that the signals report, and its message.

use vstd::prelude::*;
use vstd::string::StringExecFns;
use crate::model::{PrinterError, PrinterErrorView, fault_view, text_view};
use crate::signals::{Signals, SignalsView, clip_i32, or_zero, saturate_i32};
use crate::text::{decimal, decimal_text};

verus! {

/// The message for a pair of error codes. A known secondary code decides
/// first, then a known print error; any other pair is written out.
pub open spec fn error_message_of(print_error: i32, error_code: i32) -> Seq<char> {
    if error_code == 1203 {
        "Filament runout detected"@
    } else if error_code == 1204 {
        "Filament tangle detected"@
    } else if error_code == 1205 {
        "Nozzle clog detected"@
    } else if print_error == 1 {
        "Print error occurred"@
    } else if print_error == 2 {
        "Bed adhesion failure"@
    } else if print_error == 3 {
        "Temperature error"@
    } else {
        "Error: print_error="@ + decimal(print_error as int) + ", error_code="@ + decimal(
            error_code as int,
        )
    }
}

/// Whether the signals report a fault: a print error or a secondary error
/// code is set.
pub open spec fn reports_fault(s: SignalsView) -> bool {
    s.print_error > 0 || s.error_code > 0
}

/// `text`, or `Unknown` where there is none.
pub open spec fn or_unknown(text: Option<Seq<char>>) -> Seq<char> {
    match text {
        Some(t) => t,
        None => "Unknown"@,
    }
}

/// The fault that the signals describe.
pub open spec fn printer_error_of(s: SignalsView) -> PrinterErrorView {
    PrinterErrorView {
        print_error: clip_i32(s.print_error),
        error_code: clip_i32(s.error_code),
        stage: clip_i32(or_zero(s.stage)),
        lifecycle: or_unknown(s.lifecycle),
        gcode_state: or_unknown(s.gcode_state),
        message: error_message_of(clip_i32(s.print_error), clip_i32(s.error_code)),
    }
}

/// The fault of a printer with signals `s`, if they report one.
pub open spec fn reported_fault(s: SignalsView) -> Option<PrinterErrorView> {
    if reports_fault(s) {
        Some(printer_error_of(s))
    } else {
        None
    }
}

/// The message for a pair of error codes.
pub fn get_error_message(print_error: i32, error_code: i32) -> (r: String)
    ensures
        r@ == error_message_of(print_error, error_code),
{
    if error_code == 1203 {
        String::from_str("Filament runout detected")
    } else if error_code == 1204 {
        String::from_str("Filament tangle detected")
    } else if error_code == 1205 {
        String::from_str("Nozzle clog detected")
    } else if print_error == 1 {
        String::from_str("Print error occurred")
    } else if print_error == 2 {
        String::from_str("Bed adhesion failure")
    } else if print_error == 3 {
        String::from_str("Temperature error")
    } else {
        let mut r = String::from_str("Error: print_error=");
        let first = decimal_text(print_error as i64);
        r.append(first.as_str());
        r.append(", error_code=");
        let second = decimal_text(error_code as i64);
        r.append(second.as_str());
        r
    }
}

/// `text`, or `Unknown` where there is none.
fn text_or_unknown(text: &Option<String>) -> (r: String)
    ensures
        r@ == or_unknown(text_view(*text)),
{
    match text {
        Some(t) => t.clone(),
        None => String::from_str("Unknown"),
    }
}

/// The fault that the signals describe.
pub fn printer_error(s: &Signals) -> (r: PrinterError)
    ensures
        r@ == printer_error_of(s@),
{
    let print_error: i32 = saturate_i32(s.print_error);
    let error_code: i32 = saturate_i32(s.error_code);
    let stage: i64 = match s.stage {
        Some(x) => x,
        None => 0,
    };
    PrinterError {
        print_error: print_error,
        error_code: error_code,
        stage: saturate_i32(stage),
        lifecycle: text_or_unknown(&s.lifecycle),
        gcode_state: text_or_unknown(&s.gcode_state),
        message: get_error_message(print_error, error_code),
    }
}

/// The fault of a printer with signals `s`, if they report one.
pub fn fault_report(s: &Signals) -> (r: Option<PrinterError>)
    ensures
        fault_view(r) == reported_fault(s@),
{
    if s.print_error > 0 || s.error_code > 0 {
        Some(printer_error(s))
    } else {
        None
    }
}

} // verus!
