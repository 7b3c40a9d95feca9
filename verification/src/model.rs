//! The records of a printer: its configuration, its live state and what the
//! live state holds, each with the model that contracts speak of.

use vstd::prelude::*;

verus! {

/// The model of an optional text.
pub open spec fn text_view(text: Option<String>) -> Option<Seq<char>> {
    match text {
        Some(s) => Some(s@),
        None => None,
    }
}

/// A copy of an optional text.
pub fn clone_text(text: &Option<String>) -> (r: Option<String>)
    ensures
        text_view(r) == text_view(*text),
{
    match text {
        Some(s) => Some(s.clone()),
        None => None,
    }
}

/// How a printer is reached. The `id` is its key and never changes.
#[derive(Debug, PartialEq, Eq)]
pub struct PrinterConfig {
    pub id: String,
    pub name: String,
    pub model: String,
    pub ip: String,
    pub access_code: String,
    pub serial: String,
}

/// The model of a `PrinterConfig`.
pub struct PrinterConfigView {
    pub id: Seq<char>,
    pub name: Seq<char>,
    pub model: Seq<char>,
    pub ip: Seq<char>,
    pub access_code: Seq<char>,
    pub serial: Seq<char>,
}

impl View for PrinterConfig {
    type V = PrinterConfigView;

    open spec fn view(&self) -> PrinterConfigView {
        PrinterConfigView {
            id: self.id@,
            name: self.name@,
            model: self.model@,
            ip: self.ip@,
            access_code: self.access_code@,
            serial: self.serial@,
        }
    }
}

impl Clone for PrinterConfig {
    fn clone(&self) -> (r: Self)
        ensures
            r@ == self@,
    {
        PrinterConfig {
            id: self.id.clone(),
            name: self.name.clone(),
            model: self.model.clone(),
            ip: self.ip.clone(),
            access_code: self.access_code.clone(),
            serial: self.serial.clone(),
        }
    }
}

/// Temperatures in whole degrees Celsius.
#[derive(Clone, Copy, Debug, PartialEq, Eq, Structural)]
pub struct PrinterTemperatures {
    pub nozzle: i32,
    pub bed: i32,
    pub chamber: i32,
}

/// What a printer is doing.
#[derive(Clone, Copy, Debug, PartialEq, Eq, Structural)]
pub enum PrinterStatus {
    Idle,
    Printing,
    Paused,
    Error,
    Offline,
    Connecting,
}

/// The job that a printer works on.
#[derive(Debug, PartialEq, Eq)]
pub struct PrintJob {
    /// Progress in thousandths of a percent, from 0 to 100 000.
    pub progress: u32,
    /// Seconds left.
    pub time_remaining: i64,
    /// Seconds that the whole job takes, where they can be estimated.
    pub estimated_total_time: Option<i64>,
    pub file_name: String,
    pub print_type: Option<String>,
    pub layer_current: i32,
    pub layer_total: i32,
    pub speed_level: Option<i32>,
    pub fan_speed: Option<i32>,
    pub stage: Option<i32>,
    pub lifecycle: Option<String>,
}

/// The model of a `PrintJob`.
pub struct PrintJobView {
    pub progress: u32,
    pub time_remaining: i64,
    pub estimated_total_time: Option<i64>,
    pub file_name: Seq<char>,
    pub print_type: Option<Seq<char>>,
    pub layer_current: i32,
    pub layer_total: i32,
    pub speed_level: Option<i32>,
    pub fan_speed: Option<i32>,
    pub stage: Option<i32>,
    pub lifecycle: Option<Seq<char>>,
}

impl View for PrintJob {
    type V = PrintJobView;

    open spec fn view(&self) -> PrintJobView {
        PrintJobView {
            progress: self.progress,
            time_remaining: self.time_remaining,
            estimated_total_time: self.estimated_total_time,
            file_name: self.file_name@,
            print_type: text_view(self.print_type),
            layer_current: self.layer_current,
            layer_total: self.layer_total,
            speed_level: self.speed_level,
            fan_speed: self.fan_speed,
            stage: self.stage,
            lifecycle: text_view(self.lifecycle),
        }
    }
}

impl Clone for PrintJob {
    fn clone(&self) -> (r: Self)
        ensures
            r@ == self@,
    {
        PrintJob {
            progress: self.progress,
            time_remaining: self.time_remaining,
            estimated_total_time: self.estimated_total_time,
            file_name: self.file_name.clone(),
            print_type: clone_text(&self.print_type),
            layer_current: self.layer_current,
            layer_total: self.layer_total,
            speed_level: self.speed_level,
            fan_speed: self.fan_speed,
            stage: self.stage,
            lifecycle: clone_text(&self.lifecycle),
        }
    }
}

/// The filament that a printer is loaded with.
#[derive(Debug, PartialEq, Eq)]
pub struct FilamentInfo {
    pub kind: String,
    pub color: String,
    /// What is left of the spool, in thousandths of a percent.
    pub remaining: u32,
}

/// The model of a `FilamentInfo`.
pub struct FilamentInfoView {
    pub kind: Seq<char>,
    pub color: Seq<char>,
    pub remaining: u32,
}

impl View for FilamentInfo {
    type V = FilamentInfoView;

    open spec fn view(&self) -> FilamentInfoView {
        FilamentInfoView { kind: self.kind@, color: self.color@, remaining: self.remaining }
    }
}

impl Clone for FilamentInfo {
    fn clone(&self) -> (r: Self)
        ensures
            r@ == self@,
    {
        FilamentInfo { kind: self.kind.clone(), color: self.color.clone(), remaining: self.remaining }
    }
}

/// A fault that a printer reports.
#[derive(Debug, PartialEq, Eq)]
pub struct PrinterError {
    pub print_error: i32,
    pub error_code: i32,
    pub stage: i32,
    pub lifecycle: String,
    pub gcode_state: String,
    pub message: String,
}

/// The model of a `PrinterError`.
pub struct PrinterErrorView {
    pub print_error: i32,
    pub error_code: i32,
    pub stage: i32,
    pub lifecycle: Seq<char>,
    pub gcode_state: Seq<char>,
    pub message: Seq<char>,
}

impl View for PrinterError {
    type V = PrinterErrorView;

    open spec fn view(&self) -> PrinterErrorView {
        PrinterErrorView {
            print_error: self.print_error,
            error_code: self.error_code,
            stage: self.stage,
            lifecycle: self.lifecycle@,
            gcode_state: self.gcode_state@,
            message: self.message@,
        }
    }
}

impl Clone for PrinterError {
    fn clone(&self) -> (r: Self)
        ensures
            r@ == self@,
    {
        PrinterError {
            print_error: self.print_error,
            error_code: self.error_code,
            stage: self.stage,
            lifecycle: self.lifecycle.clone(),
            gcode_state: self.gcode_state.clone(),
            message: self.message.clone(),
        }
    }
}

/// The model of an optional job.
pub open spec fn job_view(job: Option<PrintJob>) -> Option<PrintJobView> {
    match job {
        Some(j) => Some(j@),
        None => None,
    }
}

/// The model of an optional filament.
pub open spec fn filament_view(filament: Option<FilamentInfo>) -> Option<FilamentInfoView> {
    match filament {
        Some(f) => Some(f@),
        None => None,
    }
}

/// The model of an optional fault.
pub open spec fn fault_view(fault: Option<PrinterError>) -> Option<PrinterErrorView> {
    match fault {
        Some(e) => Some(e@),
        None => None,
    }
}

/// The live state of a registered printer.
#[derive(Debug, PartialEq, Eq)]
pub struct Printer {
    pub id: String,
    pub name: String,
    pub model: String,
    pub ip: String,
    pub access_code: String,
    pub serial: String,
    pub status: PrinterStatus,
    pub online: bool,
    pub connection_state: String,
    pub temperatures: PrinterTemperatures,
    pub print: Option<PrintJob>,
    pub filament: Option<FilamentInfo>,
    pub error: Option<PrinterError>,
    /// When the state last changed, in milliseconds since the Unix epoch.
    pub last_update: i64,
}

/// The model of a `Printer`.
pub struct PrinterView {
    pub id: Seq<char>,
    pub name: Seq<char>,
    pub model: Seq<char>,
    pub ip: Seq<char>,
    pub access_code: Seq<char>,
    pub serial: Seq<char>,
    pub status: PrinterStatus,
    pub online: bool,
    pub connection_state: Seq<char>,
    pub temperatures: PrinterTemperatures,
    pub print: Option<PrintJobView>,
    pub filament: Option<FilamentInfoView>,
    pub error: Option<PrinterErrorView>,
    pub last_update: i64,
}

impl View for Printer {
    type V = PrinterView;

    open spec fn view(&self) -> PrinterView {
        PrinterView {
            id: self.id@,
            name: self.name@,
            model: self.model@,
            ip: self.ip@,
            access_code: self.access_code@,
            serial: self.serial@,
            status: self.status,
            online: self.online,
            connection_state: self.connection_state@,
            temperatures: self.temperatures,
            print: job_view(self.print),
            filament: filament_view(self.filament),
            error: fault_view(self.error),
            last_update: self.last_update,
        }
    }
}

impl Clone for Printer {
    fn clone(&self) -> (r: Self)
        ensures
            r@ == self@,
    {
        Printer {
            id: self.id.clone(),
            name: self.name.clone(),
            model: self.model.clone(),
            ip: self.ip.clone(),
            access_code: self.access_code.clone(),
            serial: self.serial.clone(),
            status: self.status,
            online: self.online,
            connection_state: self.connection_state.clone(),
            temperatures: self.temperatures,
            print: match &self.print {
                Some(j) => Some(j.clone()),
                None => None,
            },
            filament: match &self.filament {
                Some(f) => Some(f.clone()),
                None => None,
            },
            error: match &self.error {
                Some(e) => Some(e.clone()),
                None => None,
            },
            last_update: self.last_update,
        }
    }
}

/// A control command for a printer.
#[derive(Debug, PartialEq, Eq)]
pub struct PrintCommand {
    pub action: String,
}

impl View for PrintCommand {
    type V = Seq<char>;

    open spec fn view(&self) -> Seq<char> {
        self.action@
    }
}

impl Clone for PrintCommand {
    fn clone(&self) -> (r: Self)
        ensures
            r@ == self@,
    {
        PrintCommand { action: self.action.clone() }
    }
}

} // verus!
