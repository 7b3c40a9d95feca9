//! What the classifier reads of the accumulated `print` subtree.

use vstd::prelude::*;
use vstd::string::StringExecFns;
use crate::model::{PrinterTemperatures, text_view};
use crate::number::{Number, clip};
use crate::tree::{Json, Tree};

verus! {

/// The text under `key`, where `print` holds a string there.
pub open spec fn text_member(print: Json, key: Seq<char>) -> Option<Seq<char>> {
    match print.get(key) {
        Some(v) => v.as_str(),
        None => None,
    }
}

/// The integer under `key`, where `print` holds one there that fits `i64`.
pub open spec fn int_member(print: Json, key: Seq<char>) -> Option<i64> {
    match print.get(key) {
        Some(v) => v.as_i64(),
        None => None,
    }
}

/// The number under `key`, where `print` holds one there.
pub open spec fn number_member(print: Json, key: Seq<char>) -> Option<Number> {
    match print.get(key) {
        Some(v) => v.as_number(),
        None => None,
    }
}

/// `v`, or zero where there is none.
pub open spec fn or_zero(v: Option<i64>) -> i64 {
    match v {
        Some(x) => x,
        None => 0,
    }
}

/// `v` held within the range of `i32`.
pub open spec fn clip_i32(v: i64) -> i32 {
    clip(v as int, i32::MIN as int, i32::MAX as int) as i32
}

/// An optional `v` held within the range of `i32`.
pub open spec fn clip_i32_opt(v: Option<i64>) -> Option<i32> {
    match v {
        Some(x) => Some(clip_i32(x)),
        None => None,
    }
}

/// A progress percentage: its value in thousandths, rounded to the nearest
/// one, beside what holds of the value itself.
#[derive(Clone, Copy, Debug, PartialEq, Eq, Structural)]
pub struct Percent {
    /// The value in thousandths of a percent, rounded to the nearest one and
    /// held within the range of `i64`.
    pub thousandths: i64,
    /// The value is zero.
    pub zero: bool,
    /// The value is above zero.
    pub positive: bool,
    /// The value is below 100.
    pub below_full: bool,
    /// The value is at most 100.
    pub at_most_full: bool,
}

/// The percentage that a number stands for.
pub open spec fn percent_of(n: Number) -> Percent {
    Percent {
        thousandths: n.spec_thousandths() as i64,
        zero: n.is_zero(),
        positive: n.is_positive(),
        below_full: n.is_below(100),
        at_most_full: n.is_at_most(100),
    }
}

/// The percentage where none is reported: zero.
pub open spec fn no_percent() -> Percent {
    Percent { thousandths: 0, zero: true, positive: false, below_full: true, at_most_full: true }
}

/// The model of `Signals`.
pub struct SignalsView {
    pub gcode_state: Option<Seq<char>>,
    pub print_real: i64,
    pub remaining_minutes: i64,
    pub percent: Percent,
    pub layer_num: i64,
    pub total_layers: i64,
    pub stage: Option<i64>,
    pub print_error: i64,
    pub error_code: i64,
    pub fan_level: Option<i64>,
    pub job_name: Seq<char>,
    pub print_type: Option<Seq<char>>,
    pub speed_level: Option<i64>,
    pub lifecycle: Option<Seq<char>>,
}

/// The signals that a `print` subtree gives. A member that is missing or of
/// another kind counts as absent; an absent count or percentage is zero and
/// an absent name is empty.
pub open spec fn signals_of(print: Json) -> SignalsView {
    SignalsView {
        gcode_state: text_member(print, "gcode_state"@),
        print_real: or_zero(int_member(print, "print_real"@)),
        remaining_minutes: or_zero(int_member(print, "mc_remaining_time"@)),
        percent: match number_member(print, "mc_percent"@) {
            Some(n) => percent_of(n),
            None => no_percent(),
        },
        layer_num: or_zero(int_member(print, "layer_num"@)),
        total_layers: or_zero(int_member(print, "total_layer_num"@)),
        stage: int_member(print, "stg_cur"@),
        print_error: or_zero(int_member(print, "print_error"@)),
        error_code: or_zero(int_member(print, "mc_print_error_code"@)),
        fan_level: int_member(print, "fan_gear"@),
        job_name: match text_member(print, "subtask_name"@) {
            Some(s) => s,
            None => Seq::empty(),
        },
        print_type: text_member(print, "print_type"@),
        speed_level: int_member(print, "spd_lvl"@),
        lifecycle: text_member(print, "lifecycle"@),
    }
}

/// The temperatures after a `print` subtree has been read: each one that the
/// subtree holds as a number, rounded to the nearest degree, and else the
/// earlier one.
pub open spec fn temperatures_of(print: Json, earlier: PrinterTemperatures) -> PrinterTemperatures {
    PrinterTemperatures {
        nozzle: match number_member(print, "nozzle_temper"@) {
            Some(n) => n.spec_nearest_i32() as i32,
            None => earlier.nozzle,
        },
        bed: match number_member(print, "bed_temper"@) {
            Some(n) => n.spec_nearest_i32() as i32,
            None => earlier.bed,
        },
        chamber: match number_member(print, "chamber_temper"@) {
            Some(n) => n.spec_nearest_i32() as i32,
            None => earlier.chamber,
        },
    }
}

/// What the classifier reads of a `print` subtree.
#[derive(Debug, PartialEq, Eq)]
pub struct Signals {
    /// The print engine's own state, where it reports one.
    pub gcode_state: Option<String>,
    /// 1 while the device says that it is printing.
    pub print_real: i64,
    /// Minutes left.
    pub remaining_minutes: i64,
    /// The reported progress percentage.
    pub percent: Percent,
    pub layer_num: i64,
    pub total_layers: i64,
    pub stage: Option<i64>,
    pub print_error: i64,
    /// The secondary error code.
    pub error_code: i64,
    pub fan_level: Option<i64>,
    pub job_name: String,
    pub print_type: Option<String>,
    pub speed_level: Option<i64>,
    pub lifecycle: Option<String>,
}

impl View for Signals {
    type V = SignalsView;

    open spec fn view(&self) -> SignalsView {
        SignalsView {
            gcode_state: text_view(self.gcode_state),
            print_real: self.print_real,
            remaining_minutes: self.remaining_minutes,
            percent: self.percent,
            layer_num: self.layer_num,
            total_layers: self.total_layers,
            stage: self.stage,
            print_error: self.print_error,
            error_code: self.error_code,
            fan_level: self.fan_level,
            job_name: self.job_name@,
            print_type: text_view(self.print_type),
            speed_level: self.speed_level,
            lifecycle: text_view(self.lifecycle),
        }
    }
}

/// `v` held within the range of `i32`.
pub fn saturate_i32(v: i64) -> (r: i32)
    ensures
        r == clip_i32(v),
{
    if v > 0x7fff_ffff {
        i32::MAX
    } else if v < -0x8000_0000 {
        i32::MIN
    } else {
        v as i32
    }
}

/// An optional `v` held within the range of `i32`.
pub fn saturate_i32_opt(v: Option<i64>) -> (r: Option<i32>)
    ensures
        r == clip_i32_opt(v),
{
    match v {
        Some(x) => Some(saturate_i32(x)),
        None => None,
    }
}

/// The text under `key`, where `print` holds a string there.
pub fn read_text(print: &Tree, key: &str) -> (r: Option<String>)
    ensures
        text_view(r) == text_member(print@, key@),
{
    match print.get(key) {
        Some(v) => match v.as_str() {
            Some(s) => Some(String::from_str(s)),
            None => None,
        },
        None => None,
    }
}

/// The integer under `key`, where `print` holds one there that fits `i64`.
pub fn read_int(print: &Tree, key: &str) -> (r: Option<i64>)
    ensures
        r == int_member(print@, key@),
{
    match print.get(key) {
        Some(v) => v.as_i64(),
        None => None,
    }
}

/// The number under `key`, where `print` holds one there.
pub fn read_number(print: &Tree, key: &str) -> (r: Option<Number>)
    ensures
        r == number_member(print@, key@),
{
    match print.get(key) {
        Some(v) => v.as_number(),
        None => None,
    }
}

/// The integer under `key`, or zero.
fn read_count(print: &Tree, key: &str) -> (r: i64)
    ensures
        r == or_zero(int_member(print@, key@)),
{
    match read_int(print, key) {
        Some(x) => x,
        None => 0,
    }
}

/// The temperature under `key` in whole degrees, or `earlier`.
fn read_degrees(print: &Tree, key: &str, earlier: i32) -> (r: i32)
    ensures
        r == match number_member(print@, key@) {
            Some(n) => n.spec_nearest_i32() as i32,
            None => earlier,
        },
{
    match read_number(print, key) {
        Some(n) => n.nearest_i32(),
        None => earlier,
    }
}

/// The percentage that a number stands for.
pub fn read_percent(n: Number) -> (r: Percent)
    ensures
        r == percent_of(n),
{
    Percent {
        thousandths: n.thousandths(),
        zero: n.zero(),
        positive: n.positive(),
        below_full: n.below(100),
        at_most_full: n.at_most(100),
    }
}

/// Reads the signals of a `print` subtree.
pub fn read_signals(print: &Tree) -> (r: Signals)
    ensures
        r@ == signals_of(print@),
{
    Signals {
        gcode_state: read_text(print, "gcode_state"),
        print_real: read_count(print, "print_real"),
        remaining_minutes: read_count(print, "mc_remaining_time"),
        percent: match read_number(print, "mc_percent") {
            Some(n) => read_percent(n),
            None => Percent { thousandths: 0, zero: true, positive: false, below_full: true, at_most_full: true },
        },
        layer_num: read_count(print, "layer_num"),
        total_layers: read_count(print, "total_layer_num"),
        stage: read_int(print, "stg_cur"),
        print_error: read_count(print, "print_error"),
        error_code: read_count(print, "mc_print_error_code"),
        fan_level: read_int(print, "fan_gear"),
        job_name: match read_text(print, "subtask_name") {
            Some(s) => s,
            None => String::new(),
        },
        print_type: read_text(print, "print_type"),
        speed_level: read_int(print, "spd_lvl"),
        lifecycle: read_text(print, "lifecycle"),
    }
}

/// Reads the temperatures of a `print` subtree over the earlier ones.
pub fn read_temperatures(print: &Tree, earlier: PrinterTemperatures) -> (r: PrinterTemperatures)
    ensures
        r == temperatures_of(print@, earlier),
{
    PrinterTemperatures {
        nozzle: read_degrees(print, "nozzle_temper", earlier.nozzle),
        bed: read_degrees(print, "bed_temper", earlier.bed),
        chamber: read_degrees(print, "chamber_temper", earlier.chamber),
    }
}

} // verus!
