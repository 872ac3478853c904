//! Fixed application parameters and the authoritative harvester CSV schema.
//!
//! Keeping these values in one module makes the assumptions visible and gives
//! later hardware/logger revisions one obvious place to update the display.

pub mod field;

use vstd::prelude::*;

verus! {

/// Native window title and visible application identity.
pub const APP_TITLE: &'static str = "xSAR Sensor Logger Display — Version 2";

/// Default CSV produced by the current Raspberry Pi sensor harvester.
pub const DEFAULT_CSV_PATH: &'static str = "/tmp/RPi_thermal_sensor_log.csv";

/// Timestamp format emitted by the harvester.
pub const TIMESTAMP_FORMAT: &'static str = "%Y-%m-%d %H:%M:%S";

/// Exact first CSV header.
pub const TIMESTAMP_HEADER: &'static str = "timestamp";

/// Maximum number of simultaneously loaded runs.
///
/// This is a deliberate guard against accidentally loading a directory full of
/// long captures and turning every redraw into a large allocation/copy cycle.
pub const MAX_LOADED_RUNS: usize = 8;

/// Number of numeric columns following the timestamp in the harvester CSV.
pub const FIELD_COUNT: usize = 17;

/// An opaque display colour, as red, green and blue channel bytes.
#[derive(Clone, Copy, Debug, PartialEq, Eq, Structural)]
pub struct Rgb {
    pub r: u8,
    pub g: u8,
    pub b: u8,
}

/// A display colour with an explicit (unmultiplied) alpha channel.
#[derive(Clone, Copy, Debug, PartialEq, Eq, Structural)]
pub struct Rgba {
    pub r: u8,
    pub g: u8,
    pub b: u8,
    pub a: u8,
}

/// Metadata for one harvester field.
#[derive(Clone, Copy, Debug)]
pub struct FieldSpec {
    /// Exact CSV header emitted by the harvester.
    pub header: &'static str,
    /// Compact legend label.
    pub label: &'static str,
    /// Stable channel colour across every loaded run.
    pub colour: Rgb,
}

/// The CSV header of numeric field `index`.
pub open spec fn field_header_spec(index: int) -> Seq<char> {
    if index == 0 { "Vtrack"@ }
    else if index == 1 { "VccEst"@ }
    else if index == 2 { "BmpC"@ }
    else if index == 3 { "BmpPa"@ }
    else if index == 4 { "BmpMslpPa"@ }
    else if index == 5 { "V0"@ }
    else if index == 6 { "R0"@ }
    else if index == 7 { "T0"@ }
    else if index == 8 { "T0sh"@ }
    else if index == 9 { "V1"@ }
    else if index == 10 { "R1"@ }
    else if index == 11 { "T1"@ }
    else if index == 12 { "T1sh"@ }
    else if index == 13 { "V2"@ }
    else if index == 14 { "R2"@ }
    else if index == 15 { "T2"@ }
    else { "T2sh"@ }
}

/// The exact CSV header of numeric field `index`.
pub fn field_header(index: usize) -> (header: &'static str)
    requires
        index < FIELD_COUNT,
    ensures
        header@ == field_header_spec(index as int),
{
    match index {
        0 => "Vtrack",
        1 => "VccEst",
        2 => "BmpC",
        3 => "BmpPa",
        4 => "BmpMslpPa",
        5 => "V0",
        6 => "R0",
        7 => "T0",
        8 => "T0sh",
        9 => "V1",
        10 => "R1",
        11 => "T1",
        12 => "T1sh",
        13 => "V2",
        14 => "R2",
        15 => "T2",
        _ => "T2sh",
    }
}

/// The legend label of numeric field `index`.
pub open spec fn field_label_spec(index: int) -> Seq<char> {
    if index == 0 { "Vtrack"@ }
    else if index == 1 { "Vcc estimate"@ }
    else if index == 2 { "BMP180 reference"@ }
    else if index == 3 { "BMP180 station"@ }
    else if index == 4 { "BMP180 MSLP"@ }
    else if index == 5 { "ADS A0"@ }
    else if index == 6 { "NTC A0"@ }
    else if index == 7 { "A0 β"@ }
    else if index == 8 { "A0 SH"@ }
    else if index == 9 { "ADS A1"@ }
    else if index == 10 { "NTC A1"@ }
    else if index == 11 { "A1 β"@ }
    else if index == 12 { "A1 SH"@ }
    else if index == 13 { "ADS A2"@ }
    else if index == 14 { "NTC A2"@ }
    else if index == 15 { "A2 β"@ }
    else { "A2 SH"@ }
}

/// The channel colour of numeric field `index`.
pub open spec fn field_colour_spec(index: int) -> Rgb {
    if index == 0 { Rgb { r: 180, g: 140, b: 255 } }
    else if index == 1 { Rgb { r: 255, g: 190, b: 70 } }
    else if index == 2 { Rgb { r: 255, g: 255, b: 255 } }
    else if index == 3 { Rgb { r: 80, g: 190, b: 255 } }
    else if index == 4 { Rgb { r: 80, g: 255, b: 190 } }
    else if index == 5 { Rgb { r: 255, g: 90, b: 90 } }
    else if index == 6 { Rgb { r: 255, g: 90, b: 90 } }
    else if index == 7 { Rgb { r: 255, g: 90, b: 90 } }
    else if index == 8 { Rgb { r: 255, g: 150, b: 150 } }
    else if index == 9 { Rgb { r: 100, g: 220, b: 120 } }
    else if index == 10 { Rgb { r: 100, g: 220, b: 120 } }
    else if index == 11 { Rgb { r: 100, g: 220, b: 120 } }
    else if index == 12 { Rgb { r: 160, g: 255, b: 175 } }
    else if index == 13 { Rgb { r: 90, g: 150, b: 255 } }
    else if index == 14 { Rgb { r: 90, g: 150, b: 255 } }
    else if index == 15 { Rgb { r: 90, g: 150, b: 255 } }
    else { Rgb { r: 150, g: 190, b: 255 } }
}

/// Authoritative CSV schema after the timestamp field: header, label and
/// colour of numeric field `index`.
pub fn field_spec(index: usize) -> (spec: FieldSpec)
    requires
        index < FIELD_COUNT,
    ensures
        spec.header@ == field_header_spec(index as int),
        spec.label@ == field_label_spec(index as int),
        spec.colour == field_colour_spec(index as int),
{
    match index {
        0 => FieldSpec { header: "Vtrack", label: "Vtrack", colour: Rgb { r: 180, g: 140, b: 255 } },
        1 => FieldSpec { header: "VccEst", label: "Vcc estimate", colour: Rgb { r: 255, g: 190, b: 70 } },
        2 => FieldSpec { header: "BmpC", label: "BMP180 reference", colour: Rgb { r: 255, g: 255, b: 255 } },
        3 => FieldSpec { header: "BmpPa", label: "BMP180 station", colour: Rgb { r: 80, g: 190, b: 255 } },
        4 => FieldSpec { header: "BmpMslpPa", label: "BMP180 MSLP", colour: Rgb { r: 80, g: 255, b: 190 } },
        5 => FieldSpec { header: "V0", label: "ADS A0", colour: Rgb { r: 255, g: 90, b: 90 } },
        6 => FieldSpec { header: "R0", label: "NTC A0", colour: Rgb { r: 255, g: 90, b: 90 } },
        7 => FieldSpec { header: "T0", label: "A0 β", colour: Rgb { r: 255, g: 90, b: 90 } },
        8 => FieldSpec { header: "T0sh", label: "A0 SH", colour: Rgb { r: 255, g: 150, b: 150 } },
        9 => FieldSpec { header: "V1", label: "ADS A1", colour: Rgb { r: 100, g: 220, b: 120 } },
        10 => FieldSpec { header: "R1", label: "NTC A1", colour: Rgb { r: 100, g: 220, b: 120 } },
        11 => FieldSpec { header: "T1", label: "A1 β", colour: Rgb { r: 100, g: 220, b: 120 } },
        12 => FieldSpec { header: "T1sh", label: "A1 SH", colour: Rgb { r: 160, g: 255, b: 175 } },
        13 => FieldSpec { header: "V2", label: "ADS A2", colour: Rgb { r: 90, g: 150, b: 255 } },
        14 => FieldSpec { header: "R2", label: "NTC A2", colour: Rgb { r: 90, g: 150, b: 255 } },
        15 => FieldSpec { header: "T2", label: "A2 β", colour: Rgb { r: 90, g: 150, b: 255 } },
        _ => FieldSpec { header: "T2sh", label: "A2 SH", colour: Rgb { r: 150, g: 190, b: 255 } },
    }
}

} // verus!
