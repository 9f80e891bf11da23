//! The unified intermediate representation (IR) produced by every decoder,
//! and the flattened per-file processing unit.
//!
//! The IR never holds floating-point values.  A single-precision header
//! word travels as its raw bit pattern, a coordinate parsed from text as an
//! exact decimal, and the scale factor as its exact integer fraction; the
//! out-of-scope converter stage turns these into whatever number format it
//! needs.

use vstd::prelude::*;
use crate::analysis_config::{
    AccAxis, FromType, SpecTextOrBinary, TextOrBinary, ToType, opt_data_view,
};
use crate::text::Decimal;

verus! {

/// Mathematical image of [`ProcessableFile`]: strings as character
/// sequences, content by its view.
pub struct SpecProcessableFile {
    pub conv_name: Seq<char>,
    pub from: FromType,
    pub to: ToType,
    pub group_index: int,
    pub file_index: int,
    pub acc_axis: Option<AccAxis>,
    pub path: Seq<char>,
    pub data: Option<SpecTextOrBinary>,
}

/// A geographic coordinate in one of the two source representations.
#[derive(Debug, Clone, PartialEq, Eq)]
pub enum GeoValue {
    /// The raw bit pattern of a single-precision value from a binary record.
    F32Bits(u32),
    /// An exact decimal parsed from a text record.
    Decimal(Decimal),
}

/// The scale factor as its exact fraction: `numerator / denominator`,
/// broadcast-multiplied over raw amplitude samples by the converter stage.
#[derive(Debug, Clone, Copy, PartialEq, Eq, Structural)]
pub struct ScaleFactor {
    pub numerator: u64,
    pub denominator: u64,
}

/// The SAC version header word values accepted as valid.
#[derive(Debug, Clone, Copy, PartialEq, Eq, Structural)]
pub enum Nvhdr {
    Ver6,
    Ver7,
}

/// Three-axis acceleration series, as raw (unscaled) sample values.
#[derive(Debug, Clone, PartialEq, Eq)]
pub struct Acceleration {
    pub ns: Vec<i64>,
    pub ew: Vec<i64>,
    pub ud: Vec<i64>,
}

/// Format-specific metadata of one decoded record.
#[derive(Debug, Clone, PartialEq, Eq)]
pub struct FormatMetadata {
    /// Label of the unit the samples are expressed in.
    pub unit_type: String,
    /// SAC version tag; binary SAC records only.
    pub nvhdr: Option<Nvhdr>,
    /// Sampling interval as a single-precision bit pattern.
    pub delta_t_bits: Option<u32>,
    /// Sampling rate in samples per second.
    pub sampling_rate: Option<u32>,
    /// Observation station code.
    pub site_code: String,
    /// Latitude of the station; absent until a header-bearing file
    /// supplies it.
    pub lat: Option<GeoValue>,
    /// Longitude of the station; absent until a header-bearing file
    /// supplies it.
    pub lon: Option<GeoValue>,
    /// Scale/AD coefficient; text formats with a scale descriptor only.
    pub ad_coefficient: Option<ScaleFactor>,
}

/// The unified output record of every decoder.
#[derive(Debug, Clone, PartialEq, Eq)]
pub struct SeismicIr {
    pub num_of_elements: u32,
    pub timestamp: String,
    pub acc_values: Acceleration,
    pub source_metadata: FormatMetadata,
}

/// One file of one group of one conversion plan, flattened into a
/// self-contained extraction task.
#[derive(Debug, Clone, PartialEq, Eq)]
pub struct ProcessableFile {
    pub conv_name: String,
    pub from: FromType,
    pub to: ToType,
    pub group_index: usize,
    pub file_index: usize,
    pub acc_axis: Option<AccAxis>,
    pub path: String,
    pub data: Option<TextOrBinary>,
}

impl View for ProcessableFile {
    type V = SpecProcessableFile;

    open spec fn view(&self) -> SpecProcessableFile {
        SpecProcessableFile {
            conv_name: self.conv_name@,
            from: self.from,
            to: self.to,
            group_index: self.group_index as int,
            file_index: self.file_index as int,
            acc_axis: self.acc_axis,
            path: self.path@,
            data: opt_data_view(self.data),
        }
    }
}

/// The views of a vector of processable files.
pub open spec fn unit_views(v: Seq<ProcessableFile>) -> Seq<SpecProcessableFile> {
    v.map_values(|u: ProcessableFile| u@)
}

} // verus!
