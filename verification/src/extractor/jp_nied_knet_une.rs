//! K-NET-style ASCII decoder: fixed line numbers as a schema contract,
//! whitespace-delimited token positions within a line, and the exact
//! scale-factor fraction from the line-14 descriptor.
//!
//! Within a group, only the first file (file index 0) carries header
//! metadata; later files contribute samples only and no header field is
//! re-parsed for them.

use vstd::prelude::*;
use crate::analysis_config::TextOrBinary;
use crate::error::{
    AppError, DataExtractionErr, ProcessErr, SpecAppError, SpecDataExtractionErr, SpecProcessErr,
};
use crate::model::ir::{
    Acceleration, FormatMetadata, GeoValue, ProcessableFile, ScaleFactor, SeismicIr,
};
use crate::scale_factor::{
    denominator_at, find_match_from, lemma_find_match_from, numerator_at, scale_factor_captures,
};
use crate::text::{
    Decimal, digits_val, decimal_frac_chars, decimal_int_chars, decimal_is_negative, nth_token,
    nth_token_of, parse_decimal, spec_decimal_parses, string_views,
};

verus! {

/// What decoding the coordinate on line `line_idx` (0-based) yields: the
/// line must exist, its second token must be present, and the token must
/// parse as a decimal.
pub open spec fn spec_coord_of(
    lines: Seq<Seq<char>>,
    line_idx: int,
    line_label: Seq<char>,
    field: Seq<char>,
    path: Seq<char>,
) -> Result<Decimal, SpecDataExtractionErr> {
    if lines.len() <= line_idx {
        Err(SpecDataExtractionErr::MissingFileData(line_label, path))
    } else {
        match nth_token_of(lines[line_idx], 1) {
            None => Err(SpecDataExtractionErr::MissingFileData(field, path)),
            Some(tok) => if spec_decimal_parses(tok) {
                Ok(
                    Decimal {
                        negative: decimal_is_negative(tok),
                        int_part: digits_val(decimal_int_chars(tok)) as u64,
                        frac_part: digits_val(decimal_frac_chars(tok)) as u64,
                        frac_digits: decimal_frac_chars(tok).len() as u32,
                    },
                )
            } else {
                Err(SpecDataExtractionErr::PatternNotMatched(field, path))
            },
        }
    }
}

/// What decoding the scale factor yields: line 14 must exist, its third
/// token must be present and contain a scale descriptor, and both captured
/// digit groups must fit in a `u64`.
pub open spec fn spec_scale_of(lines: Seq<Seq<char>>, path: Seq<char>) -> Result<
    ScaleFactor,
    SpecDataExtractionErr,
> {
    if lines.len() <= 13 {
        Err(SpecDataExtractionErr::MissingFileData("Line 14"@, path))
    } else {
        match nth_token_of(lines[13], 2) {
            None => Err(SpecDataExtractionErr::MissingFileData("scale factor"@, path)),
            Some(tok) => match find_match_from(tok, 0) {
                None => Err(SpecDataExtractionErr::PatternNotMatched("scale factor"@, path)),
                Some(i) => if digits_val(numerator_at(tok, i)) > u64::MAX {
                    Err(SpecDataExtractionErr::MissingFileData("scale factor numerator"@, path))
                } else if digits_val(denominator_at(tok, i)) > u64::MAX {
                    Err(
                        SpecDataExtractionErr::MissingFileData("scale factor denominator"@, path),
                    )
                } else {
                    Ok(
                        ScaleFactor {
                            numerator: digits_val(numerator_at(tok, i)) as u64,
                            denominator: digits_val(denominator_at(tok, i)) as u64,
                        },
                    )
                },
            },
        }
    }
}

/// Whether `ir` is the record of a header-bearing file with the given
/// coordinates and scale factor.  Sample series, timestamp, station code
/// and unit label are not decoded for this format yet and stay empty.
pub open spec fn knet_header_ir_matches(
    ir: SeismicIr,
    sf: ScaleFactor,
    lat: Decimal,
    lon: Decimal,
) -> bool {
    &&& ir.num_of_elements == 0
    &&& ir.timestamp@.len() == 0
    &&& ir.acc_values.ns@.len() == 0
    &&& ir.acc_values.ew@.len() == 0
    &&& ir.acc_values.ud@.len() == 0
    &&& ir.source_metadata.unit_type@.len() == 0
    &&& ir.source_metadata.nvhdr is None
    &&& ir.source_metadata.delta_t_bits is None
    &&& ir.source_metadata.sampling_rate is None
    &&& ir.source_metadata.site_code@.len() == 0
    &&& ir.source_metadata.lat == Some(GeoValue::Decimal(lat))
    &&& ir.source_metadata.lon == Some(GeoValue::Decimal(lon))
    &&& ir.source_metadata.ad_coefficient == Some(sf)
}

/// Whether `ir` is the record of a samples-only file: no header metadata
/// at all.
pub open spec fn knet_followup_ir_matches(ir: SeismicIr) -> bool {
    &&& ir.num_of_elements == 0
    &&& ir.timestamp@.len() == 0
    &&& ir.acc_values.ns@.len() == 0
    &&& ir.acc_values.ew@.len() == 0
    &&& ir.acc_values.ud@.len() == 0
    &&& ir.source_metadata.unit_type@.len() == 0
    &&& ir.source_metadata.nvhdr is None
    &&& ir.source_metadata.delta_t_bits is None
    &&& ir.source_metadata.sampling_rate is None
    &&& ir.source_metadata.site_code@.len() == 0
    &&& ir.source_metadata.lat is None
    &&& ir.source_metadata.lon is None
    &&& ir.source_metadata.ad_coefficient is None
}

/// Everything the composite extraction promises: for the header-bearing
/// file of a group the scale factor, latitude and longitude are decoded in
/// that order and the first failure aborts the unit; later files yield a
/// header-less record.
pub open spec fn knet_extract_post(
    pre: JpNiedKnetUneExtractor,
    r: Result<SeismicIr, AppError>,
) -> bool {
    let path = pre.unextracted.path@;
    match pre.unextracted.data {
        None => r matches Err(e) && e@ == SpecAppError::Process(
            SpecProcessErr::Extraction(
                SpecDataExtractionErr::MissingFileData("file content"@, path),
            ),
        ),
        Some(TextOrBinary::Binary(_)) => r matches Err(e) && e@ == SpecAppError::Process(
            SpecProcessErr::Extraction(
                SpecDataExtractionErr::FormatUnsupported("Binary type of K-NET"@),
            ),
        ),
        Some(TextOrBinary::Text(lines)) => {
            let lv = string_views(lines@);
            if pre.unextracted.file_index == 0 {
                match spec_scale_of(lv, path) {
                    Err(se) => r matches Err(e) && e@ == SpecAppError::Process(
                        SpecProcessErr::Extraction(se),
                    ),
                    Ok(sf) => match spec_coord_of(lv, 1, "Line 2"@, "latitude"@, path) {
                        Err(se) => r matches Err(e) && e@ == SpecAppError::Process(
                            SpecProcessErr::Extraction(se),
                        ),
                        Ok(lat) => match spec_coord_of(lv, 2, "Line 3"@, "longitude"@, path) {
                            Err(se) => r matches Err(e) && e@ == SpecAppError::Process(
                                SpecProcessErr::Extraction(se),
                            ),
                            Ok(lon) => r matches Ok(ir) && knet_header_ir_matches(
                                ir,
                                sf,
                                lat,
                                lon,
                            ),
                        },
                    },
                }
            } else {
                r matches Ok(ir) && knet_followup_ir_matches(ir)
            }
        },
    }
}

/// Decoder for K-NET-style ASCII strong-motion records.
#[derive(Debug)]
pub struct JpNiedKnetUneExtractor {
    pub unextracted: ProcessableFile,
}

impl JpNiedKnetUneExtractor {
    pub fn new(unextracted: ProcessableFile) -> (r: Self)
        ensures
            r.unextracted == unextracted,
    {
        Self { unextracted }
    }

    /// The file's text lines, or the error the payload's absence or kind
    /// dictates.
    fn text_lines(&self) -> (r: Result<&Vec<String>, ProcessErr>)
        ensures
            match self.unextracted.data {
                None => r matches Err(e) && e@ == SpecProcessErr::Extraction(
                    SpecDataExtractionErr::MissingFileData(
                        "file content"@,
                        self.unextracted.path@,
                    ),
                ),
                Some(TextOrBinary::Binary(_)) => r matches Err(e) && e@
                    == SpecProcessErr::Extraction(
                    SpecDataExtractionErr::FormatUnsupported("Binary type of K-NET"@),
                ),
                Some(TextOrBinary::Text(lines)) => r matches Ok(v) && v == &lines,
            },
    {
        match &self.unextracted.data {
            None => Err(
                ProcessErr::Extraction(
                    DataExtractionErr::MissingFileData(
                        "file content".to_owned(),
                        self.unextracted.path.clone(),
                    ),
                ),
            ),
            Some(TextOrBinary::Binary(_)) => Err(
                ProcessErr::Extraction(
                    DataExtractionErr::FormatUnsupported("Binary type of K-NET".to_owned()),
                ),
            ),
            Some(TextOrBinary::Text(lines)) => Ok(lines),
        }
    }

    /// Latitude: the second token of line 2, parsed as a decimal.
    pub fn extract_latitude(&self) -> (r: Result<Decimal, ProcessErr>)
        ensures
            match self.unextracted.data {
                None => r matches Err(e) && e@ == SpecProcessErr::Extraction(
                    SpecDataExtractionErr::MissingFileData(
                        "file content"@,
                        self.unextracted.path@,
                    ),
                ),
                Some(TextOrBinary::Binary(_)) => r matches Err(e) && e@
                    == SpecProcessErr::Extraction(
                    SpecDataExtractionErr::FormatUnsupported("Binary type of K-NET"@),
                ),
                Some(TextOrBinary::Text(lines)) => match spec_coord_of(
                    string_views(lines@),
                    1,
                    "Line 2"@,
                    "latitude"@,
                    self.unextracted.path@,
                ) {
                    Ok(d) => r == Ok::<Decimal, ProcessErr>(d),
                    Err(se) => r matches Err(e) && e@ == SpecProcessErr::Extraction(se),
                },
            },
    {
        self.extract_coord(1, "Line 2", "latitude")
    }

    /// Longitude: the second token of line 3, parsed as a decimal.
    pub fn extract_longitude(&self) -> (r: Result<Decimal, ProcessErr>)
        ensures
            match self.unextracted.data {
                None => r matches Err(e) && e@ == SpecProcessErr::Extraction(
                    SpecDataExtractionErr::MissingFileData(
                        "file content"@,
                        self.unextracted.path@,
                    ),
                ),
                Some(TextOrBinary::Binary(_)) => r matches Err(e) && e@
                    == SpecProcessErr::Extraction(
                    SpecDataExtractionErr::FormatUnsupported("Binary type of K-NET"@),
                ),
                Some(TextOrBinary::Text(lines)) => match spec_coord_of(
                    string_views(lines@),
                    2,
                    "Line 3"@,
                    "longitude"@,
                    self.unextracted.path@,
                ) {
                    Ok(d) => r == Ok::<Decimal, ProcessErr>(d),
                    Err(se) => r matches Err(e) && e@ == SpecProcessErr::Extraction(se),
                },
            },
    {
        self.extract_coord(2, "Line 3", "longitude")
    }

    /// Decodes the coordinate held by the second token of the given line.
    fn extract_coord(&self, line_idx: usize, line_label: &str, field: &str) -> (r: Result<
        Decimal,
        ProcessErr,
    >)
        ensures
            match self.unextracted.data {
                None => r matches Err(e) && e@ == SpecProcessErr::Extraction(
                    SpecDataExtractionErr::MissingFileData(
                        "file content"@,
                        self.unextracted.path@,
                    ),
                ),
                Some(TextOrBinary::Binary(_)) => r matches Err(e) && e@
                    == SpecProcessErr::Extraction(
                    SpecDataExtractionErr::FormatUnsupported("Binary type of K-NET"@),
                ),
                Some(TextOrBinary::Text(lines)) => match spec_coord_of(
                    string_views(lines@),
                    line_idx as int,
                    line_label@,
                    field@,
                    self.unextracted.path@,
                ) {
                    Ok(d) => r == Ok::<Decimal, ProcessErr>(d),
                    Err(se) => r matches Err(e) && e@ == SpecProcessErr::Extraction(se),
                },
            },
    {
        let lines = match self.text_lines() {
            Ok(v) => v,
            Err(e) => {
                return Err(e);
            },
        };
        let ghost lv = string_views(lines@);
        if lines.len() <= line_idx {
            return Err(
                ProcessErr::Extraction(
                    DataExtractionErr::MissingFileData(
                        line_label.to_owned(),
                        self.unextracted.path.clone(),
                    ),
                ),
            );
        }
        let line = &lines[line_idx];
        assert(line@ == lv[line_idx as int]);
        match nth_token(line.as_str(), 1) {
            None => Err(
                ProcessErr::Extraction(
                    DataExtractionErr::MissingFileData(
                        field.to_owned(),
                        self.unextracted.path.clone(),
                    ),
                ),
            ),
            Some(tok) => {
                match parse_decimal(tok.as_str()) {
                    Some(d) => Ok(d),
                    None => Err(
                        ProcessErr::Extraction(
                            DataExtractionErr::PatternNotMatched(
                                field.to_owned(),
                                self.unextracted.path.clone(),
                            ),
                        ),
                    ),
                }
            },
        }
    }

    /// The scale/AD coefficient: the third token of line 14 must hold a
    /// scale descriptor, whose two digit groups become the exact fraction.
    /// The division is left to the consumer, which computes it once and
    /// broadcasts it over the sample series.
    pub fn extract_ad_scale_factor(&self) -> (r: Result<ScaleFactor, ProcessErr>)
        ensures
            match self.unextracted.data {
                None => r matches Err(e) && e@ == SpecProcessErr::Extraction(
                    SpecDataExtractionErr::MissingFileData(
                        "file content"@,
                        self.unextracted.path@,
                    ),
                ),
                Some(TextOrBinary::Binary(_)) => r matches Err(e) && e@
                    == SpecProcessErr::Extraction(
                    SpecDataExtractionErr::FormatUnsupported("Binary type of K-NET"@),
                ),
                Some(TextOrBinary::Text(lines)) => match spec_scale_of(
                    string_views(lines@),
                    self.unextracted.path@,
                ) {
                    Ok(sf) => r == Ok::<ScaleFactor, ProcessErr>(sf),
                    Err(se) => r matches Err(e) && e@ == SpecProcessErr::Extraction(se),
                },
            },
    {
        let lines = match self.text_lines() {
            Ok(v) => v,
            Err(e) => {
                return Err(e);
            },
        };
        let ghost lv = string_views(lines@);
        if lines.len() <= 13 {
            return Err(
                ProcessErr::Extraction(
                    DataExtractionErr::MissingFileData(
                        "Line 14".to_owned(),
                        self.unextracted.path.clone(),
                    ),
                ),
            );
        }
        let line = &lines[13];
        assert(line@ == lv[13]);
        let tok = match nth_token(line.as_str(), 2) {
            Some(t) => t,
            None => {
                return Err(
                    ProcessErr::Extraction(
                        DataExtractionErr::MissingFileData(
                            "scale factor".to_owned(),
                            self.unextracted.path.clone(),
                        ),
                    ),
                );
            },
        };
        let m = match scale_factor_captures(tok.as_str()) {
            Some(m) => m,
            None => {
                return Err(
                    ProcessErr::Extraction(
                        DataExtractionErr::PatternNotMatched(
                            "scale factor".to_owned(),
                            self.unextracted.path.clone(),
                        ),
                    ),
                );
            },
        };
        proof {
            lemma_find_match_from(tok@, 0);
            if let Some(i) = find_match_from(tok@, 0) {
                crate::scale_factor::lemma_capture_digits(tok@, i);
            }
        }
        let numerator = match crate::text::parse_u64_digits(m.numerator.as_str()) {
            Some(n) => n,
            None => {
                return Err(
                    ProcessErr::Extraction(
                        DataExtractionErr::MissingFileData(
                            "scale factor numerator".to_owned(),
                            self.unextracted.path.clone(),
                        ),
                    ),
                );
            },
        };
        let denominator = match crate::text::parse_u64_digits(m.denominator.as_str()) {
            Some(d) => d,
            None => {
                return Err(
                    ProcessErr::Extraction(
                        DataExtractionErr::MissingFileData(
                            "scale factor denominator".to_owned(),
                            self.unextracted.path.clone(),
                        ),
                    ),
                );
            },
        };
        Ok(ScaleFactor { numerator, denominator })
    }

    /// Unit-type decoding is not implemented for this format yet: always
    /// the explicit unsupported-capability error.
    pub fn extract_unit_type(&self) -> (r: Result<String, ProcessErr>)
        ensures
            r matches Err(e) && e@ == SpecProcessErr::Extraction(
                SpecDataExtractionErr::FormatUnsupported("unit type of K-NET"@),
            ),
    {
        Err(
            ProcessErr::Extraction(
                DataExtractionErr::FormatUnsupported("unit type of K-NET".to_owned()),
            ),
        )
    }

    /// Acceleration-series decoding is not implemented for this format
    /// yet: always the explicit unsupported-capability error.
    pub fn extract_acc_values(&self) -> (r: Result<Acceleration, ProcessErr>)
        ensures
            r matches Err(e) && e@ == SpecProcessErr::Extraction(
                SpecDataExtractionErr::FormatUnsupported("acceleration series of K-NET"@),
            ),
    {
        Err(
            ProcessErr::Extraction(
                DataExtractionErr::FormatUnsupported("acceleration series of K-NET".to_owned()),
            ),
        )
    }

    /// Initial-time decoding is not implemented for this format yet:
    /// always the explicit unsupported-capability error.
    pub fn extract_initial_time(&self) -> (r: Result<String, ProcessErr>)
        ensures
            r matches Err(e) && e@ == SpecProcessErr::Extraction(
                SpecDataExtractionErr::FormatUnsupported("initial time of K-NET"@),
            ),
    {
        Err(
            ProcessErr::Extraction(
                DataExtractionErr::FormatUnsupported("initial time of K-NET".to_owned()),
            ),
        )
    }

    /// The composite extraction: the header-bearing file of a group (file
    /// index 0) yields its scale factor and coordinates; later files
    /// contribute samples only and carry no header metadata.  The first
    /// hard failure aborts this unit's extraction.
    pub fn extract(&self) -> (r: Result<SeismicIr, AppError>)
        ensures
            knet_extract_post(*self, r),
    {
        if self.unextracted.file_index == 0 {
            let sf = match self.extract_ad_scale_factor() {
                Ok(sf) => sf,
                Err(e) => {
                    return Err(AppError::Process(e));
                },
            };
            let lat = match self.extract_latitude() {
                Ok(d) => d,
                Err(e) => {
                    return Err(AppError::Process(e));
                },
            };
            let lon = match self.extract_longitude() {
                Ok(d) => d,
                Err(e) => {
                    return Err(AppError::Process(e));
                },
            };
            Ok(
                SeismicIr {
                    num_of_elements: 0,
                    timestamp: String::new(),
                    acc_values: Acceleration { ns: Vec::new(), ew: Vec::new(), ud: Vec::new() },
                    source_metadata: FormatMetadata {
                        unit_type: String::new(),
                        nvhdr: None,
                        delta_t_bits: None,
                        sampling_rate: None,
                        site_code: String::new(),
                        lat: Some(GeoValue::Decimal(lat)),
                        lon: Some(GeoValue::Decimal(lon)),
                        ad_coefficient: Some(sf),
                    },
                },
            )
        } else {
            match self.text_lines() {
                Ok(_) => {},
                Err(e) => {
                    return Err(AppError::Process(e));
                },
            }
            Ok(
                SeismicIr {
                    num_of_elements: 0,
                    timestamp: String::new(),
                    acc_values: Acceleration { ns: Vec::new(), ew: Vec::new(), ud: Vec::new() },
                    source_metadata: FormatMetadata {
                        unit_type: String::new(),
                        nvhdr: None,
                        delta_t_bits: None,
                        sampling_rate: None,
                        site_code: String::new(),
                        lat: None,
                        lon: None,
                        ad_coefficient: None,
                    },
                },
            )
        }
    }
}

} // verus!
