//! Tests of the K-NET-style ASCII decoder: fixed line numbers, token
//! positions, the scale-factor fraction, and the per-group header role.

use naifuru::analysis_config::{AccAxis, FromType, TextOrBinary, ToType};
use naifuru::error::{AppError, DataExtractionErr, ProcessErr};
use naifuru::extractor::extractor::{create_extractor, Extractor};
use naifuru::extractor::jp_nied_knet_une::JpNiedKnetUneExtractor;
use naifuru::model::ir::{GeoValue, ProcessableFile, ScaleFactor};
use naifuru::text::{nth_token, Decimal};

/// A well-formed K-NET-style header block: latitude on line 2, longitude
/// on line 3, the scale-factor descriptor as the third token of line 14.
fn knet_lines() -> Vec<String> {
    vec![
        "ORIGIN TIME       2024/01/01 16:10:18".to_string(),
        "LAT.              36.1234".to_string(),
        "LONG.             140.5678".to_string(),
        "SITE CODE         ISK005".to_string(),
        "STATION HEIGHT    12".to_string(),
        "RECORD TIME       2024/01/01 16:10:33".to_string(),
        "SAMPLING FREQ(Hz) 100Hz".to_string(),
        "DURATION TIME(s)  120".to_string(),
        "DIR.              N-S".to_string(),
        "SENSOR TYPE       V403".to_string(),
        "LINE 11".to_string(),
        "LINE 12".to_string(),
        "LINE 13".to_string(),
        "SCALE FACTOR      7845(gal)/8223790".to_string(),
    ]
}

fn knet_unit(file_index: usize, lines: Vec<String>) -> ProcessableFile {
    ProcessableFile {
        conv_name: "plan".to_string(),
        from: FromType::JpNiedKnet,
        to: ToType::JpStera3dTxt,
        group_index: 0,
        file_index,
        acc_axis: Some(AccAxis::Ns),
        path: "rec.ns".to_string(),
        data: Some(TextOrBinary::Text(lines)),
    }
}

#[test]
fn header_file_extracts_scale_factor_and_coordinates() {
    let ex = JpNiedKnetUneExtractor::new(knet_unit(0, knet_lines()));
    let ir = ex.extract().unwrap();
    let md = &ir.source_metadata;
    assert_eq!(
        md.ad_coefficient,
        Some(ScaleFactor { numerator: 7845, denominator: 8223790 })
    );
    assert_eq!(
        md.lat,
        Some(GeoValue::Decimal(Decimal {
            negative: false,
            int_part: 36,
            frac_part: 1234,
            frac_digits: 4,
        }))
    );
    assert_eq!(
        md.lon,
        Some(GeoValue::Decimal(Decimal {
            negative: false,
            int_part: 140,
            frac_part: 5678,
            frac_digits: 4,
        }))
    );
}

#[test]
fn followup_file_carries_no_header_metadata() {
    let ex = JpNiedKnetUneExtractor::new(knet_unit(1, knet_lines()));
    let ir = ex.extract().unwrap();
    let md = &ir.source_metadata;
    assert!(md.ad_coefficient.is_none());
    assert!(md.lat.is_none());
    assert!(md.lon.is_none());
}

#[test]
fn header_file_missing_line_14_fails_naming_it() {
    // a three-file group whose header-bearing file lacks line 14
    let mut lines = knet_lines();
    lines.truncate(13);
    let group: Vec<ProcessableFile> = vec![
        knet_unit(0, lines),
        knet_unit(1, knet_lines()),
        knet_unit(2, knet_lines()),
    ];
    let mut results = Vec::new();
    for unit in group {
        let mut ex = create_extractor(unit).unwrap();
        results.push(ex.extract());
    }
    let err = results[0].as_ref().unwrap_err();
    assert_eq!(
        *err,
        AppError::Process(ProcessErr::Extraction(DataExtractionErr::MissingFileData(
            "Line 14".to_string(),
            "rec.ns".to_string()
        )))
    );
    assert!(results[1].is_ok());
    assert!(results[2].is_ok());
}

#[test]
fn missing_latitude_line_is_reported() {
    let ex = JpNiedKnetUneExtractor::new(knet_unit(0, vec!["only one line".to_string()]));
    let err = ex.extract_latitude().unwrap_err();
    assert_eq!(
        err,
        ProcessErr::Extraction(DataExtractionErr::MissingFileData(
            "Line 2".to_string(),
            "rec.ns".to_string()
        ))
    );
}

#[test]
fn unparsable_latitude_is_a_pattern_mismatch() {
    let mut lines = knet_lines();
    lines[1] = "LAT. north-ish".to_string();
    let ex = JpNiedKnetUneExtractor::new(knet_unit(0, lines));
    let err = ex.extract_latitude().unwrap_err();
    assert_eq!(
        err,
        ProcessErr::Extraction(DataExtractionErr::PatternNotMatched(
            "latitude".to_string(),
            "rec.ns".to_string()
        ))
    );
}

#[test]
fn missing_scale_token_is_reported() {
    let mut lines = knet_lines();
    lines[13] = "SCALEFACTOR".to_string(); // only one token on line 14
    let ex = JpNiedKnetUneExtractor::new(knet_unit(0, lines));
    let err = ex.extract_ad_scale_factor().unwrap_err();
    assert_eq!(
        err,
        ProcessErr::Extraction(DataExtractionErr::MissingFileData(
            "scale factor".to_string(),
            "rec.ns".to_string()
        ))
    );
}

#[test]
fn malformed_scale_descriptor_is_a_pattern_mismatch() {
    let mut lines = knet_lines();
    lines[13] = "SCALE FACTOR x100/2000".to_string();
    let ex = JpNiedKnetUneExtractor::new(knet_unit(0, lines));
    let err = ex.extract_ad_scale_factor().unwrap_err();
    assert_eq!(
        err,
        ProcessErr::Extraction(DataExtractionErr::PatternNotMatched(
            "scale factor".to_string(),
            "rec.ns".to_string()
        ))
    );
}

#[test]
fn oversized_scale_numerator_is_reported() {
    let mut lines = knet_lines();
    lines[13] = "SCALE FACTOR 99999999999999999999999(gal)/2".to_string();
    let ex = JpNiedKnetUneExtractor::new(knet_unit(0, lines));
    let err = ex.extract_ad_scale_factor().unwrap_err();
    assert_eq!(
        err,
        ProcessErr::Extraction(DataExtractionErr::MissingFileData(
            "scale factor numerator".to_string(),
            "rec.ns".to_string()
        ))
    );
}

#[test]
fn binary_payload_is_unsupported_for_knet() {
    let mut unit = knet_unit(0, Vec::new());
    unit.data = Some(TextOrBinary::Binary(vec![0u8; 16]));
    let ex = JpNiedKnetUneExtractor::new(unit);
    let err = ex.extract().unwrap_err();
    assert_eq!(
        err,
        AppError::Process(ProcessErr::Extraction(DataExtractionErr::FormatUnsupported(
            "Binary type of K-NET".to_string()
        )))
    );
}

#[test]
fn unimplemented_knet_capabilities_are_explicit() {
    let ex = JpNiedKnetUneExtractor::new(knet_unit(0, knet_lines()));
    assert_eq!(
        ex.extract_unit_type().unwrap_err(),
        ProcessErr::Extraction(DataExtractionErr::FormatUnsupported(
            "unit type of K-NET".to_string()
        ))
    );
    assert_eq!(
        ex.extract_acc_values().unwrap_err(),
        ProcessErr::Extraction(DataExtractionErr::FormatUnsupported(
            "acceleration series of K-NET".to_string()
        ))
    );
    assert_eq!(
        ex.extract_initial_time().unwrap_err(),
        ProcessErr::Extraction(DataExtractionErr::FormatUnsupported(
            "initial time of K-NET".to_string()
        ))
    );
}

#[test]
fn dispatch_selects_the_format_decoder() {
    let knet = create_extractor(knet_unit(0, knet_lines())).unwrap();
    assert!(matches!(knet, Extractor::JpNiedKnetUne(_)));

    let mut sac_conv = knet_unit(0, Vec::new());
    sac_conv.from = FromType::TwPalertSac;
    sac_conv.acc_axis = None;
    let sac = create_extractor(sac_conv).unwrap();
    assert!(matches!(sac, Extractor::TwPalertSac(_)));
}

#[test]
fn dispatch_reports_unsupported_formats() {
    let mut unit = knet_unit(0, Vec::new());
    unit.from = FromType::UsScsnV2;
    let err = create_extractor(unit).unwrap_err();
    assert_eq!(
        err,
        ProcessErr::Extraction(DataExtractionErr::FormatUnsupported("us_scsn_v2".to_string()))
    );
}

#[test]
fn tokens_split_on_any_ascii_whitespace() {
    assert_eq!(nth_token("  a\tbb  ccc ", 0), Some("a".to_string()));
    assert_eq!(nth_token("  a\tbb  ccc ", 1), Some("bb".to_string()));
    assert_eq!(nth_token("  a\tbb  ccc ", 2), Some("ccc".to_string()));
    assert_eq!(nth_token("  a\tbb  ccc ", 3), None);
    assert_eq!(nth_token("", 0), None);
}
