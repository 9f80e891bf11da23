//! Tests of the binary SAC decoder: endianness detection and symmetry,
//! in-place normalization, the round trip, fixed-offset field decoding,
//! and the unit lookup table.

use naifuru::analysis_config::{AccAxis, FromType, TextOrBinary, ToType};
use naifuru::error::{AppError, DataExtractionErr, ProcessErr};
use naifuru::extractor::tw_palert_sac::{Endian, SacHeader, TwPalertSacExtractor};
use naifuru::f32_bits::{f32_bits_gt, F32_BITS_0_001, F32_BITS_10};
use naifuru::model::ir::{GeoValue, Nvhdr, ProcessableFile};
use naifuru::util::to_fixed_chunks;

fn set_word(buf: &mut Vec<u8>, index: usize, bytes: [u8; 4]) {
    buf[4 * index..4 * index + 4].copy_from_slice(&bytes);
}

/// A well-formed little-endian SAC header block of 87 words: plausible
/// sampling interval, end > begin, max > min, version 6.
fn le_sac_buffer() -> Vec<u8> {
    let mut buf = vec![0u8; 87 * 4];
    set_word(&mut buf, 0, 0.01f32.to_le_bytes()); // delta
    set_word(&mut buf, 1, (-1.0f32).to_le_bytes()); // depmin
    set_word(&mut buf, 2, 1.0f32.to_le_bytes()); // depmax
    set_word(&mut buf, 5, 0.0f32.to_le_bytes()); // b
    set_word(&mut buf, 6, 10.0f32.to_le_bytes()); // e
    set_word(&mut buf, 31, 24.5f32.to_le_bytes()); // latitude
    set_word(&mut buf, 32, 121.25f32.to_le_bytes()); // longitude
    set_word(&mut buf, 76, 6i32.to_le_bytes()); // nvhdr
    set_word(&mut buf, 86, 8i32.to_le_bytes()); // unit code: acceleration
    buf
}

/// The same record with every 4-byte word byte-swapped: a big-endian file.
fn be_sac_buffer() -> Vec<u8> {
    let le = le_sac_buffer();
    let mut be = vec![0u8; le.len()];
    for w in 0..le.len() / 4 {
        for j in 0..4 {
            be[4 * w + j] = le[4 * w + 3 - j];
        }
    }
    be
}

fn sac_unit(data: Option<TextOrBinary>) -> ProcessableFile {
    ProcessableFile {
        conv_name: "plan".to_string(),
        from: FromType::TwPalertSac,
        to: ToType::JpJmaCsv,
        group_index: 0,
        file_index: 0,
        acc_axis: None::<AccAxis>,
        path: "rec.sac".to_string(),
        data,
    }
}

#[test]
fn detects_little_endian() {
    let buf = le_sac_buffer();
    assert!(matches!(SacHeader::detect_endian(&buf), Ok(Endian::Little)));
}

#[test]
fn detects_big_endian() {
    let buf = be_sac_buffer();
    assert!(matches!(SacHeader::detect_endian(&buf), Ok(Endian::Big)));
}

#[test]
fn detection_is_symmetric_under_full_swap() {
    // swapping the whole buffer flips the verdict
    let le = le_sac_buffer();
    let be = be_sac_buffer();
    let first = SacHeader::detect_endian(&le).unwrap();
    let second = SacHeader::detect_endian(&be).unwrap();
    assert!(matches!(first, Endian::Little));
    assert!(matches!(second, Endian::Big));
}

#[test]
fn detection_tie_is_a_hard_failure() {
    let zeroes = vec![0u8; 87 * 4];
    let err = SacHeader::detect_endian(&zeroes).unwrap_err();
    assert!(matches!(
        err,
        ProcessErr::Extraction(DataExtractionErr::EndianDetectionFailed(_))
    ));
}

#[test]
fn round_trip_reencoding_restores_the_original_bytes() {
    // decode (normalize) a big-endian record, then re-encode the words
    // under the detected order: the original bytes come back exactly
    let original = be_sac_buffer();
    let endian = SacHeader::detect_endian(&original).unwrap();
    let normalized = SacHeader::process_endian(original.clone(), endian);
    assert_eq!(normalized, le_sac_buffer());
    let reencoded = SacHeader::process_endian(normalized, endian);
    assert_eq!(reencoded, original);
}

#[test]
fn swap_endian_reports_the_path_on_a_tie() {
    let zeroes = vec![0u8; 87 * 4];
    let err = SacHeader::swap_endian(zeroes, "rec.sac").unwrap_err();
    assert_eq!(
        err,
        ProcessErr::Extraction(DataExtractionErr::EndianDetectionFailed("rec.sac".to_string()))
    );
}

#[test]
fn extract_decodes_a_little_endian_record() {
    let mut ex = TwPalertSacExtractor::new(sac_unit(Some(TextOrBinary::Binary(le_sac_buffer()))));
    let ir = ex.extract().unwrap();
    let md = &ir.source_metadata;
    assert_eq!(md.lat, Some(GeoValue::F32Bits(24.5f32.to_bits())));
    assert_eq!(md.lon, Some(GeoValue::F32Bits(121.25f32.to_bits())));
    assert_eq!(md.unit_type, "nm/sec/sec");
    assert_eq!(md.nvhdr, Some(Nvhdr::Ver6));
    assert_eq!(md.delta_t_bits, Some(0.01f32.to_bits()));
    assert!(md.ad_coefficient.is_none());
}

#[test]
fn extract_decodes_a_big_endian_record_identically() {
    let mut le = TwPalertSacExtractor::new(sac_unit(Some(TextOrBinary::Binary(le_sac_buffer()))));
    let mut be = TwPalertSacExtractor::new(sac_unit(Some(TextOrBinary::Binary(be_sac_buffer()))));
    assert_eq!(le.extract().unwrap(), be.extract().unwrap());
}

#[test]
fn unrecognized_unit_code_maps_to_notfound() {
    let mut buf = le_sac_buffer();
    set_word(&mut buf, 86, 9999i32.to_le_bytes());
    let mut ex = TwPalertSacExtractor::new(sac_unit(Some(TextOrBinary::Binary(buf))));
    let ir = ex.extract().unwrap();
    assert_eq!(ir.source_metadata.unit_type, "notfound");
}

#[test]
fn undefined_unit_code_maps_to_undefined() {
    let mut buf = le_sac_buffer();
    set_word(&mut buf, 86, (-12345i32).to_le_bytes());
    let mut ex = TwPalertSacExtractor::new(sac_unit(Some(TextOrBinary::Binary(buf))));
    let ir = ex.extract().unwrap();
    assert_eq!(ir.source_metadata.unit_type, "undefined");
}

#[test]
fn text_payload_is_unsupported_for_sac() {
    let mut ex = TwPalertSacExtractor::new(sac_unit(Some(TextOrBinary::Text(vec![
        "not binary".to_string(),
    ]))));
    let err = ex.extract().unwrap_err();
    assert_eq!(
        err,
        AppError::Process(ProcessErr::Extraction(DataExtractionErr::FormatUnsupported(
            "Text type of SAC".to_string()
        )))
    );
}

#[test]
fn partial_word_buffer_is_a_hard_failure() {
    let mut buf = le_sac_buffer();
    buf.push(0xAB); // 349 bytes: not a whole number of words
    let mut ex = TwPalertSacExtractor::new(sac_unit(Some(TextOrBinary::Binary(buf))));
    let err = ex.extract().unwrap_err();
    assert_eq!(
        err,
        AppError::Process(ProcessErr::Extraction(DataExtractionErr::FailedExtraction(
            "4-byte word alignment".to_string(),
            "rec.sac".to_string()
        )))
    );
}

#[test]
fn buffer_too_short_for_the_header_is_reported() {
    let buf = vec![0u8; 304]; // 76 words: one word short of the version word
    let mut ex = TwPalertSacExtractor::new(sac_unit(Some(TextOrBinary::Binary(buf))));
    let err = ex.extract().unwrap_err();
    assert_eq!(
        err,
        AppError::Process(ProcessErr::Extraction(DataExtractionErr::FailedExtraction(
            "SAC header".to_string(),
            "rec.sac".to_string()
        )))
    );
}

#[test]
fn unimplemented_sac_capabilities_are_explicit() {
    let ex = TwPalertSacExtractor::new(sac_unit(Some(TextOrBinary::Binary(le_sac_buffer()))));
    assert_eq!(
        ex.extract_acc_values().unwrap_err(),
        ProcessErr::Extraction(DataExtractionErr::FormatUnsupported(
            "acceleration series of SAC".to_string()
        ))
    );
    assert_eq!(
        ex.extract_initial_time().unwrap_err(),
        ProcessErr::Extraction(DataExtractionErr::FormatUnsupported(
            "initial time of SAC".to_string()
        ))
    );
}

#[test]
fn missing_payload_is_reported() {
    let mut ex = TwPalertSacExtractor::new(sac_unit(None));
    let err = ex.extract().unwrap_err();
    assert_eq!(
        err,
        AppError::Process(ProcessErr::Extraction(DataExtractionErr::MissingFileData(
            "file content".to_string(),
            "rec.sac".to_string()
        )))
    );
}

#[test]
fn bit_pattern_order_agrees_with_ieee_comparison() {
    let samples: [f32; 9] =
        [0.0, -0.0, 0.001, 0.25, 10.0, -7.5, 1.5e30, -1.0e-40, f32::INFINITY];
    for &a in samples.iter() {
        for &b in samples.iter() {
            assert_eq!(f32_bits_gt(a.to_bits(), b.to_bits()), a > b, "{a} vs {b}");
        }
    }
    // NaN compares greater than nothing, and nothing exceeds NaN
    let nan = f32::NAN.to_bits();
    assert!(!f32_bits_gt(nan, 0.0f32.to_bits()));
    assert!(!f32_bits_gt(0.0f32.to_bits(), nan));
}

#[test]
fn detection_threshold_constants_are_the_ieee_bit_patterns() {
    assert_eq!(F32_BITS_0_001, 0.001f32.to_bits());
    assert_eq!(F32_BITS_10, 10.0f32.to_bits());
}

#[test]
fn fixed_chunks_split_and_drop_the_remainder() {
    let data = vec![1u8, 2, 3, 4, 5, 6, 7, 8, 9];
    let chunks: Vec<[u8; 4]> = to_fixed_chunks(data);
    assert_eq!(chunks.len(), 2);
    assert_eq!(chunks[0], [1, 2, 3, 4]);
    assert_eq!(chunks[1], [5, 6, 7, 8]);
}
