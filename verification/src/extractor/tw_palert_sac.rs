//! Binary SAC decoder: heuristic byte-order detection followed by
//! fixed-offset word decoding.
//!
//! A SAC record is a sequence of 4-byte words.  No explicit byte-order
//! marker exists, so both hypotheses are scored against four independent
//! plausibility predicates of the header; the strictly higher score wins
//! and a tie is a hard failure.  Once the winner is known the buffer is
//! normalized to little-endian words in place, and every later field read
//! assumes that layout.

use vstd::prelude::*;
use crate::analysis_config::TextOrBinary;
use crate::error::{
    AppError, DataExtractionErr, ProcessErr, SpecAppError, SpecDataExtractionErr, SpecProcessErr,
};
use crate::f32_bits::{f32_gt, f32_bits_gt, f32_bits_lt, F32_BITS_0_001, F32_BITS_10};
use crate::model::ir::{
    Acceleration, FormatMetadata, GeoValue, Nvhdr, ProcessableFile, SeismicIr,
};
use crate::util::{read_word_be, read_word_le, swap_word_bytes, swapped_words, word_be, word_le};

verus! {

/// A byte order.
#[derive(Debug, Clone, Copy, PartialEq, Eq, Structural)]
pub enum Endian {
    Big,
    Little,
}

/// The header words that drive endianness detection, as raw little-endian
/// bit patterns: sampling interval, begin/end of the independent variable,
/// extrema of the dependent variable, and the version word.
#[derive(Debug, Clone, Copy, PartialEq, Eq, Structural)]
pub struct SacHeader {
    pub delta: u32,
    pub b: u32,
    pub e: u32,
    pub depmin: u32,
    pub depmax: u32,
    pub nvhdr: u32,
}

/// The number of plausibility predicates the header satisfies (0 to 4):
/// the sampling interval lies strictly inside (0.001, 10.0); the
/// independent variable ends after it begins; the dependent variable's
/// maximum exceeds its minimum; the version word is 6 or 7.
pub open spec fn spec_score(h: SacHeader) -> int {
    (if f32_gt(h.delta, F32_BITS_0_001) && f32_gt(F32_BITS_10, h.delta) {
        1int
    } else {
        0int
    }) + (if f32_gt(h.e, h.b) {
        1int
    } else {
        0int
    }) + (if f32_gt(h.depmax, h.depmin) {
        1int
    } else {
        0int
    }) + (if h.nvhdr == 6 || h.nvhdr == 7 {
        1int
    } else {
        0int
    })
}

/// The detection header read under the little-endian hypothesis.
pub open spec fn spec_header_le(bytes: Seq<u8>) -> SacHeader
    recommends
        bytes.len() >= 308,
{
    SacHeader {
        delta: word_le(bytes, 0),
        depmin: word_le(bytes, 1),
        depmax: word_le(bytes, 2),
        b: word_le(bytes, 5),
        e: word_le(bytes, 6),
        nvhdr: word_le(bytes, 76),
    }
}

/// The detection header read under the big-endian hypothesis.
pub open spec fn spec_header_be(bytes: Seq<u8>) -> SacHeader
    recommends
        bytes.len() >= 308,
{
    SacHeader {
        delta: word_be(bytes, 0),
        depmin: word_be(bytes, 1),
        depmax: word_be(bytes, 2),
        b: word_be(bytes, 5),
        e: word_be(bytes, 6),
        nvhdr: word_be(bytes, 76),
    }
}

/// The little-endian hypothesis's score.
pub open spec fn le_score(bytes: Seq<u8>) -> int {
    spec_score(spec_header_le(bytes))
}

/// The big-endian hypothesis's score.
pub open spec fn be_score(bytes: Seq<u8>) -> int {
    spec_score(spec_header_be(bytes))
}

/// The buffer normalized to little-endian words: byte-swapped when the
/// big-endian hypothesis wins, unchanged otherwise.
pub open spec fn spec_normalized(bytes: Seq<u8>) -> Seq<u8> {
    if be_score(bytes) > le_score(bytes) {
        swapped_words(bytes)
    } else {
        bytes
    }
}

impl SacHeader {
    fn parse_sac_header_le(bytes: &Vec<u8>) -> (h: SacHeader)
        requires
            bytes@.len() >= 308,
        ensures
            h == spec_header_le(bytes@),
    {
        SacHeader {
            delta: read_word_le(bytes, 0),
            depmin: read_word_le(bytes, 1),
            depmax: read_word_le(bytes, 2),
            b: read_word_le(bytes, 5),
            e: read_word_le(bytes, 6),
            nvhdr: read_word_le(bytes, 76),
        }
    }

    fn parse_sac_header_be(bytes: &Vec<u8>) -> (h: SacHeader)
        requires
            bytes@.len() >= 308,
        ensures
            h == spec_header_be(bytes@),
    {
        SacHeader {
            delta: read_word_be(bytes, 0),
            depmin: read_word_be(bytes, 1),
            depmax: read_word_be(bytes, 2),
            b: read_word_be(bytes, 5),
            e: read_word_be(bytes, 6),
            nvhdr: read_word_be(bytes, 76),
        }
    }

    /// The header's plausibility score.
    fn score(h: &SacHeader) -> (s: u32)
        ensures
            s as int == spec_score(*h),
    {
        let mut s: u32 = 0;
        if f32_bits_gt(h.delta, F32_BITS_0_001) && f32_bits_lt(h.delta, F32_BITS_10) {
            s = s + 1;
        }
        if f32_bits_gt(h.e, h.b) {
            s = s + 1;
        }
        if f32_bits_gt(h.depmax, h.depmin) {
            s = s + 1;
        }
        if h.nvhdr == 6 || h.nvhdr == 7 {
            s = s + 1;
        }
        s
    }

    /// Scores both byte-order hypotheses against the header words; the
    /// strictly higher score wins, and a tie fails.
    pub fn detect_endian(bytes: &Vec<u8>) -> (r: Result<Endian, ProcessErr>)
        requires
            bytes@.len() >= 308,
        ensures
            r == Ok::<Endian, ProcessErr>(Endian::Big) <==> be_score(bytes@) > le_score(bytes@),
            r == Ok::<Endian, ProcessErr>(Endian::Little) <==> le_score(bytes@) > be_score(
                bytes@,
            ),
            r matches Err(e) ==> be_score(bytes@) == le_score(bytes@) && e@
                == SpecProcessErr::Extraction(
                SpecDataExtractionErr::EndianDetectionFailed(Seq::empty()),
            ),
    {
        let be_header = Self::parse_sac_header_be(bytes);
        let le_header = Self::parse_sac_header_le(bytes);
        let be_valid = Self::score(&be_header);
        let le_valid = Self::score(&le_header);
        if be_valid > le_valid {
            Ok(Endian::Big)
        } else if be_valid < le_valid {
            Ok(Endian::Little)
        } else {
            proof {
                reveal_strlit("");
                assert(""@ =~= Seq::<char>::empty());
            }
            Err(
                ProcessErr::Extraction(DataExtractionErr::EndianDetectionFailed("".to_owned())),
            )
        }
    }

    /// Normalizes the buffer to little-endian words for the given byte
    /// order.
    pub fn process_endian(bytes: Vec<u8>, endian: Endian) -> (r: Vec<u8>)
        requires
            bytes@.len() % 4 == 0,
        ensures
            r@ == if endian is Big {
                swapped_words(bytes@)
            } else {
                bytes@
            },
    {
        match endian {
            Endian::Big => {
                let mut swapped = bytes;
                swap_word_bytes(&mut swapped);
                swapped
            },
            Endian::Little => bytes,
        }
    }

    /// Detects the byte order and normalizes the buffer accordingly; a
    /// detection tie fails with the file's path.
    pub fn swap_endian(bytes: Vec<u8>, file_path: &str) -> (r: Result<Vec<u8>, ProcessErr>)
        requires
            bytes@.len() % 4 == 0,
            bytes@.len() >= 308,
        ensures
            match r {
                Ok(swapped) => be_score(bytes@) != le_score(bytes@) && swapped@ == spec_normalized(
                    bytes@,
                ),
                Err(e) => be_score(bytes@) == le_score(bytes@) && e@ == SpecProcessErr::Extraction(
                    SpecDataExtractionErr::EndianDetectionFailed(file_path@),
                ),
            },
    {
        match Self::detect_endian(&bytes) {
            Ok(endian) => Ok(Self::process_endian(bytes, endian)),
            Err(_) => Err(
                ProcessErr::Extraction(
                    DataExtractionErr::EndianDetectionFailed(file_path.to_owned()),
                ),
            ),
        }
    }
}

/// The detection verdict on a buffer: the hypothesis with the strictly
/// higher score, or nothing on a tie.
pub open spec fn spec_detected(bytes: Seq<u8>) -> Option<Endian> {
    if be_score(bytes) > le_score(bytes) {
        Some(Endian::Big)
    } else if le_score(bytes) > be_score(bytes) {
        Some(Endian::Little)
    } else {
        None
    }
}

/// The buffer re-encoded under a byte order: swapped back for big-endian,
/// unchanged for little-endian.
pub open spec fn spec_encoded(bytes: Seq<u8>, endian: Endian) -> Seq<u8> {
    if endian is Big {
        swapped_words(bytes)
    } else {
        bytes
    }
}

/// Law: endianness detection is symmetric.  On the fully byte-swapped
/// buffer the two hypotheses' scores trade places, so detection returns
/// the opposite verdict — and a tie stays a tie.
pub proof fn lemma_detection_symmetric(bytes: Seq<u8>)
    requires
        bytes.len() % 4 == 0,
        bytes.len() >= 308,
    ensures
        be_score(swapped_words(bytes)) == le_score(bytes),
        le_score(swapped_words(bytes)) == be_score(bytes),
        spec_detected(swapped_words(bytes)) == match spec_detected(bytes) {
            Some(Endian::Big) => Some(Endian::Little),
            Some(Endian::Little) => Some(Endian::Big),
            None => None::<Endian>,
        },
{
    crate::util::lemma_swapped_word_reads(bytes, 0);
    crate::util::lemma_swapped_word_reads(bytes, 1);
    crate::util::lemma_swapped_word_reads(bytes, 2);
    crate::util::lemma_swapped_word_reads(bytes, 5);
    crate::util::lemma_swapped_word_reads(bytes, 6);
    crate::util::lemma_swapped_word_reads(bytes, 76);
    assert(spec_header_le(swapped_words(bytes)) == spec_header_be(bytes));
    assert(spec_header_be(swapped_words(bytes)) == spec_header_le(bytes));
}

/// Law: decoding then re-encoding is the identity.  Normalizing a buffer
/// whose byte order was detected and re-encoding the words under that
/// detected order reproduces the original bytes exactly.
pub proof fn lemma_encode_round_trip(bytes: Seq<u8>)
    requires
        bytes.len() % 4 == 0,
    ensures
        spec_detected(bytes) matches Some(e) ==> spec_encoded(spec_normalized(bytes), e) == bytes,
{
    if spec_detected(bytes) is Some {
        if spec_detected(bytes)->0 is Big {
            crate::util::lemma_swapped_words_involutive(bytes);
        }
    }
}

/// The unit-type label of a classification word value, from the closed
/// lookup table; unrecognized codes map to `notfound`.
pub open spec fn unit_label(code: i32) -> Seq<char> {
    if code == -12345 {
        "undefined"@
    } else if code == 5 {
        "unknown"@
    } else if code == 6 {
        "disp(nm)"@
    } else if code == 7 {
        "Vel(nm/sec)"@
    } else if code == 8 {
        "nm/sec/sec"@
    } else if code == 50 {
        "volts"@
    } else {
        "notfound"@
    }
}

/// A little-endian word reinterpreted as a signed 32-bit value.
pub open spec fn as_i32(w: u32) -> i32 {
    if w >= 0x8000_0000 {
        (w - 0x1_0000_0000) as i32
    } else {
        w as i32
    }
}

/// The SAC version tag of a version word: 6 and 7 are the valid tags.
pub open spec fn spec_nvhdr_of(w: u32) -> Option<Nvhdr> {
    if w == 6 {
        Some(Nvhdr::Ver6)
    } else if w == 7 {
        Some(Nvhdr::Ver7)
    } else {
        None
    }
}

/// Whether `ir` is the record decoded from the normalized buffer `n`:
/// latitude and longitude from words 31 and 32, the unit label from the
/// classification word 86, the version tag from word 76, and the sampling
/// interval from word 0.  Sample series, timestamp and station code are
/// not decoded for this format yet and stay empty.
pub open spec fn sac_ir_matches(ir: SeismicIr, n: Seq<u8>) -> bool {
    &&& ir.num_of_elements == 0
    &&& ir.timestamp@.len() == 0
    &&& ir.acc_values.ns@.len() == 0
    &&& ir.acc_values.ew@.len() == 0
    &&& ir.acc_values.ud@.len() == 0
    &&& ir.source_metadata.unit_type@ == unit_label(as_i32(word_le(n, 86)))
    &&& ir.source_metadata.nvhdr == spec_nvhdr_of(word_le(n, 76))
    &&& ir.source_metadata.delta_t_bits == Some(word_le(n, 0))
    &&& ir.source_metadata.sampling_rate is None
    &&& ir.source_metadata.site_code@.len() == 0
    &&& ir.source_metadata.lat == Some(GeoValue::F32Bits(word_le(n, 31)))
    &&& ir.source_metadata.lon == Some(GeoValue::F32Bits(word_le(n, 32)))
    &&& ir.source_metadata.ad_coefficient is None
}

/// Everything the composite extraction promises, relating the extractor
/// before the call, the extractor after it, and the result.
pub open spec fn sac_extract_post(
    pre: TwPalertSacExtractor,
    post: TwPalertSacExtractor,
    r: Result<SeismicIr, AppError>,
) -> bool {
    let path = pre.unextracted.path@;
    match pre.unextracted.data {
        None => r matches Err(e) && e@ == SpecAppError::Process(
            SpecProcessErr::Extraction(
                SpecDataExtractionErr::MissingFileData("file content"@, path),
            ),
        ) && post == pre,
        Some(TextOrBinary::Text(_)) => r matches Err(e) && e@ == SpecAppError::Process(
            SpecProcessErr::Extraction(
                SpecDataExtractionErr::FormatUnsupported("Text type of SAC"@),
            ),
        ) && post == pre,
        Some(TextOrBinary::Binary(bin)) => {
            let b = bin@;
            &&& b.len() % 4 != 0 ==> (r matches Err(e) && e@ == SpecAppError::Process(
                SpecProcessErr::Extraction(
                    SpecDataExtractionErr::FailedExtraction("4-byte word alignment"@, path),
                ),
            ) && post == pre)
            &&& b.len() % 4 == 0 && b.len() < 308 ==> (r matches Err(e) && e@
                == SpecAppError::Process(
                SpecProcessErr::Extraction(
                    SpecDataExtractionErr::FailedExtraction("SAC header"@, path),
                ),
            ) && post == pre)
            &&& b.len() % 4 == 0 && b.len() >= 308 && be_score(b) == le_score(b) ==> (r
                matches Err(e) && e@ == SpecAppError::Process(
                SpecProcessErr::Extraction(SpecDataExtractionErr::EndianDetectionFailed(path)),
            ) && post == pre)
            &&& b.len() % 4 == 0 && b.len() >= 308 && be_score(b) != le_score(b) ==> {
                let n = spec_normalized(b);
                &&& post.unextracted.conv_name == pre.unextracted.conv_name
                &&& post.unextracted.from == pre.unextracted.from
                &&& post.unextracted.to == pre.unextracted.to
                &&& post.unextracted.group_index == pre.unextracted.group_index
                &&& post.unextracted.file_index == pre.unextracted.file_index
                &&& post.unextracted.acc_axis == pre.unextracted.acc_axis
                &&& post.unextracted.path == pre.unextracted.path
                &&& post.unextracted.data matches Some(TextOrBinary::Binary(nb)) && nb@ == n
                &&& if b.len() < 348 {
                    r matches Err(e) && e@ == SpecAppError::Process(
                        SpecProcessErr::Extraction(
                            SpecDataExtractionErr::FailedExtraction("unit type"@, path),
                        ),
                    )
                } else {
                    r matches Ok(ir) && sac_ir_matches(ir, n)
                }
            }
        },
    }
}

/// Decoder for binary SAC records.
#[derive(Debug)]
pub struct TwPalertSacExtractor {
    pub unextracted: ProcessableFile,
}

impl TwPalertSacExtractor {
    pub fn new(unextracted: ProcessableFile) -> (r: Self)
        ensures
            r.unextracted == unextracted,
    {
        Self { unextracted }
    }

    /// The composite extraction: normalizes the byte order in place, then
    /// decodes latitude, longitude, the unit type, and the version tag
    /// from their fixed word offsets, and assembles the IR.  The first
    /// hard failure aborts this unit's extraction.
    pub fn extract(&mut self) -> (r: Result<SeismicIr, AppError>)
        ensures
            sac_extract_post(*old(self), *final(self), r),
    {
        match self.swap_little_endian() {
            Ok(()) => {},
            Err(e) => {
                return Err(AppError::Process(e));
            },
        }
        let lat = match self.extract_latitude() {
            Ok(w) => w,
            Err(e) => {
                return Err(AppError::Process(e));
            },
        };
        let lon = match self.extract_longitude() {
            Ok(w) => w,
            Err(e) => {
                return Err(AppError::Process(e));
            },
        };
        let unit_type = match self.extract_unit_type() {
            Ok(s) => s,
            Err(e) => {
                return Err(AppError::Process(e));
            },
        };
        let nvhdr = self.extract_nvhdr();
        let delta = self.extract_delta_bits();
        Ok(
            SeismicIr {
                num_of_elements: 0,
                timestamp: String::new(),
                acc_values: Acceleration { ns: Vec::new(), ew: Vec::new(), ud: Vec::new() },
                source_metadata: FormatMetadata {
                    unit_type,
                    nvhdr,
                    delta_t_bits: delta,
                    sampling_rate: None,
                    site_code: String::new(),
                    lat: Some(GeoValue::F32Bits(lat)),
                    lon: Some(GeoValue::F32Bits(lon)),
                    ad_coefficient: None,
                },
            },
        )
    }

    /// Detects the record's byte order and rewrites the buffer to
    /// canonical little-endian words in place.  A buffer that is not a
    /// whole number of words, is too short for the detection header, or
    /// scores a tie is a hard failure and stays unchanged.
    pub fn swap_little_endian(&mut self) -> (r: Result<(), ProcessErr>)
        ensures
            match old(self).unextracted.data {
                None => r matches Err(e) && e@ == SpecProcessErr::Extraction(
                    SpecDataExtractionErr::MissingFileData(
                        "file content"@,
                        old(self).unextracted.path@,
                    ),
                ) && *final(self) == *old(self),
                Some(TextOrBinary::Text(_)) => r matches Err(e) && e@ == SpecProcessErr::Extraction(
                    SpecDataExtractionErr::FormatUnsupported("Text type of SAC"@),
                ) && *final(self) == *old(self),
                Some(TextOrBinary::Binary(bin)) => {
                    &&& bin@.len() % 4 != 0 ==> (r matches Err(e) && e@
                        == SpecProcessErr::Extraction(
                        SpecDataExtractionErr::FailedExtraction(
                            "4-byte word alignment"@,
                            old(self).unextracted.path@,
                        ),
                    ) && *final(self) == *old(self))
                    &&& bin@.len() % 4 == 0 && bin@.len() < 308 ==> (r matches Err(e) && e@
                        == SpecProcessErr::Extraction(
                        SpecDataExtractionErr::FailedExtraction(
                            "SAC header"@,
                            old(self).unextracted.path@,
                        ),
                    ) && *final(self) == *old(self))
                    &&& bin@.len() % 4 == 0 && bin@.len() >= 308 && be_score(bin@) == le_score(
                        bin@,
                    ) ==> (r matches Err(e) && e@ == SpecProcessErr::Extraction(
                        SpecDataExtractionErr::EndianDetectionFailed(old(self).unextracted.path@),
                    ) && *final(self) == *old(self))
                    &&& bin@.len() % 4 == 0 && bin@.len() >= 308 && be_score(bin@) != le_score(
                        bin@,
                    ) ==> {
                        &&& r matches Ok(u) && u == ()
                        &&& final(self).unextracted.conv_name == old(self).unextracted.conv_name
                        &&& final(self).unextracted.from == old(self).unextracted.from
                        &&& final(self).unextracted.to == old(self).unextracted.to
                        &&& final(self).unextracted.group_index == old(
                            self,
                        ).unextracted.group_index
                        &&& final(self).unextracted.file_index == old(self).unextracted.file_index
                        &&& final(self).unextracted.acc_axis == old(self).unextracted.acc_axis
                        &&& final(self).unextracted.path == old(self).unextracted.path
                        &&& final(self).unextracted.data matches Some(TextOrBinary::Binary(nb))
                            && nb@ == spec_normalized(bin@)
                    }
                },
            },
    {
        let path = self.unextracted.path.clone();
        match &mut self.unextracted.data {
            None => Err(
                ProcessErr::Extraction(
                    DataExtractionErr::MissingFileData("file content".to_owned(), path),
                ),
            ),
            Some(TextOrBinary::Text(_)) => Err(
                ProcessErr::Extraction(
                    DataExtractionErr::FormatUnsupported("Text type of SAC".to_owned()),
                ),
            ),
            Some(TextOrBinary::Binary(bin)) => {
                let len = bin.len();
                if len % 4 != 0 {
                    return Err(
                        ProcessErr::Extraction(
                            DataExtractionErr::FailedExtraction(
                                "4-byte word alignment".to_owned(),
                                path,
                            ),
                        ),
                    );
                }
                if len < 308 {
                    return Err(
                        ProcessErr::Extraction(
                            DataExtractionErr::FailedExtraction("SAC header".to_owned(), path),
                        ),
                    );
                }
                match SacHeader::detect_endian(bin) {
                    Ok(Endian::Big) => {
                        swap_word_bytes(bin);
                        Ok(())
                    },
                    Ok(Endian::Little) => Ok(()),
                    Err(_) => Err(
                        ProcessErr::Extraction(DataExtractionErr::EndianDetectionFailed(path)),
                    ),
                }
            },
        }
    }

    /// The file's binary payload, or the error the payload's absence or
    /// kind dictates.
    fn binary_data(&self) -> (r: Result<&Vec<u8>, ProcessErr>)
        ensures
            match self.unextracted.data {
                None => r matches Err(e) && e@ == SpecProcessErr::Extraction(
                    SpecDataExtractionErr::MissingFileData(
                        "file content"@,
                        self.unextracted.path@,
                    ),
                ),
                Some(TextOrBinary::Text(_)) => r matches Err(e) && e@ == SpecProcessErr::Extraction(
                    SpecDataExtractionErr::FormatUnsupported("Text type of SAC"@),
                ),
                Some(TextOrBinary::Binary(bin)) => r matches Ok(v) && v == &bin,
            },
    {
        match &self.unextracted.data {
            None => Err(
                ProcessErr::Extraction(
                    DataExtractionErr::MissingFileData(
                        "file content".to_owned(),
                        self.unextracted.path.clone(),
                    ),
                ),
            ),
            Some(TextOrBinary::Text(_)) => Err(
                ProcessErr::Extraction(
                    DataExtractionErr::FormatUnsupported("Text type of SAC".to_owned()),
                ),
            ),
            Some(TextOrBinary::Binary(bin)) => Ok(bin),
        }
    }

    /// Latitude: the single-precision bit pattern at word 31 of the
    /// (already normalized) buffer.
    pub fn extract_latitude(&self) -> (r: Result<u32, ProcessErr>)
        ensures
            match self.unextracted.data {
                None => r matches Err(e) && e@ == SpecProcessErr::Extraction(
                    SpecDataExtractionErr::MissingFileData(
                        "file content"@,
                        self.unextracted.path@,
                    ),
                ),
                Some(TextOrBinary::Text(_)) => r matches Err(e) && e@ == SpecProcessErr::Extraction(
                    SpecDataExtractionErr::FormatUnsupported("Text type of SAC"@),
                ),
                Some(TextOrBinary::Binary(bin)) => if bin@.len() >= 128 {
                    r == Ok::<u32, ProcessErr>(word_le(bin@, 31))
                } else {
                    r matches Err(e) && e@ == SpecProcessErr::Extraction(
                        SpecDataExtractionErr::FailedExtraction(
                            "latitude"@,
                            self.unextracted.path@,
                        ),
                    )
                },
            },
    {
        let bin = match self.binary_data() {
            Ok(b) => b,
            Err(e) => {
                return Err(e);
            },
        };
        if bin.len() >= 128 {
            Ok(read_word_le(bin, 31))
        } else {
            Err(
                ProcessErr::Extraction(
                    DataExtractionErr::FailedExtraction(
                        "latitude".to_owned(),
                        self.unextracted.path.clone(),
                    ),
                ),
            )
        }
    }

    /// Longitude: the single-precision bit pattern at word 32 of the
    /// (already normalized) buffer.
    pub fn extract_longitude(&self) -> (r: Result<u32, ProcessErr>)
        ensures
            match self.unextracted.data {
                None => r matches Err(e) && e@ == SpecProcessErr::Extraction(
                    SpecDataExtractionErr::MissingFileData(
                        "file content"@,
                        self.unextracted.path@,
                    ),
                ),
                Some(TextOrBinary::Text(_)) => r matches Err(e) && e@ == SpecProcessErr::Extraction(
                    SpecDataExtractionErr::FormatUnsupported("Text type of SAC"@),
                ),
                Some(TextOrBinary::Binary(bin)) => if bin@.len() >= 132 {
                    r == Ok::<u32, ProcessErr>(word_le(bin@, 32))
                } else {
                    r matches Err(e) && e@ == SpecProcessErr::Extraction(
                        SpecDataExtractionErr::FailedExtraction(
                            "longitude"@,
                            self.unextracted.path@,
                        ),
                    )
                },
            },
    {
        let bin = match self.binary_data() {
            Ok(b) => b,
            Err(e) => {
                return Err(e);
            },
        };
        if bin.len() >= 132 {
            Ok(read_word_le(bin, 32))
        } else {
            Err(
                ProcessErr::Extraction(
                    DataExtractionErr::FailedExtraction(
                        "longitude".to_owned(),
                        self.unextracted.path.clone(),
                    ),
                ),
            )
        }
    }

    /// Unit-type label: the classification word at index 86 looked up in
    /// the closed unit table.
    pub fn extract_unit_type(&self) -> (r: Result<String, ProcessErr>)
        ensures
            match self.unextracted.data {
                None => r matches Err(e) && e@ == SpecProcessErr::Extraction(
                    SpecDataExtractionErr::MissingFileData(
                        "file content"@,
                        self.unextracted.path@,
                    ),
                ),
                Some(TextOrBinary::Text(_)) => r matches Err(e) && e@ == SpecProcessErr::Extraction(
                    SpecDataExtractionErr::FormatUnsupported("Text type of SAC"@),
                ),
                Some(TextOrBinary::Binary(bin)) => if bin@.len() >= 348 {
                    r matches Ok(s) && s@ == unit_label(as_i32(word_le(bin@, 86)))
                } else {
                    r matches Err(e) && e@ == SpecProcessErr::Extraction(
                        SpecDataExtractionErr::FailedExtraction(
                            "unit type"@,
                            self.unextracted.path@,
                        ),
                    )
                },
            },
    {
        let bin = match self.binary_data() {
            Ok(b) => b,
            Err(e) => {
                return Err(e);
            },
        };
        if bin.len() < 348 {
            return Err(
                ProcessErr::Extraction(
                    DataExtractionErr::FailedExtraction(
                        "unit type".to_owned(),
                        self.unextracted.path.clone(),
                    ),
                ),
            );
        }
        let w = read_word_le(bin, 86);
        let idep_val: i32 = if w >= 0x8000_0000 {
            -((0xFFFF_FFFFu32 - w) as i32) - 1
        } else {
            w as i32
        };
        let label: &str = if idep_val == -12345 {
            "undefined"
        } else if idep_val == 5 {
            "unknown"
        } else if idep_val == 6 {
            "disp(nm)"
        } else if idep_val == 7 {
            "Vel(nm/sec)"
        } else if idep_val == 8 {
            "nm/sec/sec"
        } else if idep_val == 50 {
            "volts"
        } else {
            "notfound"
        };
        Ok(label.to_owned())
    }

    /// Acceleration-series decoding is not implemented for this format
    /// yet: always the explicit unsupported-capability error.
    pub fn extract_acc_values(&self) -> (r: Result<Acceleration, ProcessErr>)
        ensures
            r matches Err(e) && e@ == SpecProcessErr::Extraction(
                SpecDataExtractionErr::FormatUnsupported("acceleration series of SAC"@),
            ),
    {
        Err(
            ProcessErr::Extraction(
                DataExtractionErr::FormatUnsupported("acceleration series of SAC".to_owned()),
            ),
        )
    }

    /// Initial-time decoding is not implemented for this format yet:
    /// always the explicit unsupported-capability error.
    pub fn extract_initial_time(&self) -> (r: Result<String, ProcessErr>)
        ensures
            r matches Err(e) && e@ == SpecProcessErr::Extraction(
                SpecDataExtractionErr::FormatUnsupported("initial time of SAC"@),
            ),
    {
        Err(
            ProcessErr::Extraction(
                DataExtractionErr::FormatUnsupported("initial time of SAC".to_owned()),
            ),
        )
    }

    /// The version tag at word 76, when the buffer holds it and the word
    /// is a valid tag.
    fn extract_nvhdr(&self) -> (r: Option<Nvhdr>)
        ensures
            r == match self.unextracted.data {
                Some(TextOrBinary::Binary(bin)) => if bin@.len() >= 308 {
                    spec_nvhdr_of(word_le(bin@, 76))
                } else {
                    None::<Nvhdr>
                },
                _ => None::<Nvhdr>,
            },
    {
        match &self.unextracted.data {
            Some(TextOrBinary::Binary(bin)) => {
                if bin.len() >= 308 {
                    let w = read_word_le(bin, 76);
                    if w == 6 {
                        Some(Nvhdr::Ver6)
                    } else if w == 7 {
                        Some(Nvhdr::Ver7)
                    } else {
                        None
                    }
                } else {
                    None
                }
            },
            _ => None,
        }
    }

    /// The sampling-interval bit pattern at word 0, when the buffer holds
    /// it.
    fn extract_delta_bits(&self) -> (r: Option<u32>)
        ensures
            r == match self.unextracted.data {
                Some(TextOrBinary::Binary(bin)) => if bin@.len() >= 4 {
                    Some(word_le(bin@, 0))
                } else {
                    None::<u32>
                },
                _ => None::<u32>,
            },
    {
        match &self.unextracted.data {
            Some(TextOrBinary::Binary(bin)) => {
                if bin.len() >= 4 {
                    Some(read_word_le(bin, 0))
                } else {
                    None
                }
            },
            _ => None,
        }
    }
}

} // verus!
