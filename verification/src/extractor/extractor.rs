//! Dispatch from a unit's source format to its concrete decoder.
//!
//! The decoder set is a closed tagged variant: adding a format forces
//! every match here to be extended.  Formats without an implemented
//! decoder surface an explicit "format not supported" result instead of
//! aborting, so a batch stays partially processable.

use vstd::prelude::*;
use crate::analysis_config::FromType;
use crate::error::{DataExtractionErr, ProcessErr, SpecDataExtractionErr, SpecProcessErr};
use crate::model::ir::{ProcessableFile, SeismicIr};
use crate::error::AppError;
use super::jp_nied_knet_une::{knet_extract_post, JpNiedKnetUneExtractor};
use super::tw_palert_sac::{sac_extract_post, TwPalertSacExtractor};

verus! {

/// A concrete decoder, one variant per implemented source format.
#[derive(Debug)]
pub enum Extractor {
    JpNiedKnetUne(JpNiedKnetUneExtractor),
    TwPalertSac(TwPalertSacExtractor),
}

impl Extractor {
    /// Runs the concrete decoder's composite extraction on the held unit.
    pub fn extract(&mut self) -> (r: Result<SeismicIr, AppError>)
        ensures
            match *old(self) {
                Extractor::JpNiedKnetUne(x) => *final(self) == *old(self) && knet_extract_post(
                    x,
                    r,
                ),
                Extractor::TwPalertSac(x) => *final(self) matches Extractor::TwPalertSac(y)
                    && sac_extract_post(x, y, r),
            },
    {
        match self {
            Extractor::JpNiedKnetUne(x) => x.extract(),
            Extractor::TwPalertSac(x) => x.extract(),
        }
    }
}

/// Selects the decoder for the unit's source format; formats without a
/// decoder yield an explicit unsupported-format error.
pub fn create_extractor(conversion: ProcessableFile) -> (r: Result<Extractor, ProcessErr>)
    ensures
        match conversion.from {
            FromType::JpNiedKnet => r matches Ok(Extractor::JpNiedKnetUne(x)) && x.unextracted
                == conversion,
            FromType::TwPalertSac => r matches Ok(Extractor::TwPalertSac(x)) && x.unextracted
                == conversion,
            _ => r matches Err(e) && e@ == SpecProcessErr::Extraction(
                SpecDataExtractionErr::FormatUnsupported(conversion.from.spec_snake_case()),
            ),
        },
{
    match conversion.from {
        FromType::JpNiedKnet => Ok(
            Extractor::JpNiedKnetUne(JpNiedKnetUneExtractor::new(conversion)),
        ),
        FromType::TwPalertSac => Ok(Extractor::TwPalertSac(TwPalertSacExtractor::new(conversion))),
        _ => {
            let name = conversion.from.to_snake_case();
            Err(ProcessErr::Extraction(DataExtractionErr::FormatUnsupported(name.to_owned())))
        },
    }
}

} // verus!
