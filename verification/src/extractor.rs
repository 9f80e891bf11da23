//! The per-format decoders and their dispatch.

pub mod extractor;
pub mod jp_nied_knet_une;
pub mod tw_palert_sac;
