//! Incremental muxer for the EBML/Matroska-WebM container format.
//!
//! The crate is organised around two cores: the EBML codec primitives
//! (variable-length ids, size fields and typed payloads, together with the
//! reserve-placeholder-then-backpatch protocol) and the Cluster frame
//! scheduler (hold-back queues, k-way timestamp merge and two-phase
//! finalization). The remaining modules are attribute-to-element mappings
//! built on the same codec.
#![allow(non_snake_case)]


pub mod chapter;
pub mod chapters;
pub mod cluster;
pub mod colour;
pub mod content_enc_aes_settings;
pub mod content_encoding;
pub mod cue_point;
pub mod cues;
pub mod frame;
pub mod ids;
pub mod projection;
pub mod seek_head;
pub mod tag;
pub mod track;
pub mod tracks;
pub mod util;
pub mod writer;
