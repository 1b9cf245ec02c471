//! Verified core machinery for block-compressed sequence and variant files:
//! BGZF block framing and virtual-position addressing, a CRAM adaptive
//! range-coder model, CRAM slice assembly, and the record filter and state
//! machine behind indexed queries.

pub mod aac;
pub mod bgzf;
pub mod chromosome;
pub mod cram_record;
pub mod error;
pub mod flate;
pub mod gzip;
pub mod query;
pub mod reference;
pub mod slice;
pub mod tag_type;
pub mod virtual_position;
