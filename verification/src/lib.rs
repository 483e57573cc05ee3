//! Decoders for textual firmware dump formats (S-record, Intel HEX, and a
//! vendor hex-dump), a sparse byte-image builder that merges decoded records
//! into one flat binary, and small standalone byte transforms (CRC-32, XOR
//! stream, odd parity).

pub mod common;
pub mod diag;
pub mod dtb;
pub mod hexutil;
pub mod ihex;
pub mod image;
pub mod srec;
pub mod uboot;
pub mod utils;
