//! Encoder for the chunked `MGIc` texture container (`.tif`) that the two
//! MechAssault engine generations read.
//!
//! An encode is a function of an RGBA8 image, a pixel format and an engine
//! variant to a byte stream:
//!
//! * [`format`] resolves the format name to a closed enumeration with its
//!   code and storage class, and builds the flags word;
//! * [`mip`] and [`texture`] plan the mip chain and the size of every level
//!   before a byte is written;
//! * [`pixel`] packs one sample into the bit layout of an uncompressed
//!   format, and [`payload`] lays the samples or the compressed levels out;
//! * [`container`] writes the header, whose length fields all follow from
//!   the planned sizes, and then the payload.
//!
//! Every function is verified against a mathematical description of the
//! bytes it produces. Block compression and resampling are done by other
//! crates; the three calls into them stand in [`codec`], each with the
//! contract the rest of the crate relies on.

pub mod bytes;
pub mod codec;
pub mod container;
pub mod format;
pub mod mip;
pub mod payload;
pub mod pixel;
pub mod raster;
pub mod text;
pub mod texture;
