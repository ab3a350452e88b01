//! Extraction of embedded raster images from page-oriented documents and
//! their re-encoding into a chosen output format.
//!
//! The document is held as an arena of objects addressed by reference
//! ([`document`]); the walk over pages collects image resources, each image's
//! stream is decoded into a [`raw::RawImage`] and handed to the format writer.
use vstd::prelude::*;

pub mod document;
pub mod filter;
pub mod raw;
pub mod writer;
pub mod pipeline;
