//! Stream filters and output formats.
use vstd::prelude::*;

verus! {

/// One stage of a stream's filter chain.
#[derive(Clone, Copy, Debug, PartialEq, Eq, Structural)]
pub enum Filter {
    /// Generic lossless compression (deflate); the bytes hold samples.
    Flate,
    /// A complete JPEG image.
    Dct,
    /// A complete JPEG 2000 codestream.
    Jpx,
    /// A JBIG2 bitstream.
    Jbig2,
    /// CCITT fax compression, which the decoder does not implement.
    CcittFax,
    /// Any other identifier.
    Unsupported,
}

/// An output image encoding.
#[derive(Clone, Copy, Debug, PartialEq, Eq, Structural)]
pub enum ImageFormat {
    Jpeg,
    Png,
    /// JPEG 2000: written only verbatim.
    Jp2k,
    /// JBIG2: written only verbatim.
    Jbig2,
}

/// The image format that a filter's output already is, if any.
pub open spec fn pass_through_format(f: Filter) -> Option<ImageFormat> {
    match f {
        Filter::Dct => Some(ImageFormat::Jpeg),
        Filter::Jpx => Some(ImageFormat::Jp2k),
        Filter::Jbig2 => Some(ImageFormat::Jbig2),
        _ => None,
    }
}

impl Filter {
    /// The format whose bytes this filter produces, for the filters whose
    /// output is itself a complete image.
    pub fn pass_through(self) -> (r: Option<ImageFormat>)
        ensures
            r == pass_through_format(self),
    {
        match self {
            Filter::Dct => Some(ImageFormat::Jpeg),
            Filter::Jpx => Some(ImageFormat::Jp2k),
            Filter::Jbig2 => Some(ImageFormat::Jbig2),
            _ => None,
        }
    }
}

impl Default for ImageFormat {
    /// PNG: lossless, and able to hold every pixel buffer the decoder makes.
    fn default() -> (r: ImageFormat)
        ensures
            r == ImageFormat::Png,
    {
        ImageFormat::Png
    }
}

impl ImageFormat {
    /// The conventional file extension of the format.
    pub fn extension(self) -> (r: &'static str)
        ensures
            self == ImageFormat::Jpeg ==> r@ == "jpeg"@,
            self == ImageFormat::Png ==> r@ == "png"@,
            self == ImageFormat::Jp2k ==> r@ == "jp2"@,
            self == ImageFormat::Jbig2 ==> r@ == "jbig2"@,
    {
        match self {
            ImageFormat::Jpeg => "jpeg",
            ImageFormat::Png => "png",
            ImageFormat::Jp2k => "jp2",
            ImageFormat::Jbig2 => "jbig2",
        }
    }

    /// Whether the writer has an encoder for this format, that is whether it
    /// can produce it from pixels.
    pub fn has_encoder(self) -> (r: bool)
        ensures
            r == (self == ImageFormat::Jpeg || self == ImageFormat::Png),
    {
        match self {
            ImageFormat::Jpeg | ImageFormat::Png => true,
            _ => false,
        }
    }
}

} // verus!
