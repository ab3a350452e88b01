//! Stream extraction and decoding into the normalized [`RawImage`].
use vstd::prelude::*;
use vstd::arithmetic::power2::{pow2, lemma2_to64};
use vstd::arithmetic::div_mod::lemma_fundamental_div_mod_converse;
use crate::document::{ColorSpace, ImageDict, channels_of};
use crate::filter::{Filter, ImageFormat, pass_through_format};

verus! {

/// Which dictionary entry of an image is missing or invalid.
#[derive(Clone, Copy, Debug, PartialEq, Eq, Structural)]
pub enum MalformedImage {
    Width,
    Height,
    BitsPerComponent,
    ColorSpace,
}

/// Why the sample data of an image could not be decoded.
#[derive(Clone, Copy, Debug, PartialEq, Eq, Structural)]
pub enum DecodeError {
    /// The compressed layer is corrupt.
    Inflate,
    /// Fewer bytes than the dimensions ask for.
    Truncated,
    /// The pixel buffer would not fit in memory.
    TooLarge,
}

/// Why a format writer could not produce its output.
#[derive(Clone, Copy, Debug, PartialEq, Eq, Structural)]
pub enum EncodeError {
    /// The source is a pass-through encoding that cannot be decoded here.
    ConversionUnsupported,
    /// The target format has no encoder: it can only be written verbatim.
    NoEncoder,
    /// The pass-through source bytes could not be decoded.
    SourceUndecodable,
    /// The target encoder rejected the pixels.
    EncoderRejected,
}

/// What went wrong with one image; each is confined to that image.
#[derive(Clone, Copy, Debug, PartialEq, Eq, Structural)]
pub enum ImageError {
    Malformed(MalformedImage),
    UnsupportedFilter(Filter),
    Decode(DecodeError),
    Encode(EncodeError),
}

/// The metadata of an image whose dimensions were found valid.
#[derive(Clone, Copy, Debug, PartialEq, Eq, Structural)]
pub struct ImageMeta {
    pub width: u32,
    pub height: u32,
    pub bits_per_component: Option<u8>,
    pub color_space: Option<ColorSpace>,
}

/// An image's stream, borrowed from its dictionary, with its metadata.
pub struct EncodedStream<'a> {
    pub bytes: &'a Vec<u8>,
    pub filters: &'a Vec<Filter>,
    pub meta: ImageMeta,
}

/// A decoded image: flat samples, or bytes that already are a complete image.
#[derive(Clone, Debug)]
pub enum RawImage {
    Pixels(PixelBuffer),
    PassThrough { format: ImageFormat, bytes: Vec<u8> },
}

/// Samples in row-major order, components interleaved. Depths below eight
/// bits take one byte per sample holding the sample's value; sixteen-bit
/// samples take two bytes, most significant first.
#[derive(Clone, Debug)]
pub struct PixelBuffer {
    pub width: u32,
    pub height: u32,
    pub color: ColorSpace,
    pub bits_per_component: u8,
    pub samples: Vec<u8>,
}

/// The mathematical content of a [`RawImage`].
pub enum RawSpec {
    Pixels { width: u32, height: u32, color: ColorSpace, bits_per_component: u8, samples: Seq<u8> },
    PassThrough { format: ImageFormat, bytes: Seq<u8> },
}

impl RawImage {
    pub open spec fn spec_view(&self) -> RawSpec {
        match self {
            RawImage::Pixels(p) => RawSpec::Pixels {
                width: p.width,
                height: p.height,
                color: p.color,
                bits_per_component: p.bits_per_component,
                samples: p.samples@,
            },
            RawImage::PassThrough { format, bytes } => RawSpec::PassThrough {
                format: *format,
                bytes: bytes@,
            },
        }
    }

    /// A pixel buffer, if the image has one, is well formed.
    pub open spec fn wf(&self) -> bool {
        self matches RawImage::Pixels(p) ==> p.wf()
    }
}

/// The content of a decoding result.
pub open spec fn result_view(r: Result<RawImage, ImageError>) -> Result<RawSpec, ImageError> {
    match r {
        Ok(x) => Ok(x.spec_view()),
        Err(e) => Err(e),
    }
}

pub open spec fn valid_depth(bpc: int) -> bool {
    bpc == 1 || bpc == 2 || bpc == 4 || bpc == 8 || bpc == 16
}

/// Bytes that one sample takes in a pixel buffer: the depth rounded up to
/// whole bytes.
pub open spec fn bytes_per_sample(bpc: int) -> int {
    (bpc + 7) / 8
}

/// Samples stored in one byte of a packed row, for depths below eight.
pub open spec fn samples_per_byte(bpc: int) -> int {
    8int / bpc
}

/// Bytes of one stored row of `spr` samples: rows start on a byte boundary.
pub open spec fn row_bytes(spr: int, bpc: int) -> int {
    if bpc >= 8 {
        spr * (bpc / 8)
    } else {
        (spr + samples_per_byte(bpc) - 1) / samples_per_byte(bpc)
    }
}

impl PixelBuffer {
    /// The buffer's length matches its dimensions, components and depth.
    pub open spec fn wf(&self) -> bool {
        &&& self.color != ColorSpace::Other
        &&& valid_depth(self.bits_per_component as int)
        &&& self.samples@.len() == self.width * self.height * channels_of(self.color)
            * bytes_per_sample(self.bits_per_component as int)
    }
}

/// Extraction succeeds exactly when both dimensions are present and positive.
pub open spec fn dims_valid(d: ImageDict) -> bool {
    &&& d.width matches Some(w) && w > 0
    &&& d.height matches Some(h) && h > 0
}

/// Reads an image's stream and filter chain and checks its dimensions.
pub fn extract_stream(d: &ImageDict) -> (r: Result<EncodedStream<'_>, MalformedImage>)
    ensures
        r is Ok <==> dims_valid(*d),
        r matches Ok(s) ==> {
            &&& s.bytes@ == d.data@
            &&& s.filters@ == d.filters@
            &&& Some(s.meta.width) == d.width
            &&& Some(s.meta.height) == d.height
            &&& s.meta.bits_per_component == d.bits_per_component
            &&& s.meta.color_space == d.color_space
        },
        r matches Err(e) ==> {
            ||| e == MalformedImage::Width && !(d.width matches Some(w) && w > 0)
            ||| e == MalformedImage::Height && (d.width matches Some(w) && w > 0)
                && !(d.height matches Some(h) && h > 0)
        },
{
    let width = match d.width {
        Some(w) if w > 0 => w,
        _ => return Err(MalformedImage::Width),
    };
    let height = match d.height {
        Some(h) if h > 0 => h,
        _ => return Err(MalformedImage::Height),
    };
    Ok(EncodedStream {
        bytes: &d.data,
        filters: &d.filters,
        meta: ImageMeta {
            width,
            height,
            bits_per_component: d.bits_per_component,
            color_space: d.color_space,
        },
    })
}

/// The value of sample `k` of row `y`, in rows of `rb` bytes where each byte
/// packs several samples of `bpc` bits, the first in the high bits.
pub open spec fn packed_sample(data: Seq<u8>, rb: int, bpc: int, y: int, k: int) -> u8 {
    let per = samples_per_byte(bpc);
    let byte = data[y * rb + k / per] as int;
    ((byte / pow2((8 - bpc * (k % per + 1)) as nat) as int) % (pow2(bpc as nat) as int)) as u8
}

/// The pixel-buffer samples held by stored rows of `spr` samples each.
pub open spec fn unpacked(data: Seq<u8>, spr: int, h: int, bpc: int) -> Seq<u8> {
    if bpc >= 8 {
        data.subrange(0, h * spr * bytes_per_sample(bpc))
    } else {
        Seq::new(
            (h * spr) as nat,
            |s: int| packed_sample(data, row_bytes(spr, bpc), bpc, s / spr, s % spr),
        )
    }
}

/// 2 to the power `e`, for `e` at most 8.
pub(crate) fn pow2_u16(e: u8) -> (r: u16)
    requires
        e <= 8,
    ensures
        r as nat == pow2(e as nat),
        0 < r <= 256,
{
    proof {
        lemma2_to64();
    }
    match e {
        0 => 1,
        1 => 2,
        2 => 4,
        3 => 8,
        4 => 16,
        5 => 32,
        6 => 64,
        7 => 128,
        _ => 256,
    }
}

/// Copies the first `n` bytes.
fn copy_prefix(data: &Vec<u8>, n: usize) -> (out: Vec<u8>)
    requires
        n <= data@.len(),
    ensures
        out@ == data@.subrange(0, n as int),
{
    let mut out: Vec<u8> = Vec::with_capacity(n);
    let mut i: usize = 0;
    while i < n
        invariant
            i <= n <= data@.len(),
            out@ == data@.subrange(0, i as int),
        decreases n - i,
    {
        out.push(data[i]);
        assert(out@ =~= data@.subrange(0, i + 1));
        i = i + 1;
    }
    out
}

/// Spreads packed rows of sub-byte samples into one byte per sample.
fn unpack_bits(data: &Vec<u8>, spr: usize, rb: usize, h: usize, bpc: u8) -> (out: Vec<u8>)
    requires
        bpc == 1 || bpc == 2 || bpc == 4,
        rb == row_bytes(spr as int, bpc as int),
        h * rb <= data@.len(),
        h * spr <= usize::MAX,
    ensures
        out@ == unpacked(data@, spr as int, h as int, bpc as int),
{
    let per: u8 = if bpc == 1 {
        8
    } else if bpc == 2 {
        4
    } else {
        2
    };
    let dl = data.len();
    proof {
        if bpc == 1 {
            assert(8int / 1int == 8);
        } else if bpc == 2 {
            assert(8int / 2int == 4);
        } else {
            assert(8int / 4int == 2);
        }
    }
    let mut out: Vec<u8> = Vec::new();
    let mut y: usize = 0;
    let mut base: usize = 0;
    while y < h
        invariant
            bpc == 1 || bpc == 2 || bpc == 4,
            per as int == samples_per_byte(bpc as int),
            bpc == 1 && per == 8 || bpc == 2 && per == 4 || bpc == 4 && per == 2,
            dl == data@.len(),
            rb == row_bytes(spr as int, bpc as int),
            h * rb <= data@.len(),
            h * spr <= usize::MAX,
            y <= h,
            base == y * rb,
            out@.len() == y * spr,
            forall|j: int|
                0 <= j < out@.len() ==> #[trigger] out@[j] == packed_sample(
                    data@,
                    rb as int,
                    bpc as int,
                    j / spr as int,
                    j % spr as int,
                ),
        decreases h - y,
    {
        proof {
            assert(base + rb <= h * rb) by (nonlinear_arith)
                requires
                    base == y * rb,
                    y < h,
            ;
            assert(y * spr + spr <= h * spr) by (nonlinear_arith)
                requires
                    y < h,
            ;
        }
        let mut k: usize = 0;
        let mut bidx: usize = 0;
        let mut pos: u8 = 0;
        while k < spr
            invariant
                bpc == 1 || bpc == 2 || bpc == 4,
                per as int == samples_per_byte(bpc as int),
                bpc == 1 && per == 8 || bpc == 2 && per == 4 || bpc == 4 && per == 2,
                rb == row_bytes(spr as int, bpc as int),
                h * rb <= data@.len(),
                dl == data@.len(),
                y < h,
                base == y * rb,
                base + rb <= h * rb,
                y * spr + spr <= h * spr <= usize::MAX,
                k <= spr,
                k == bidx * per + pos,
                pos < per,
                out@.len() == y * spr + k,
                forall|j: int|
                    0 <= j < out@.len() ==> #[trigger] out@[j] == packed_sample(
                        data@,
                        rb as int,
                        bpc as int,
                        j / spr as int,
                        j % spr as int,
                    ),
            decreases spr - k,
        {
            proof {
                assert(bidx < rb) by (nonlinear_arith)
                    requires
                        k == bidx * per + pos,
                        k < spr,
                        per == 8 || per == 4 || per == 2,
                        rb == (spr + per - 1) / (per as int),
                ;
                assert(bpc * (pos + 1) <= 8) by (nonlinear_arith)
                    requires
                        bpc == 1 && per == 8 || bpc == 2 && per == 4 || bpc == 4 && per == 2,
                        pos < per,
                ;
            }
            let byte = data[base + bidx];
            let shift: u8 = 8 - bpc * (pos + 1);
            let v: u16 = (byte as u16 / pow2_u16(shift)) % pow2_u16(bpc);
            proof {
                let n = out@.len() as int;
                lemma_fundamental_div_mod_converse(n, spr as int, y as int, k as int);
                lemma_fundamental_div_mod_converse(k as int, per as int, bidx as int, pos as int);
            }
            assert(v < 256);
            out.push(v as u8);
            pos = pos + 1;
            if pos == per {
                pos = 0;
                bidx = bidx + 1;
            }
            k = k + 1;
        }
        assert((y + 1) * rb == y * rb + rb) by (nonlinear_arith);
        assert((y + 1) * spr == y * spr + spr) by (nonlinear_arith);
        y = y + 1;
        base = base + rb;
    }
    assert(out@ =~= unpacked(data@, spr as int, h as int, bpc as int));
    out
}

/// The result of inflating `b` with `pdf::enc::flate_decode`, `None` where the
/// stream is corrupt.
pub uninterp spec fn inflated(b: Seq<u8>) -> Option<Seq<u8>>;

/// Relies on `pdf::enc::flate_decode` with default parameters (no predictor):
/// it inflates a zlib or a raw deflate stream and fails on a corrupt one.
#[verifier::external_body]
fn inflate(b: &Vec<u8>) -> (r: Option<Vec<u8>>)
    ensures
        match r {
            Some(v) => inflated(b@) == Some(v@),
            None => inflated(b@) is None,
        },
{
    pdf::enc::flate_decode(b, &pdf::enc::LZWFlateParams::default()).ok()
}

/// Samples in one row: the width times the colour components.
pub open spec fn samples_per_row(m: ImageMeta) -> int {
    m.width * channels_of(m.color_space.unwrap())
}

/// Bytes that the stored rows of the image take.
pub open spec fn needed_bytes(m: ImageMeta) -> int {
    m.height * row_bytes(samples_per_row(m), m.bits_per_component.unwrap() as int)
}

/// Length of the pixel buffer of the image.
pub open spec fn pixel_len(m: ImageMeta) -> int {
    m.height * samples_per_row(m) * bytes_per_sample(m.bits_per_component.unwrap() as int)
}

/// Why `len` stored bytes cannot be read as the samples of an image with
/// metadata `m`, checked in this order; `None` where they can.
pub open spec fn layout_error(m: ImageMeta, len: int) -> Option<ImageError> {
    if !(m.color_space matches Some(c) && c != ColorSpace::Other) {
        Some(ImageError::Malformed(MalformedImage::ColorSpace))
    } else if !(m.bits_per_component matches Some(b) && valid_depth(b as int)) {
        Some(ImageError::Malformed(MalformedImage::BitsPerComponent))
    } else if needed_bytes(m) > len {
        Some(ImageError::Decode(DecodeError::Truncated))
    } else if pixel_len(m) > usize::MAX {
        Some(ImageError::Decode(DecodeError::TooLarge))
    } else {
        None
    }
}

/// `p` is the pixel buffer that the stored samples `data` of an image with
/// metadata `m` hold.
pub open spec fn pixels_of(p: PixelBuffer, data: Seq<u8>, m: ImageMeta) -> bool {
    &&& p.wf()
    &&& p.width == m.width
    &&& p.height == m.height
    &&& m.color_space == Some(p.color)
    &&& m.bits_per_component == Some(p.bits_per_component)
    &&& p.samples@ == unpacked(
        data,
        samples_per_row(m),
        m.height as int,
        p.bits_per_component as int,
    )
}

/// Reads stored sample rows as a pixel buffer, using the image's dimensions,
/// colour space and depth.
pub fn interpret_samples(data: &Vec<u8>, meta: ImageMeta) -> (r: Result<PixelBuffer, ImageError>)
    requires
        meta.width > 0,
        meta.height > 0,
    ensures
        r is Err <==> layout_error(meta, data@.len() as int) is Some,
        r matches Err(e) ==> layout_error(meta, data@.len() as int) == Some(e),
        r matches Ok(p) ==> pixels_of(p, data@, meta),
{
    let color = match meta.color_space {
        Some(c) if c != ColorSpace::Other => c,
        _ => return Err(ImageError::Malformed(MalformedImage::ColorSpace)),
    };
    let bpc = match meta.bits_per_component {
        Some(b) if b == 1 || b == 2 || b == 4 || b == 8 || b == 16 => b,
        _ => return Err(ImageError::Malformed(MalformedImage::BitsPerComponent)),
    };
    let ch = color.channels();
    let w = meta.width as u64;
    let h = meta.height as u64;
    assert(w * ch <= 4 * 0xffff_ffff) by (nonlinear_arith)
        requires
            w <= 0xffff_ffff,
            ch <= 4,
    ;
    let spr: u64 = w * ch as u64;
    let bps: u64 = if bpc == 16 { 2 } else { 1 };
    assert(bps == bytes_per_sample(bpc as int));
    let rb: u64 = if bpc >= 8 {
        assert(bps == bpc as int / 8) by {
            if bpc == 8 {
                assert(8int / 8 == 1);
            } else {
                assert(16int / 8 == 2);
            }
        }
        assert(spr * bps <= 8 * 0xffff_ffff) by (nonlinear_arith)
            requires
                spr <= 4 * 0xffff_ffff,
                bps <= 2,
        ;
        spr * bps
    } else {
        let per: u64 = if bpc == 1 {
            8
        } else if bpc == 2 {
            4
        } else {
            2
        };
        proof {
            if bpc == 1 {
                assert(8int / 1int == 8);
            } else if bpc == 2 {
                assert(8int / 2int == 4);
            } else {
                assert(8int / 4int == 2);
            }
        }
        (spr + per - 1) / per
    };
    assert(spr as int == samples_per_row(meta));
    assert(rb as int == row_bytes(samples_per_row(meta), bpc as int));
    let needed = match h.checked_mul(rb) {
        Some(n) => n,
        None => return Err(ImageError::Decode(DecodeError::Truncated)),
    };
    if needed > data.len() as u64 {
        return Err(ImageError::Decode(DecodeError::Truncated));
    }
    let plen = match h.checked_mul(spr) {
        Some(n) => match n.checked_mul(bps) {
            Some(m) => m,
            None => return Err(ImageError::Decode(DecodeError::TooLarge)),
        },
        None => {
            assert(h * spr * bps >= h * spr) by (nonlinear_arith)
                requires
                    bps >= 1,
            ;
            return Err(ImageError::Decode(DecodeError::TooLarge));
        },
    };
    if plen > usize::MAX as u64 {
        return Err(ImageError::Decode(DecodeError::TooLarge));
    }
    assert(h * spr <= plen) by (nonlinear_arith)
        requires
            plen == h * spr * bps,
            bps >= 1,
    ;
    assert(spr <= h * spr) by (nonlinear_arith)
        requires
            h >= 1,
    ;
    let samples = if bpc >= 8 {
        assert(needed == plen) by (nonlinear_arith)
            requires
                needed == h * rb,
                rb == spr * bps,
                plen == h * spr * bps,
        ;
        copy_prefix(data, plen as usize)
    } else {
        assert(rb <= h * rb) by (nonlinear_arith)
            requires
                h >= 1,
        ;
        assert((spr as usize) as int == spr as int);
        assert((rb as usize) as int == rb as int);
        unpack_bits(data, spr as usize, rb as usize, h as usize, bpc)
    };
    assert(samples@.len() == meta.width * meta.height * channels_of(color) * bytes_per_sample(
        bpc as int,
    )) by (nonlinear_arith)
        requires
            samples@.len() == h * spr * bps,
            spr == w * ch,
            ch == channels_of(color),
            bps == bytes_per_sample(bpc as int),
            w == meta.width,
            h == meta.height,
    ;
    Ok(PixelBuffer {
        width: meta.width,
        height: meta.height,
        color,
        bits_per_component: bpc,
        samples,
    })
}

/// What reading `data` as the stored samples of an image with metadata `m`
/// gives.
pub open spec fn pixels_decoded(data: Seq<u8>, m: ImageMeta) -> Result<RawSpec, ImageError> {
    match layout_error(m, data.len() as int) {
        Some(e) => Err(e),
        None => Ok(
            RawSpec::Pixels {
                width: m.width,
                height: m.height,
                color: m.color_space.unwrap(),
                bits_per_component: m.bits_per_component.unwrap(),
                samples: unpacked(
                    data,
                    samples_per_row(m),
                    m.height as int,
                    m.bits_per_component.unwrap() as int,
                ),
            },
        ),
    }
}

/// What decoding a stream gives, by the last filter of its chain.
pub open spec fn decoded(bytes: Seq<u8>, filters: Seq<Filter>, m: ImageMeta) -> Result<RawSpec, ImageError> {
    if filters.len() == 0 {
        pixels_decoded(bytes, m)
    } else {
        let last = filters.last();
        match pass_through_format(last) {
            Some(f) => Ok(RawSpec::PassThrough { format: f, bytes }),
            None => if last == Filter::Flate {
                match inflated(bytes) {
                    Some(v) => pixels_decoded(v, m),
                    None => Err(ImageError::Decode(DecodeError::Inflate)),
                }
            } else {
                Err(ImageError::UnsupportedFilter(last))
            },
        }
    }
}

/// Decodes an image's stream, dispatching on the last filter of its chain:
/// JPEG, JPEG 2000 and JBIG2 data pass through tagged with their format;
/// deflate data is inflated and, like data with no filter, read as samples;
/// any other filter is unsupported.
pub fn decode(s: &EncodedStream) -> (r: Result<RawImage, ImageError>)
    requires
        s.meta.width > 0,
        s.meta.height > 0,
    ensures
        result_view(r) == decoded(s.bytes@, s.filters@, s.meta),
        r matches Ok(x) ==> x.wf(),
        s.filters@.len() == 0 && layout_error(s.meta, s.bytes@.len() as int) is None ==> (
        r matches Ok(RawImage::Pixels(p)) && p.samples@.len() == s.meta.width * s.meta.height
            * channels_of(p.color) * ((p.bits_per_component + 7) / 8)),
{
    let n = s.filters.len();
    if n == 0 {
        return match interpret_samples(s.bytes, s.meta) {
            Ok(p) => Ok(RawImage::Pixels(p)),
            Err(e) => Err(e),
        };
    }
    let last = s.filters[n - 1];
    match last.pass_through() {
        Some(format) => {
            let bytes = copy_prefix(s.bytes, s.bytes.len());
            assert(bytes@ =~= s.bytes@);
            Ok(RawImage::PassThrough { format, bytes })
        },
        None => {
            if last == Filter::Flate {
                match inflate(s.bytes) {
                    Some(v) => match interpret_samples(&v, s.meta) {
                        Ok(p) => Ok(RawImage::Pixels(p)),
                        Err(e) => Err(e),
                    },
                    None => Err(ImageError::Decode(DecodeError::Inflate)),
                }
            } else {
                Err(ImageError::UnsupportedFilter(last))
            }
        },
    }
}

} // verus!
