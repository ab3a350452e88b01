//! The format writer: turns a [`RawImage`] into the bytes of the requested
//! output format.
use vstd::prelude::*;
use vstd::arithmetic::power2::{pow2, lemma2_to64};
use vstd::arithmetic::div_mod::lemma_fundamental_div_mod_converse;
use crate::document::{ColorSpace, channels_of};
use crate::filter::ImageFormat;
use crate::raw::{EncodeError, PixelBuffer, RawImage, RawSpec, pow2_u16, bytes_per_sample};

verus! {

/// PNG bytes that the `image` crate's PNG encoder makes of 8-bit pixels with
/// `ch` components (1: grey, 3: RGB); `None` where it reports an error.
pub uninterp spec fn png_encoded(w: u32, h: u32, ch: u8, px: Seq<u8>) -> Option<Seq<u8>>;

/// JPEG bytes that the `image` crate's JPEG encoder (default quality) makes of
/// 8-bit pixels with `ch` components; `None` where it reports an error.
pub uninterp spec fn jpeg_encoded(w: u32, h: u32, ch: u8, px: Seq<u8>) -> Option<Seq<u8>>;

/// Width, height and 8-bit RGB pixels that the `image` crate decodes from JPEG
/// bytes; `None` where they are not a JPEG image it can decode.
pub uninterp spec fn jpeg_decoded(b: Seq<u8>) -> Option<(u32, u32, Seq<u8>)>;

/// Relies on `image::codecs::png::PngEncoder::write_image`, which panics
/// unless the buffer holds exactly `w * h * ch` bytes.
#[verifier::external_body]
fn png_encode(w: u32, h: u32, ch: u8, px: &Vec<u8>) -> (r: Option<Vec<u8>>)
    requires
        ch == 1 || ch == 3,
        px@.len() == w * h * ch,
    ensures
        match r {
            Some(o) => png_encoded(w, h, ch, px@) == Some(o@),
            None => png_encoded(w, h, ch, px@) is None,
        },
{
    let ct = if ch == 1 { image::ColorType::L8 } else { image::ColorType::Rgb8 };
    let mut out: Vec<u8> = Vec::new();
    let res = image::ImageEncoder::write_image(
        image::codecs::png::PngEncoder::new(&mut out), px, w, h, ct);
    match res {
        Ok(()) => Some(out),
        Err(_) => None,
    }
}

/// Relies on `image::codecs::jpeg::JpegEncoder::encode`, which panics unless
/// the buffer holds exactly `w * h * ch` bytes.
#[verifier::external_body]
fn jpeg_encode(w: u32, h: u32, ch: u8, px: &Vec<u8>) -> (r: Option<Vec<u8>>)
    requires
        ch == 1 || ch == 3,
        px@.len() == w * h * ch,
    ensures
        match r {
            Some(o) => jpeg_encoded(w, h, ch, px@) == Some(o@),
            None => jpeg_encoded(w, h, ch, px@) is None,
        },
{
    let ct = if ch == 1 { image::ColorType::L8 } else { image::ColorType::Rgb8 };
    let mut out: Vec<u8> = Vec::new();
    let res = image::codecs::jpeg::JpegEncoder::new(&mut out).encode(px, w, h, ct);
    match res {
        Ok(()) => Some(out),
        Err(_) => None,
    }
}

/// Relies on `image::load_from_memory_with_format` for JPEG and on
/// `DynamicImage::into_rgb8`: the image's width, height and RGB bytes.
#[verifier::external_body]
fn jpeg_decode(b: &Vec<u8>) -> (r: Option<(u32, u32, Vec<u8>)>)
    ensures
        match r {
            Some((w, h, px)) => jpeg_decoded(b@) == Some((w, h, px@)),
            None => jpeg_decoded(b@) is None,
        },
{
    match image::load_from_memory_with_format(b, image::ImageFormat::Jpeg) {
        Ok(img) => {
            let rgb = img.into_rgb8();
            Some((rgb.width(), rgb.height(), rgb.into_raw()))
        },
        Err(_) => None,
    }
}

/// What the encoder for `target` makes of 8-bit pixels; `None` where it
/// reports an error or the format has no encoder.
pub open spec fn encoded(target: ImageFormat, w: u32, h: u32, ch: u8, px: Seq<u8>) -> Option<Seq<u8>> {
    match target {
        ImageFormat::Png => png_encoded(w, h, ch, px),
        ImageFormat::Jpeg => jpeg_encoded(w, h, ch, px),
        _ => None,
    }
}

/// What encoding 8-bit pixels to `target` gives.
pub open spec fn encode_spec(target: ImageFormat, w: u32, h: u32, ch: u8, px: Seq<u8>) -> Result<Seq<u8>, EncodeError> {
    if !(target == ImageFormat::Jpeg || target == ImageFormat::Png) {
        Err(EncodeError::NoEncoder)
    } else {
        match encoded(target, w, h, ch, px) {
            Some(o) => Ok(o),
            None => Err(EncodeError::EncoderRejected),
        }
    }
}

/// What writing a raw image with content `raw` to `target` gives.
pub open spec fn written(raw: RawSpec, target: ImageFormat) -> Result<Seq<u8>, EncodeError> {
    match raw {
        RawSpec::PassThrough { format, bytes } => {
            if format == target {
                Ok(bytes)
            } else if format != ImageFormat::Jpeg {
                Err(EncodeError::ConversionUnsupported)
            } else if target != ImageFormat::Png {
                Err(EncodeError::NoEncoder)
            } else {
                match jpeg_decoded(bytes) {
                    Some((w, h, px)) => if px.len() == w * h * 3 {
                        encode_spec(target, w, h, 3, px)
                    } else {
                        Err(EncodeError::SourceUndecodable)
                    },
                    None => Err(EncodeError::SourceUndecodable),
                }
            }
        },
        RawSpec::Pixels { width, height, color, bits_per_component, samples } => {
            let (ch, px) = encoder_input(width, height, color, bits_per_component, samples);
            encode_spec(target, width, height, ch, px)
        },
    }
}

/// Encodes 8-bit grey (`ch == 1`) or RGB (`ch == 3`) pixels into `target`.
pub fn encode_pixels(target: ImageFormat, w: u32, h: u32, ch: u8, px: &Vec<u8>) -> (r: Result<
    Vec<u8>,
    EncodeError,
>)
    requires
        ch == 1 || ch == 3,
        px@.len() == w * h * ch,
    ensures
        bytes_view(r) == encode_spec(target, w, h, ch, px@),
{
    let out = match target {
        ImageFormat::Png => png_encode(w, h, ch, px),
        ImageFormat::Jpeg => jpeg_encode(w, h, ch, px),
        _ => return Err(EncodeError::NoEncoder),
    };
    match out {
        Some(o) => Ok(o),
        None => Err(EncodeError::EncoderRejected),
    }
}

/// Sample `i` of a buffer of depth `bpc` brought to eight bits: the high byte
/// of a 16-bit sample, or a sub-byte sample scaled so that its maximum is 255.
pub open spec fn sample8(bpc: int, samples: Seq<u8>, i: int) -> u8 {
    if bpc == 16 {
        samples[2 * i]
    } else if bpc == 8 {
        samples[i]
    } else {
        let max = pow2(bpc as nat) - 1;
        let v = samples[i] as int;
        if v >= max {
            255
        } else {
            (v * 255 / max) as u8
        }
    }
}

/// The `n` samples of a buffer of depth `bpc` brought to eight bits.
pub open spec fn samples8(n: int, bpc: int, samples: Seq<u8>) -> Seq<u8> {
    Seq::new(n as nat, |i: int| sample8(bpc, samples, i))
}

/// RGB pixels of `n` CMYK pixels: each of red, green and blue is
/// `(255 - c) * (255 - k) / 255` for its complement `c` among cyan, magenta and
/// yellow.
pub open spec fn cmyk_to_rgb(e: Seq<u8>, n: int) -> Seq<u8> {
    Seq::new(
        (3 * n) as nat,
        |i: int|
            {
                let q = i / 3;
                let c = e[4 * q + i % 3] as int;
                let k = e[4 * q + 3] as int;
                ((255 - c) * (255 - k) / 255) as u8
            },
    )
}

/// The 8-bit grey or RGB pixels that an encoder receives for a pixel buffer:
/// the number of components and the bytes.
pub open spec fn encoder_input(w: u32, h: u32, color: ColorSpace, bpc: u8, samples: Seq<u8>) -> (u8, Seq<u8>) {
    let e = samples8(w * h * channels_of(color), bpc as int, samples);
    match color {
        ColorSpace::DeviceGray => (1, e),
        ColorSpace::DeviceCmyk => (3, cmyk_to_rgb(e, w * h)),
        _ => (3, e),
    }
}

/// The content of an encoding result.
pub open spec fn bytes_view(r: Result<Vec<u8>, EncodeError>) -> Result<Seq<u8>, EncodeError> {
    match r {
        Ok(v) => Ok(v@),
        Err(e) => Err(e),
    }
}

fn to_eight_bit(p: &PixelBuffer) -> (r: Vec<u8>)
    requires
        p.wf(),
    ensures
        r@ == samples8(
            p.width * p.height * channels_of(p.color),
            p.bits_per_component as int,
            p.samples@,
        ),
{
    let bpc = p.bits_per_component;
    let len = p.samples.len();
    let n: usize = if bpc == 16 { len / 2 } else { len };
    proof {
        let c = p.width * p.height * channels_of(p.color);
        if bpc == 16 {
            assert(bytes_per_sample(16) == 2);
            assert(len == c * 2) by (nonlinear_arith)
                requires len == p.width * p.height * channels_of(p.color) * 2, c == p.width * p.height * channels_of(p.color);
            lemma_fundamental_div_mod_converse(len as int, 2, c, 0);
        } else {
            assert(bytes_per_sample(bpc as int) == 1);
        }
    }
    let max: u16 = if bpc < 8 { pow2_u16(bpc) - 1 } else { 255 };
    let mut out: Vec<u8> = Vec::with_capacity(n);
    let mut i: usize = 0;
    while i < n
        invariant
            p.wf(),
            bpc == p.bits_per_component,
            len == p.samples@.len(),
            n == p.width * p.height * channels_of(p.color),
            bpc == 16 ==> len == 2 * n,
            bpc != 16 ==> len == n,
            bpc < 8 ==> max as int == pow2(bpc as nat) - 1,
            i <= n,
            out@.len() == i,
            forall|j: int| 0 <= j < i ==> #[trigger] out@[j] == sample8(bpc as int, p.samples@, j),
        decreases n - i,
    {
        let v: u8 = if bpc == 16 {
            p.samples[2 * i]
        } else if bpc == 8 {
            p.samples[i]
        } else {
            proof {
                lemma2_to64();
            }
            let s = p.samples[i] as u16;
            if s >= max {
                255
            } else {
                assert(s * 255 < 256 * max) by (nonlinear_arith)
                    requires s < max, max <= 15;
                (s * 255 / max) as u8
            }
        };
        out.push(v);
        i = i + 1;
    }
    assert(out@ =~= samples8(n as int, bpc as int, p.samples@));
    out
}

fn cmyk_pixels(e: &Vec<u8>, n: usize) -> (r: Vec<u8>)
    requires
        e@.len() == 4 * n,
    ensures
        r@ == cmyk_to_rgb(e@, n as int),
{
    let el = e.len();
    let mut out: Vec<u8> = Vec::new();
    let mut j: usize = 0;
    while j < n
        invariant
            e@.len() == 4 * n,
            el == e@.len(),
            j <= n,
            out@.len() == 3 * j,
            forall|i: int| 0 <= i < out@.len() ==> #[trigger] out@[i] == cmyk_to_rgb(e@, n as int)[i],
        decreases n - j,
    {
        let k = e[4 * j + 3] as u32;
        let mut c: usize = 0;
        while c < 3
            invariant
                e@.len() == 4 * n,
                el == e@.len(),
                j < n,
                c <= 3,
                k == e@[4 * j + 3],
                out@.len() == 3 * j + c,
                forall|i: int| 0 <= i < out@.len() ==> #[trigger] out@[i] == cmyk_to_rgb(e@, n as int)[i],
            decreases 3 - c,
        {
            let v = e[4 * j + c] as u32;
            assert((255 - v) * (255 - k) <= 255 * 255) by (nonlinear_arith)
                requires v <= 255, k <= 255;
            let x = ((255 - v) * (255 - k) / 255) as u8;
            proof {
                lemma_fundamental_div_mod_converse((3 * j + c) as int, 3, j as int, c as int);
            }
            out.push(x);
            c = c + 1;
        }
        j = j + 1;
    }
    assert(out@ =~= cmyk_to_rgb(e@, n as int));
    out
}

/// Brings a pixel buffer to the 8-bit grey or RGB pixels that encoders take;
/// CMYK becomes RGB.
pub fn encoder_pixels(p: &PixelBuffer) -> (r: (u8, Vec<u8>))
    requires
        p.wf(),
    ensures
        (r.0, r.1@) == encoder_input(p.width, p.height, p.color, p.bits_per_component, p.samples@),
        r.0 == 1 || r.0 == 3,
        r.1@.len() == p.width * p.height * r.0,
{
    let px = to_eight_bit(p);
    match p.color {
        ColorSpace::DeviceGray => (1, px),
        ColorSpace::DeviceCmyk => {
            let n = px.len() / 4;
            proof {
                lemma_fundamental_div_mod_converse(px@.len() as int, 4, p.width * p.height, 0);
            }
            let rgb = cmyk_pixels(&px, n);
            (3, rgb)
        },
        _ => (3, px),
    }
}

/// Produces the bytes of `raw` in `target`. Pass-through bytes already in
/// `target` are copied verbatim; JPEG bytes are decoded and re-encoded for
/// another target that has an encoder; other pass-through encodings cannot be
/// converted. Pixels are encoded by the target's encoder.
pub fn write_image(raw: &RawImage, target: ImageFormat) -> (r: Result<Vec<u8>, EncodeError>)
    requires
        raw.wf(),
    ensures
        bytes_view(r) == written(raw.spec_view(), target),
        *raw matches RawImage::PassThrough { format, bytes } ==> (format == target ==> (
        r matches Ok(out) && out@ == bytes@)),
{
    match raw {
        RawImage::PassThrough { format, bytes } => {
            if *format == target {
                let mut out: Vec<u8> = Vec::with_capacity(bytes.len());
                let mut i: usize = 0;
                while i < bytes.len()
                    invariant
                        i <= bytes@.len(),
                        out@ == bytes@.subrange(0, i as int),
                    decreases bytes@.len() - i,
                {
                    out.push(bytes[i]);
                    assert(out@ =~= bytes@.subrange(0, i + 1));
                    i = i + 1;
                }
                assert(out@ =~= bytes@);
                Ok(out)
            } else if *format != ImageFormat::Jpeg {
                Err(EncodeError::ConversionUnsupported)
            } else if !target.has_encoder() {
                Err(EncodeError::NoEncoder)
            } else {
                match jpeg_decode(bytes) {
                    Some((w, h, px)) => {
                        let n = (w as u64).checked_mul(h as u64);
                        match n {
                            Some(n) if n <= u64::MAX / 3 && px.len() as u64 == n * 3 => {
                                encode_pixels(target, w, h, 3, &px)
                            },
                            _ => {
                                let len = px.len();
                                assert(len as int <= u64::MAX);
                                assert(px@.len() != w * h * 3) by (nonlinear_arith)
                                    requires
                                        len == px@.len(),
                                        len <= u64::MAX,
                                        n matches Some(m) ==> m == w * h && (m > u64::MAX / 3 || len != m * 3),
                                        n is None ==> w * h > u64::MAX,
                                ;
                                Err(EncodeError::SourceUndecodable)
                            },
                        }
                    },
                    None => Err(EncodeError::SourceUndecodable),
                }
            }
        },
        RawImage::Pixels(p) => {
            if !target.has_encoder() {
                return Err(EncodeError::NoEncoder);
            }
            let (ch, px) = encoder_pixels(p);
            encode_pixels(target, p.width, p.height, ch, &px)
        },
    }
}

} // verus!
