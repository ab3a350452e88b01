use image::GenericImageView;
use unpdf_core::document::{
    ColorSpace, Document, ImageDict, ImageResource, Page, ResourceEntry, WalkWarning, XObject,
};
use unpdf_core::filter::{Filter, ImageFormat};
use unpdf_core::pipeline::{extract_all, extract_image};
use unpdf_core::raw::{
    decode, extract_stream, interpret_samples, DecodeError, EncodeError, ImageError, ImageMeta,
    MalformedImage, PixelBuffer, RawImage,
};
use unpdf_core::writer::{encode_pixels, encoder_pixels, write_image};

fn dict(w: u32, h: u32, cs: ColorSpace, bpc: u8, filters: Vec<Filter>, data: Vec<u8>) -> ImageDict {
    ImageDict {
        width: Some(w),
        height: Some(h),
        bits_per_component: Some(bpc),
        color_space: Some(cs),
        filters,
        data,
    }
}

fn entry(name: &str, reference: usize) -> ResourceEntry {
    ResourceEntry { name: name.to_string(), reference }
}

fn one_page(objects: Vec<Option<XObject>>) -> Document {
    let entries = (0..objects.len()).map(|i| entry(&format!("Im{}", i), i)).collect();
    Document { pages: vec![Page { xobjects: Some(entries) }], objects }
}

fn jpeg_bytes(w: u32, h: u32) -> Vec<u8> {
    let px = vec![128u8; (w * h * 3) as usize];
    let mut out = Vec::new();
    image::codecs::jpeg::JpegEncoder::new(&mut out)
        .encode(&px, w, h, image::ColorType::Rgb8)
        .unwrap();
    out
}

fn adler32(data: &[u8]) -> u32 {
    let (mut a, mut b) = (1u32, 0u32);
    for &x in data {
        a = (a + x as u32) % 65521;
        b = (b + a) % 65521;
    }
    (b << 16) | a
}

/// A zlib stream holding `data` in one stored block.
fn zlib_stored(data: &[u8]) -> Vec<u8> {
    let len = data.len() as u16;
    let mut out = vec![0x78, 0x01, 0x01];
    out.extend_from_slice(&len.to_le_bytes());
    out.extend_from_slice(&(!len).to_le_bytes());
    out.extend_from_slice(data);
    out.extend_from_slice(&adler32(data).to_be_bytes());
    out
}

fn meta(w: u32, h: u32, cs: ColorSpace, bpc: u8) -> ImageMeta {
    ImageMeta { width: w, height: h, bits_per_component: Some(bpc), color_space: Some(cs) }
}

#[test]
fn walker_counts_every_image_occurrence() {
    let img = XObject::Image(dict(1, 1, ColorSpace::DeviceGray, 8, vec![], vec![0]));
    let doc = Document {
        pages: vec![
            Page { xobjects: Some(vec![entry("A", 0), entry("F", 1), entry("B", 2)]) },
            Page { xobjects: Some(vec![entry("A", 0)]) },
        ],
        objects: vec![Some(img.clone()), Some(XObject::Form), Some(img)],
    };
    let w = doc.collect_images();
    assert_eq!(
        w.images,
        vec![
            ImageResource { page: 0, reference: 0 },
            ImageResource { page: 0, reference: 2 },
            ImageResource { page: 1, reference: 0 },
        ]
    );
    assert!(w.warnings.is_empty());
}

#[test]
fn walker_skips_unresolved_pages_and_references() {
    let img = XObject::Image(dict(1, 1, ColorSpace::DeviceGray, 8, vec![], vec![0]));
    let doc = Document {
        pages: vec![
            Page { xobjects: None },
            Page { xobjects: Some(vec![entry("X", 7), entry("Y", 1), entry("Z", 0)]) },
        ],
        objects: vec![Some(img), None],
    };
    let w = doc.collect_images();
    assert_eq!(w.images, vec![ImageResource { page: 1, reference: 0 }]);
    assert_eq!(
        w.warnings,
        vec![
            WalkWarning::PageUnresolved { page: 0 },
            WalkWarning::ReferenceUnresolved { page: 1, reference: 7 },
            WalkWarning::ReferenceUnresolved { page: 1, reference: 1 },
        ]
    );
}

#[test]
fn stream_extractor_reports_missing_dimensions() {
    let mut d = dict(2, 2, ColorSpace::DeviceGray, 8, vec![Filter::Dct], vec![1, 2]);
    let s = extract_stream(&d).ok().unwrap();
    assert_eq!(s.meta, meta(2, 2, ColorSpace::DeviceGray, 8));
    assert_eq!(s.filters, &vec![Filter::Dct]);
    d.height = Some(0);
    assert_eq!(extract_stream(&d).err(), Some(MalformedImage::Height));
    d.width = None;
    assert_eq!(extract_stream(&d).err(), Some(MalformedImage::Width));
}

#[test]
fn uncompressed_rgb_buffer_length() {
    let d = dict(3, 2, ColorSpace::DeviceRgb, 8, vec![], (0..18).collect());
    let s = extract_stream(&d).ok().unwrap();
    match decode(&s).unwrap() {
        RawImage::Pixels(p) => {
            assert_eq!(p.samples.len(), 3 * 2 * 3);
            assert_eq!(p.samples, (0..18).collect::<Vec<u8>>());
        }
        _ => panic!("expected pixels"),
    }
}

#[test]
fn sixteen_bit_and_one_bit_lengths() {
    let p = interpret_samples(&vec![0u8; 2 * 2 * 4 * 2], meta(2, 2, ColorSpace::DeviceCmyk, 16)).unwrap();
    assert_eq!(p.samples.len(), 2 * 2 * 4 * 2);
    // Ten one-bit samples per row take two bytes; rows start on a byte.
    let p = interpret_samples(&vec![0b1010_0000, 0b0100_0000, 0xff, 0xc0], meta(10, 2, ColorSpace::DeviceGray, 1))
        .unwrap();
    assert_eq!(p.samples, vec![1, 0, 1, 0, 0, 0, 0, 0, 0, 1, 1, 1, 1, 1, 1, 1, 1, 1, 1, 1]);
}

#[test]
fn two_bit_and_four_bit_samples() {
    let p = interpret_samples(&vec![0b1110_0100], meta(4, 1, ColorSpace::DeviceGray, 2)).unwrap();
    assert_eq!(p.samples, vec![3, 2, 1, 0]);
    let p = interpret_samples(&vec![0xa5, 0xf0], meta(1, 1, ColorSpace::DeviceRgb, 4)).unwrap();
    assert_eq!(p.samples, vec![0xa, 0x5, 0xf]);
}

#[test]
fn layout_errors() {
    let m = ImageMeta { width: 2, height: 2, bits_per_component: Some(8), color_space: None };
    assert_eq!(interpret_samples(&vec![0; 4], m).err(), Some(ImageError::Malformed(MalformedImage::ColorSpace)));
    let m = meta(2, 2, ColorSpace::Other, 8);
    assert_eq!(interpret_samples(&vec![0; 4], m).err(), Some(ImageError::Malformed(MalformedImage::ColorSpace)));
    let m = meta(2, 2, ColorSpace::DeviceGray, 3);
    assert_eq!(interpret_samples(&vec![0; 4], m).err(), Some(ImageError::Malformed(MalformedImage::BitsPerComponent)));
    let m = meta(2, 2, ColorSpace::DeviceGray, 8);
    assert_eq!(interpret_samples(&vec![0; 3], m).err(), Some(ImageError::Decode(DecodeError::Truncated)));
    let m = meta(u32::MAX, u32::MAX, ColorSpace::DeviceCmyk, 16);
    assert_eq!(interpret_samples(&vec![0; 3], m).err(), Some(ImageError::Decode(DecodeError::Truncated)));
}

#[test]
fn deflate_layer_is_inflated() {
    let samples: Vec<u8> = vec![10, 20, 30, 40];
    let d = dict(2, 2, ColorSpace::DeviceGray, 8, vec![Filter::Flate], zlib_stored(&samples));
    let s = extract_stream(&d).ok().unwrap();
    match decode(&s).unwrap() {
        RawImage::Pixels(p) => assert_eq!(p.samples, samples),
        _ => panic!("expected pixels"),
    }
}

#[test]
fn corrupt_deflate_is_a_decode_error() {
    let d = dict(2, 2, ColorSpace::DeviceGray, 8, vec![Filter::Flate], vec![0xde, 0xad, 0xbe, 0xef, 0x00]);
    assert_eq!(extract_image(&d, ImageFormat::Png).err(), Some(ImageError::Decode(DecodeError::Inflate)));
}

#[test]
fn pass_through_filters_are_tagged() {
    for (f, fmt) in [(Filter::Dct, ImageFormat::Jpeg), (Filter::Jpx, ImageFormat::Jp2k), (Filter::Jbig2, ImageFormat::Jbig2)] {
        let d = dict(2, 2, ColorSpace::DeviceRgb, 8, vec![Filter::Flate, f], vec![9, 8, 7]);
        let s = extract_stream(&d).ok().unwrap();
        match decode(&s).unwrap() {
            RawImage::PassThrough { format, bytes } => {
                assert_eq!(format, fmt);
                assert_eq!(bytes, vec![9, 8, 7]);
            }
            _ => panic!("expected pass-through"),
        }
    }
}

#[test]
fn jpeg_pass_through_to_jpeg_is_verbatim() {
    let bytes = jpeg_bytes(4, 3);
    let raw = RawImage::PassThrough { format: ImageFormat::Jpeg, bytes: bytes.clone() };
    assert_eq!(write_image(&raw, ImageFormat::Jpeg).unwrap(), bytes);
    let junk = RawImage::PassThrough { format: ImageFormat::Jpeg, bytes: vec![1, 2, 3] };
    assert_eq!(write_image(&junk, ImageFormat::Jpeg).unwrap(), vec![1, 2, 3]);
    assert_eq!(write_image(&junk, ImageFormat::Png).err(), Some(EncodeError::SourceUndecodable));
    assert_eq!(write_image(&junk, ImageFormat::Jp2k).err(), Some(EncodeError::NoEncoder));
}

#[test]
fn jpeg_pass_through_converts_to_png() {
    let raw = RawImage::PassThrough { format: ImageFormat::Jpeg, bytes: jpeg_bytes(5, 7) };
    let png = write_image(&raw, ImageFormat::Png).unwrap();
    assert_eq!(&png[1..4], b"PNG");
    let img = image::load_from_memory(&png).unwrap();
    assert_eq!((img.width(), img.height()), (5, 7));
}

#[test]
fn pixel_round_trip_keeps_dimensions() {
    let p = PixelBuffer {
        width: 6,
        height: 4,
        color: ColorSpace::DeviceRgb,
        bits_per_component: 8,
        samples: (0..72).map(|i| (i * 3) as u8).collect(),
    };
    let raw = RawImage::Pixels(p.clone());
    for fmt in [ImageFormat::Png, ImageFormat::Jpeg] {
        let out = write_image(&raw, fmt).unwrap();
        let img = image::load_from_memory(&out).unwrap();
        assert_eq!((img.width(), img.height()), (6, 4));
    }
    let png = write_image(&raw, ImageFormat::Png).unwrap();
    assert_eq!(image::load_from_memory(&png).unwrap().to_rgb8().into_raw(), p.samples);
}

#[test]
fn pixels_cannot_be_written_to_verbatim_only_formats() {
    let raw = RawImage::Pixels(PixelBuffer {
        width: 1,
        height: 1,
        color: ColorSpace::DeviceGray,
        bits_per_component: 8,
        samples: vec![7],
    });
    assert_eq!(write_image(&raw, ImageFormat::Jp2k).err(), Some(EncodeError::NoEncoder));
    assert_eq!(write_image(&raw, ImageFormat::Jbig2).err(), Some(EncodeError::NoEncoder));
}

#[test]
fn jbig2_source_cannot_become_jpeg() {
    let raw = RawImage::PassThrough { format: ImageFormat::Jbig2, bytes: vec![0x97, 0x4a] };
    assert_eq!(write_image(&raw, ImageFormat::Jpeg).err(), Some(EncodeError::ConversionUnsupported));
    assert_eq!(write_image(&raw, ImageFormat::Jbig2).unwrap(), vec![0x97, 0x4a]);
}

#[test]
fn eight_bit_conversion() {
    let p = PixelBuffer {
        width: 4,
        height: 1,
        color: ColorSpace::DeviceGray,
        bits_per_component: 2,
        samples: vec![0, 1, 2, 3],
    };
    assert_eq!(encoder_pixels(&p), (1, vec![0, 85, 170, 255]));
    let p = PixelBuffer {
        width: 1,
        height: 1,
        color: ColorSpace::DeviceRgb,
        bits_per_component: 16,
        samples: vec![0x12, 0x34, 0xab, 0xcd, 0xff, 0x00],
    };
    assert_eq!(encoder_pixels(&p), (3, vec![0x12, 0xab, 0xff]));
}

#[test]
fn cmyk_becomes_rgb() {
    let p = PixelBuffer {
        width: 2,
        height: 1,
        color: ColorSpace::DeviceCmyk,
        bits_per_component: 8,
        samples: vec![0, 0, 0, 0, 255, 0, 51, 51],
    };
    // (255 - 0) * 204 / 255 = 204; (255 - 51) * 204 / 255 = 163.
    assert_eq!(encoder_pixels(&p), (3, vec![255, 255, 255, 0, 204, 163]));
    let png = write_image(&RawImage::Pixels(p), ImageFormat::Png).unwrap();
    assert_eq!(image::load_from_memory(&png).unwrap().to_rgb8().into_raw(), vec![255, 255, 255, 0, 204, 163]);
}

#[test]
fn encode_pixels_gray_png() {
    let png = encode_pixels(ImageFormat::Png, 2, 1, 1, &vec![0, 255]).unwrap();
    let img = image::load_from_memory(&png).unwrap();
    assert_eq!(img.to_luma8().into_raw(), vec![0, 255]);
    assert_eq!(encode_pixels(ImageFormat::Jbig2, 2, 1, 1, &vec![0, 255]).err(), Some(EncodeError::NoEncoder));
}

#[test]
fn unsupported_filter_is_skipped_and_run_continues() {
    let doc = one_page(vec![
        Some(XObject::Image(dict(2, 2, ColorSpace::DeviceGray, 1, vec![Filter::CcittFax], vec![0; 4]))),
        Some(XObject::Image(dict(1, 1, ColorSpace::DeviceGray, 8, vec![Filter::Unsupported], vec![0]))),
        Some(XObject::Image(dict(1, 1, ColorSpace::DeviceGray, 8, vec![], vec![200]))),
    ]);
    let x = extract_all(&doc, ImageFormat::Png);
    assert_eq!(x.outcomes[0].as_ref().err(), Some(&ImageError::UnsupportedFilter(Filter::CcittFax)));
    assert_eq!(x.outcomes[1].as_ref().err(), Some(&ImageError::UnsupportedFilter(Filter::Unsupported)));
    assert!(x.outcomes[2].is_ok());
    assert_eq!((x.attempted(), x.succeeded()), (3, 1));
}

#[test]
fn dct_and_raw_rgb_to_png() {
    let doc = one_page(vec![
        Some(XObject::Image(dict(8, 5, ColorSpace::DeviceRgb, 8, vec![Filter::Dct], jpeg_bytes(8, 5)))),
        Some(XObject::Image(dict(3, 2, ColorSpace::DeviceRgb, 8, vec![], vec![90; 18]))),
    ]);
    let target = ImageFormat::Png;
    let x = extract_all(&doc, target);
    let names: Vec<String> = (0..x.outcomes.len())
        .map(|i| format!("extracted_image_{}.{}", i, target.extension()))
        .collect();
    assert_eq!(names, vec!["extracted_image_0.png", "extracted_image_1.png"]);
    let dims: Vec<(u32, u32)> = x
        .outcomes
        .iter()
        .map(|o| {
            let img = image::load_from_memory_with_format(o.as_ref().unwrap(), image::ImageFormat::Png).unwrap();
            (img.width(), img.height())
        })
        .collect();
    assert_eq!(dims, vec![(8, 5), (3, 2)]);
}

#[test]
fn missing_width_is_recorded_and_others_extracted() {
    let mut bad = dict(2, 2, ColorSpace::DeviceGray, 8, vec![], vec![0; 4]);
    bad.width = None;
    let doc = one_page(vec![
        Some(XObject::Image(dict(2, 1, ColorSpace::DeviceGray, 8, vec![], vec![1, 2]))),
        Some(XObject::Image(bad)),
        Some(XObject::Image(dict(1, 1, ColorSpace::DeviceRgb, 8, vec![], vec![1, 2, 3]))),
    ]);
    let x = extract_all(&doc, ImageFormat::Png);
    assert!(x.outcomes[0].is_ok());
    assert_eq!(x.outcomes[1].as_ref().err(), Some(&ImageError::Malformed(MalformedImage::Width)));
    assert!(x.outcomes[2].is_ok());
    assert_eq!(x.succeeded(), 2);
}

#[test]
fn jbig2_image_to_jpeg_fails_and_next_is_written() {
    let doc = one_page(vec![
        Some(XObject::Image(dict(4, 4, ColorSpace::DeviceGray, 1, vec![Filter::Jbig2], vec![0x97, 0x4a, 0x42]))),
        Some(XObject::Image(dict(2, 2, ColorSpace::DeviceGray, 8, vec![], vec![0, 64, 128, 255]))),
    ]);
    let x = extract_all(&doc, ImageFormat::Jpeg);
    assert_eq!(
        x.outcomes[0].as_ref().err(),
        Some(&ImageError::Encode(EncodeError::ConversionUnsupported))
    );
    let img = image::load_from_memory_with_format(x.outcomes[1].as_ref().unwrap(), image::ImageFormat::Jpeg).unwrap();
    assert_eq!((img.width(), img.height()), (2, 2));
}

#[test]
fn extensions() {
    assert_eq!(ImageFormat::Jpeg.extension(), "jpeg");
    assert_eq!(ImageFormat::Png.extension(), "png");
    assert_eq!(ImageFormat::Jp2k.extension(), "jp2");
    assert_eq!(ImageFormat::Jbig2.extension(), "jbig2");
    assert_eq!(ImageFormat::default(), ImageFormat::Png);
    assert!(ImageFormat::Png.has_encoder() && !ImageFormat::Jbig2.has_encoder());
    assert_eq!(Filter::Dct.pass_through(), Some(ImageFormat::Jpeg));
    assert_eq!(Filter::Flate.pass_through(), None);
}

#[test]
fn resolve_reports_reference() {
    let doc = one_page(vec![None, Some(XObject::Form)]);
    assert!(doc.resolve(0).is_err());
    assert!(matches!(doc.resolve(1), Ok(XObject::Form)));
    assert_eq!(doc.resolve(5).err().map(|u| u.reference), Some(5));
}

#[test]
fn jpeg_encoder_rejects_oversized_width() {
    let raw = RawImage::Pixels(PixelBuffer {
        width: 70000,
        height: 1,
        color: ColorSpace::DeviceGray,
        bits_per_component: 8,
        samples: vec![0; 70000],
    });
    assert_eq!(write_image(&raw, ImageFormat::Jpeg).err(), Some(EncodeError::EncoderRejected));
    let d = dict(70000, 1, ColorSpace::DeviceGray, 8, vec![], vec![0; 70000]);
    assert_eq!(
        extract_image(&d, ImageFormat::Jpeg).err(),
        Some(ImageError::Encode(EncodeError::EncoderRejected))
    );
}

#[test]
fn sixteen_bit_gray_through_deflate_to_png() {
    let stored: Vec<u8> = vec![0x10, 0xff, 0x80, 0x00];
    let d = dict(2, 1, ColorSpace::DeviceGray, 16, vec![Filter::Flate], zlib_stored(&stored));
    let png = extract_image(&d, ImageFormat::Png).unwrap();
    assert_eq!(image::load_from_memory(&png).unwrap().to_luma8().into_raw(), vec![0x10, 0x80]);
}
