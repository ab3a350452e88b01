//! Per-image processing, from image dictionary to output bytes, and the run
//! over every image occurrence of a document. Images are independent: each
//! one's outcome depends on its own dictionary and the target format only.
use vstd::prelude::*;
use crate::document::{Document, ImageDict, ImageResource, WalkWarning, XObject, lemma_walk_yields_images};
use crate::filter::{Filter, ImageFormat, pass_through_format};
use crate::raw::{ImageError, ImageMeta, MalformedImage, decode, decoded, extract_stream, result_view};
use crate::writer::{write_image, written};

verus! {

/// The metadata of an image dictionary whose dimensions are present.
pub open spec fn meta_of(d: ImageDict) -> ImageMeta {
    ImageMeta {
        width: d.width.unwrap(),
        height: d.height.unwrap(),
        bits_per_component: d.bits_per_component,
        color_space: d.color_space,
    }
}

/// What extracting one image to `target` gives: its output bytes, or the
/// error that made it be skipped.
pub open spec fn extracted(d: ImageDict, target: ImageFormat) -> Result<Seq<u8>, ImageError> {
    if !(d.width matches Some(w) && w > 0) {
        Err(ImageError::Malformed(MalformedImage::Width))
    } else if !(d.height matches Some(h) && h > 0) {
        Err(ImageError::Malformed(MalformedImage::Height))
    } else {
        match decoded(d.data@, d.filters@, meta_of(d)) {
            Err(e) => Err(e),
            Ok(raw) => match written(raw, target) {
                Ok(b) => Ok(b),
                Err(e) => Err(ImageError::Encode(e)),
            },
        }
    }
}

/// The content of one image's outcome.
pub open spec fn outcome_view(r: Result<Vec<u8>, ImageError>) -> Result<Seq<u8>, ImageError> {
    match r {
        Ok(v) => Ok(v@),
        Err(e) => Err(e),
    }
}

/// The image dictionary that a reference of the document resolves to.
pub open spec fn image_at(doc: &Document, r: usize) -> ImageDict {
    doc.object(r as int)->Image_0
}

/// Extracts one image: reads its stream, decodes it and writes it in
/// `target`.
pub fn extract_image(d: &ImageDict, target: ImageFormat) -> (r: Result<Vec<u8>, ImageError>)
    ensures
        outcome_view(r) == extracted(*d, target),
{
    let stream = match extract_stream(d) {
        Ok(s) => s,
        Err(m) => return Err(ImageError::Malformed(m)),
    };
    let raw = match decode(&stream) {
        Ok(x) => x,
        Err(e) => return Err(e),
    };
    assert(result_view(Ok::<_, ImageError>(raw)) == decoded(d.data@, d.filters@, meta_of(*d)));
    match write_image(&raw, target) {
        Ok(b) => Ok(b),
        Err(e) => Err(ImageError::Encode(e)),
    }
}

/// The outcome of a whole run: every image occurrence in walk order, the
/// outcome of each, and the warnings of the walk.
pub struct Extraction {
    pub images: Vec<ImageResource>,
    pub outcomes: Vec<Result<Vec<u8>, ImageError>>,
    pub warnings: Vec<WalkWarning>,
}

/// Number of successful outcomes among the first `n`.
pub open spec fn count_ok(outcomes: Seq<Result<Vec<u8>, ImageError>>, n: int) -> nat
    decreases n,
{
    if n <= 0 {
        0
    } else {
        count_ok(outcomes, n - 1) + if outcomes[n - 1] is Ok {
            1nat
        } else {
            0nat
        }
    }
}

/// Extracts every image occurrence of the document to `target`. An error
/// with one image is recorded as its outcome; the run goes on with the next.
pub fn extract_all(doc: &Document, target: ImageFormat) -> (x: Extraction)
    ensures
        x.images@ == doc.all_images(),
        x.warnings@ == doc.all_warnings(),
        x.outcomes@.len() == x.images@.len(),
        forall|i: int|
            0 <= i < x.outcomes@.len() ==> outcome_view(#[trigger] x.outcomes@[i]) == extracted(
                image_at(doc, x.images@[i].reference),
                target,
            ),
{
    let walk = doc.collect_images();
    proof {
        lemma_walk_yields_images(doc, doc.pages@.len() as int);
    }
    let mut outcomes: Vec<Result<Vec<u8>, ImageError>> = Vec::new();
    let mut i: usize = 0;
    while i < walk.images.len()
        invariant
            walk.images@ == doc.all_images(),
            i <= walk.images@.len(),
            outcomes@.len() == i,
            forall|k: int|
                0 <= k < walk.images@.len() ==> doc.is_image_ref(
                    (#[trigger] walk.images@[k]).reference as int,
                ),
            forall|k: int|
                0 <= k < i ==> outcome_view(#[trigger] outcomes@[k]) == extracted(
                    image_at(doc, walk.images@[k].reference),
                    target,
                ),
        decreases walk.images@.len() - i,
    {
        let r = walk.images[i].reference;
        assert(doc.is_image_ref(walk.images@[i as int].reference as int));
        match doc.resolve(r) {
            Ok(XObject::Image(d)) => {
                let o = extract_image(d, target);
                outcomes.push(o);
            },
            _ => {
                assert(false);
            },
        }
        i = i + 1;
    }
    Extraction { images: walk.images, outcomes, warnings: walk.warnings }
}

impl Extraction {
    /// Number of images that were extracted successfully.
    pub fn succeeded(&self) -> (n: usize)
        ensures
            n == count_ok(self.outcomes@, self.outcomes@.len() as int),
    {
        let mut n: usize = 0;
        let mut i: usize = 0;
        while i < self.outcomes.len()
            invariant
                i <= self.outcomes@.len(),
                n == count_ok(self.outcomes@, i as int),
                n <= i,
            decreases self.outcomes@.len() - i,
        {
            if self.outcomes[i].is_ok() {
                n = n + 1;
            }
            i = i + 1;
        }
        n
    }

    /// Number of images that were attempted.
    pub fn attempted(&self) -> (n: usize)
        ensures
            n == self.outcomes@.len(),
    {
        self.outcomes.len()
    }
}

/// An image with valid dimensions whose last filter is neither deflate nor an
/// image format that passes through is skipped with an unsupported-filter
/// error naming that filter. Since each outcome of [`extract_all`] is the
/// extraction of its own image, the images after it are extracted as usual.
pub proof fn lemma_unsupported_filter_skipped(d: ImageDict, target: ImageFormat)
    requires
        d.width matches Some(w) && w > 0,
        d.height matches Some(h) && h > 0,
        d.filters@.len() > 0,
        d.filters@.last() != Filter::Flate,
        pass_through_format(d.filters@.last()) is None,
    ensures
        extracted(d, target) == Err::<Seq<u8>, ImageError>(
            ImageError::UnsupportedFilter(d.filters@.last()),
        ),
{
}

} // verus!
