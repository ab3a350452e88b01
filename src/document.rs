//! The document model: pages, their resource dictionaries, and an arena of
//! external objects addressed by reference; and the walk that collects the
//! image resources.
use vstd::prelude::*;
use crate::filter::Filter;

verus! {

/// Colour space declared by an image dictionary.
#[derive(Clone, Copy, Debug, PartialEq, Eq, Structural)]
pub enum ColorSpace {
    DeviceGray,
    DeviceRgb,
    DeviceCmyk,
    /// A colour space that the decoder does not interpret.
    Other,
}

/// Number of colour components of a colour space the decoder interprets.
pub open spec fn channels_of(c: ColorSpace) -> nat {
    match c {
        ColorSpace::DeviceGray => 1,
        ColorSpace::DeviceRgb => 3,
        ColorSpace::DeviceCmyk => 4,
        ColorSpace::Other => 0,
    }
}

impl ColorSpace {
    /// Number of colour components; zero for a colour space that is not
    /// interpreted.
    pub fn channels(self) -> (r: u8)
        ensures
            r as nat == channels_of(self),
            r <= 4,
    {
        match self {
            ColorSpace::DeviceGray => 1,
            ColorSpace::DeviceRgb => 3,
            ColorSpace::DeviceCmyk => 4,
            ColorSpace::Other => 0,
        }
    }
}

/// An image object: its dictionary entries and its stored stream.
#[derive(Clone, Debug)]
pub struct ImageDict {
    pub width: Option<u32>,
    pub height: Option<u32>,
    pub bits_per_component: Option<u8>,
    pub color_space: Option<ColorSpace>,
    /// Filters in the order they were applied, outermost last.
    pub filters: Vec<Filter>,
    /// Stream bytes, with any transport encoding already removed.
    pub data: Vec<u8>,
}

/// An external object that a page's resources may refer to.
#[derive(Clone, Debug)]
pub enum XObject {
    Image(ImageDict),
    Form,
    PostScript,
}

/// One entry of a page's external-object resources.
#[derive(Clone, Debug)]
pub struct ResourceEntry {
    pub name: String,
    pub reference: usize,
}

/// A page; `xobjects` is `None` where its resources could not be resolved.
#[derive(Clone, Debug)]
pub struct Page {
    pub xobjects: Option<Vec<ResourceEntry>>,
}

/// A document: its pages in order and the arena of objects. A reference
/// `r` resolves to `objects[r]` where that slot is filled.
#[derive(Clone, Debug)]
pub struct Document {
    pub pages: Vec<Page>,
    pub objects: Vec<Option<XObject>>,
}

/// An occurrence of an image resource: the page on which it is referenced and
/// the reference itself.
#[derive(Clone, Copy, Debug, PartialEq, Eq, Structural)]
pub struct ImageResource {
    pub page: usize,
    pub reference: usize,
}

/// A recoverable problem met during the walk.
#[derive(Clone, Copy, Debug, PartialEq, Eq, Structural)]
pub enum WalkWarning {
    /// The page's resource dictionary could not be resolved; the page was
    /// skipped.
    PageUnresolved { page: usize },
    /// A resource reference did not resolve; the entry was skipped.
    ReferenceUnresolved { page: usize, reference: usize },
}

/// Result of resolving a reference that names no object.
#[derive(Clone, Copy, Debug, PartialEq, Eq, Structural)]
pub struct Unresolved {
    pub reference: usize,
}

/// What the walk yields: the image occurrences and the warnings.
#[derive(Clone, Debug)]
pub struct Walk {
    pub images: Vec<ImageResource>,
    pub warnings: Vec<WalkWarning>,
}

impl Document {
    pub open spec fn resolves(&self, r: int) -> bool {
        0 <= r < self.objects@.len() && self.objects@[r] is Some
    }

    pub open spec fn object(&self, r: int) -> XObject {
        self.objects@[r].unwrap()
    }

    pub open spec fn is_image_ref(&self, r: int) -> bool {
        self.resolves(r) && self.object(r) is Image
    }

    /// The image occurrences of one page's entries, in entry order.
    pub open spec fn entry_images(&self, p: int, es: Seq<ResourceEntry>) -> Seq<ImageResource> {
        es.filter_map(
            |e: ResourceEntry|
                if self.is_image_ref(e.reference as int) {
                    Some(ImageResource { page: p as usize, reference: e.reference })
                } else {
                    None
                },
        )
    }

    /// The warnings for one page's entries: one per unresolved reference.
    pub open spec fn entry_warnings(&self, p: int, es: Seq<ResourceEntry>) -> Seq<WalkWarning> {
        es.filter_map(
            |e: ResourceEntry|
                if !self.resolves(e.reference as int) {
                    Some(WalkWarning::ReferenceUnresolved { page: p as usize, reference: e.reference })
                } else {
                    None
                },
        )
    }

    pub open spec fn page_images(&self, p: int) -> Seq<ImageResource> {
        match self.pages@[p].xobjects {
            Some(es) => self.entry_images(p, es@),
            None => seq![],
        }
    }

    pub open spec fn page_warnings(&self, p: int) -> Seq<WalkWarning> {
        match self.pages@[p].xobjects {
            Some(es) => self.entry_warnings(p, es@),
            None => seq![WalkWarning::PageUnresolved { page: p as usize }],
        }
    }

    /// Image occurrences of the first `n` pages, in page order.
    pub open spec fn images_upto(&self, n: int) -> Seq<ImageResource>
        decreases n,
    {
        if n <= 0 {
            seq![]
        } else {
            self.images_upto(n - 1) + self.page_images(n - 1)
        }
    }

    /// Warnings of the first `n` pages, in page order.
    pub open spec fn warnings_upto(&self, n: int) -> Seq<WalkWarning>
        decreases n,
    {
        if n <= 0 {
            seq![]
        } else {
            self.warnings_upto(n - 1) + self.page_warnings(n - 1)
        }
    }

    pub open spec fn all_images(&self) -> Seq<ImageResource> {
        self.images_upto(self.pages@.len() as int)
    }

    pub open spec fn all_warnings(&self) -> Seq<WalkWarning> {
        self.warnings_upto(self.pages@.len() as int)
    }

    /// Looks a reference up in the arena.
    pub fn resolve(&self, r: usize) -> (res: Result<&XObject, Unresolved>)
        ensures
            res is Ok <==> self.resolves(r as int),
            res matches Ok(o) ==> *o == self.object(r as int),
            res matches Err(u) ==> u.reference == r,
    {
        if r < self.objects.len() {
            match &self.objects[r] {
                Some(o) => Ok(o),
                None => Err(Unresolved { reference: r }),
            }
        } else {
            Err(Unresolved { reference: r })
        }
    }

    /// Walks the pages in order and, within a page, its resource entries in
    /// order, keeping each entry that refers to an image. A reference that
    /// appears several times is kept each time. Unresolved pages and
    /// references are skipped and reported.
    pub fn collect_images(&self) -> (w: Walk)
        ensures
            w.images@ == self.all_images(),
            w.warnings@ == self.all_warnings(),
    {
        let mut images: Vec<ImageResource> = Vec::new();
        let mut warnings: Vec<WalkWarning> = Vec::new();
        let mut i: usize = 0;
        while i < self.pages.len()
            invariant
                i <= self.pages@.len(),
                images@ == self.images_upto(i as int),
                warnings@ == self.warnings_upto(i as int),
            decreases self.pages@.len() - i,
        {
            match &self.pages[i].xobjects {
                None => {
                    warnings.push(WalkWarning::PageUnresolved { page: i });
                    assert(warnings@ =~= self.warnings_upto(i + 1));
                    assert(images@ =~= self.images_upto(i + 1));
                },
                Some(es) => {
                    let ghost base_i = images@;
                    let ghost base_w = warnings@;
                    let mut j: usize = 0;
                    while j < es.len()
                        invariant
                            i < self.pages@.len(),
                            self.pages@[i as int].xobjects == Some(*es),
                            j <= es@.len(),
                            base_i == self.images_upto(i as int),
                            base_w == self.warnings_upto(i as int),
                            images@ == base_i + self.entry_images(i as int, es@.subrange(0, j as int)),
                            warnings@ == base_w + self.entry_warnings(i as int, es@.subrange(0, j as int)),
                        decreases es@.len() - j,
                    {
                        let r = es[j].reference;
                        let ghost pre = es@.subrange(0, j as int);
                        let ghost next = es@.subrange(0, j as int + 1);
                        assert(next.drop_last() =~= pre);
                        assert(next.last() == es@[j as int]);
                        match self.resolve(r) {
                            Ok(XObject::Image(_)) => {
                                images.push(ImageResource { page: i, reference: r });
                            },
                            Ok(_) => {},
                            Err(_) => {
                                warnings.push(WalkWarning::ReferenceUnresolved { page: i, reference: r });
                            },
                        }
                        assert(images@ =~= base_i + self.entry_images(i as int, next));
                        assert(warnings@ =~= base_w + self.entry_warnings(i as int, next));
                        j = j + 1;
                    }
                    assert(es@.subrange(0, es@.len() as int) =~= es@);
                },
            }
            i = i + 1;
        }
        Walk { images, warnings }
    }
}

/// Whether an entry refers to an object of the image kind.
pub open spec fn refers_to_image(doc: &Document, e: ResourceEntry) -> bool {
    doc.object(e.reference as int) is Image
}

/// Whether every page's resources and every reference resolve.
pub open spec fn fully_resolvable(doc: &Document) -> bool {
    forall|p: int|
        0 <= p < doc.pages@.len() ==> {
            &&& (#[trigger] doc.pages@[p]).xobjects is Some
            &&& forall|k: int|
                0 <= k < doc.pages@[p].xobjects.unwrap()@.len() ==> doc.resolves(
                    (#[trigger] doc.pages@[p].xobjects.unwrap()@[k]).reference as int,
                )
        }
}

/// Number of resource entries on the first `n` pages that refer to images.
pub open spec fn image_entry_count(doc: &Document, n: int) -> nat
    decreases n,
{
    if n <= 0 {
        0
    } else {
        image_entry_count(doc, n - 1) + match doc.pages@[n - 1].xobjects {
            Some(es) => es@.filter(|e: ResourceEntry| refers_to_image(doc, e)).len(),
            None => 0,
        }
    }
}

proof fn lemma_entries_count(doc: &Document, p: int, es: Seq<ResourceEntry>)
    requires
        forall|k: int| 0 <= k < es.len() ==> doc.resolves((#[trigger] es[k]).reference as int),
    ensures
        doc.entry_images(p, es).len() == es.filter(|e: ResourceEntry| refers_to_image(doc, e)).len(),
        doc.entry_warnings(p, es) == Seq::<WalkWarning>::empty(),
    decreases es.len(),
{
    reveal(Seq::filter);
    if es.len() > 0 {
        let pre = es.drop_last();
        assert forall|k: int| 0 <= k < pre.len() implies doc.resolves((#[trigger] pre[k]).reference as int) by {
            assert(pre[k] == es[k]);
        }
        lemma_entries_count(doc, p, pre);
        assert(doc.resolves(es[es.len() - 1].reference as int));
    }
}

proof fn lemma_pages_count(doc: &Document, n: int)
    requires
        fully_resolvable(doc),
        0 <= n <= doc.pages@.len(),
    ensures
        doc.images_upto(n).len() == image_entry_count(doc, n),
        doc.warnings_upto(n) == Seq::<WalkWarning>::empty(),
    decreases n,
{
    if n > 0 {
        lemma_pages_count(doc, n - 1);
        let es = doc.pages@[n - 1].xobjects.unwrap()@;
        assert forall|k: int| 0 <= k < es.len() implies doc.resolves((#[trigger] es[k]).reference as int) by {
            assert(doc.pages@[n - 1].xobjects.unwrap()@[k] == es[k]);
        }
        lemma_entries_count(doc, n - 1, es);
        assert(doc.warnings_upto(n) =~= Seq::<WalkWarning>::empty());
    }
}

/// When every page and every reference resolves, the walk yields exactly one
/// image occurrence per resource entry that refers to an image, across all
/// pages, and no warning.
pub proof fn lemma_walk_counts_every_image(doc: &Document)
    requires
        fully_resolvable(doc),
    ensures
        doc.all_images().len() == image_entry_count(doc, doc.pages@.len() as int),
        doc.all_warnings() == Seq::<WalkWarning>::empty(),
{
    lemma_pages_count(doc, doc.pages@.len() as int);
}

proof fn lemma_entry_images_are_images(doc: &Document, p: int, es: Seq<ResourceEntry>)
    ensures
        forall|k: int|
            0 <= k < doc.entry_images(p, es).len() ==> doc.is_image_ref(
                (#[trigger] doc.entry_images(p, es)[k]).reference as int,
            ),
    decreases es.len(),
{
    if es.len() > 0 {
        let pre = es.drop_last();
        lemma_entry_images_are_images(doc, p, pre);
        let a = doc.entry_images(p, pre);
        let all = doc.entry_images(p, es);
        let e = es.last();
        if doc.is_image_ref(e.reference as int) {
            assert(all == a + seq![ImageResource { page: p as usize, reference: e.reference }]);
        } else {
            assert(all == a);
        }
        assert forall|k: int| 0 <= k < all.len() implies doc.is_image_ref(
            (#[trigger] all[k]).reference as int,
        ) by {
            if k < a.len() {
                assert(all[k] == a[k]);
            }
        }
    }
}

/// Every occurrence that the walk yields refers to an object of the image
/// kind.
pub proof fn lemma_walk_yields_images(doc: &Document, n: int)
    ensures
        forall|k: int|
            0 <= k < doc.images_upto(n).len() ==> doc.is_image_ref(
                (#[trigger] doc.images_upto(n)[k]).reference as int,
            ),
    decreases n,
{
    if n > 0 {
        lemma_walk_yields_images(doc, n - 1);
        let pre = doc.images_upto(n - 1);
        let pg = doc.page_images(n - 1);
        if let Some(es) = doc.pages@[n - 1].xobjects {
            lemma_entry_images_are_images(doc, n - 1, es@);
        }
        assert forall|k: int| 0 <= k < doc.images_upto(n).len() implies doc.is_image_ref(
            (#[trigger] doc.images_upto(n)[k]).reference as int,
        ) by {
            if k < pre.len() {
                assert(doc.images_upto(n)[k] == pre[k]);
            } else {
                assert(doc.images_upto(n)[k] == pg[k - pre.len()]);
            }
        }
    }
}

} // verus!
