//! Layout of the rebuilt document: one page per decoded page, sized from
//! its pixel dimensions and the configured resolution, carrying the page's
//! pixels as an RGB image.
use vstd::prelude::*;
use vstd::slice::slice_to_vec;
use crate::stream_reader::{models, pixel_bytes, PageData, PageModel};

verus! {

/// Resolution, in pixels per inch, used when none is given.
pub const DEFAULT_DPI: u32 = 150;

/// Points (the document's length unit) per inch.
pub const POINTS_PER_INCH: u32 = 72;

#[verifier::external_type_specification]
#[verifier::external_body]
pub struct ExDynamicImage(image::DynamicImage);

/// The RGB image that `image` builds from the given dimensions and bytes.
pub uninterp spec fn rgb_image_of(width: u16, height: u16, pixels: Seq<u8>) -> image::DynamicImage;

/// Relies on image's `ImageBuffer::from_raw`: it accepts a buffer of at
/// least `3 * width * height` bytes for RGB pixels (else `None`) and keeps
/// it whole, so the image depends on the dimensions and the bytes alone.
#[verifier::external_body]
fn rgb_image(width: u16, height: u16, pixels: Vec<u8>) -> (r: Option<image::DynamicImage>)
    ensures
        r is Some <==> pixels@.len() >= pixel_bytes(width, height),
        r matches Some(img) ==> img == rgb_image_of(width, height, pixels@),
{
    match image::ImageBuffer::<image::Rgb<u8>, Vec<u8>>::from_raw(width as u32, height as u32, pixels) {
        Some(buffer) => Some(image::DynamicImage::ImageRgb8(buffer)),
        None => None,
    }
}

/// A length of `numerator / denominator` points.
#[derive(Debug, Clone, Copy, PartialEq, Eq, Structural)]
pub struct Points {
    pub numerator: u32,
    pub denominator: u32,
}

/// Length in points of `pixels` pixels at `dpi` pixels per inch:
/// `pixels / dpi * 72`, kept as an exact fraction.
pub open spec fn points_of(pixels: u16, dpi: u32) -> Points {
    Points { numerator: (pixels as int * 72) as u32, denominator: dpi }
}

/// Errors of document reconstruction.
#[derive(Debug, Clone, PartialEq)]
pub enum PdfError {
    NoPages,
    PdfCreation(String),
    InvalidDimensions { width: u16, height: u16 },
    ImageCreation(String),
}

/// A page of the rebuilt document: its physical size and the image that
/// covers it.
pub struct PageLayout {
    pub width: Points,
    pub height: Points,
    pub image: image::DynamicImage,
}

/// A page can be laid out: nonzero dimensions and enough pixel bytes.
pub open spec fn renderable(p: PageModel) -> bool {
    p.width > 0 && p.height > 0 && p.pixels.len() >= pixel_bytes(p.width, p.height)
}

/// The error for `pages`: the empty sequence, or the first page that cannot
/// be laid out.
pub open spec fn layout_error(pages: Seq<PageModel>, e: PdfError) -> bool {
    if pages.len() == 0 {
        e == PdfError::NoPages
    } else {
        exists|i: int|
            0 <= i < pages.len() && !renderable(#[trigger] pages[i])
                && (forall|j: int| 0 <= j < i ==> renderable(pages[j]))
                && e == (PdfError::InvalidDimensions { width: pages[i].width, height: pages[i].height })
    }
}

/// Every page can be laid out.
pub open spec fn all_renderable(pages: Seq<PageModel>) -> bool {
    forall|i: int| 0 <= i < pages.len() ==> renderable(#[trigger] pages[i])
}

/// `layouts` are the layouts of `pages` at `dpi`, in the same order.
pub open spec fn laid_out(layouts: Seq<PageLayout>, pages: Seq<PageModel>, dpi: u32) -> bool {
    &&& layouts.len() == pages.len()
    &&& forall|i: int| 0 <= i < pages.len()
        ==> (#[trigger] layouts[i]).width == points_of(pages[i].width, dpi)
            && layouts[i].height == points_of(pages[i].height, dpi)
            && layouts[i].image == rgb_image_of(pages[i].width, pages[i].height, pages[i].pixels)
}

/// Lays pages out at a fixed resolution.
pub struct PdfReconstructor {
    dpi: u32,
}

impl Default for PdfReconstructor {
    /// A reconstructor at the default resolution.
    fn default() -> (r: PdfReconstructor)
        ensures
            r.wf(),
            r.resolution() == DEFAULT_DPI,
    {
        PdfReconstructor { dpi: DEFAULT_DPI }
    }
}

impl PdfReconstructor {
    /// The resolution, in pixels per inch.
    pub closed spec fn resolution(&self) -> u32 {
        self.dpi
    }

    /// The resolution is positive.
    pub open spec fn wf(&self) -> bool {
        self.resolution() > 0
    }

    /// A reconstructor at the default resolution.
    pub fn new() -> (r: PdfReconstructor)
        ensures
            r.wf(),
            r.resolution() == DEFAULT_DPI,
    {
        PdfReconstructor { dpi: DEFAULT_DPI }
    }

    /// A reconstructor at `dpi` pixels per inch.
    pub fn with_dpi(dpi: u32) -> (r: PdfReconstructor)
        requires
            dpi > 0,
        ensures
            r.wf(),
            r.resolution() == dpi,
    {
        PdfReconstructor { dpi }
    }

    /// The resolution, in pixels per inch.
    pub fn dpi(&self) -> (r: u32)
        ensures
            r == self.resolution(),
    {
        self.dpi
    }

    /// Physical length, in points, of `pixels` pixels at this resolution.
    pub fn pixels_to_points(&self, pixels: u16) -> (r: Points)
        ensures
            r == points_of(pixels, self.resolution()),
    {
        Points { numerator: pixels as u32 * POINTS_PER_INCH, denominator: self.dpi }
    }

    /// Lays out one document page per input page, in input order. Fails on
    /// an empty input, and on the first page with a zero dimension or too
    /// few pixel bytes.
    pub fn reconstruct(&self, pages: Vec<PageData>) -> (r: Result<Vec<PageLayout>, PdfError>)
        ensures
            r is Ok <==> (pages@.len() > 0 && all_renderable(models(pages@))),
            r matches Ok(layouts) ==> laid_out(layouts@, models(pages@), self.resolution()),
            r matches Err(e) ==> layout_error(models(pages@), e),
    {
        if pages.len() == 0 {
            return Err(PdfError::NoPages);
        }
        let ghost ms = models(pages@);
        let mut layouts: Vec<PageLayout> = Vec::with_capacity(pages.len());
        let mut i: usize = 0;
        while i < pages.len()
            invariant
                ms == models(pages@),
                0 < pages@.len(),
                i <= pages@.len(),
                forall|j: int| 0 <= j < i ==> renderable(#[trigger] ms[j]),
                laid_out(layouts@, ms.take(i as int), self.resolution()),
            decreases pages.len() - i,
        {
            let page = &pages[i];
            if page.width == 0 || page.height == 0 {
                assert(!renderable(ms[i as int]));
                return Err(PdfError::InvalidDimensions { width: page.width, height: page.height });
            }
            let image = match rgb_image(page.width, page.height, slice_to_vec(page.pixels.as_slice())) {
                Some(img) => img,
                None => {
                    assert(!renderable(ms[i as int]));
                    return Err(PdfError::InvalidDimensions { width: page.width, height: page.height });
                },
            };
            let width = self.pixels_to_points(page.width);
            let height = self.pixels_to_points(page.height);
            layouts.push(PageLayout { width, height, image });
            assert(ms.take(i + 1) =~= ms.take(i as int).push(ms[i as int]));
            i = i + 1;
        }
        assert(ms.take(i as int) =~= ms);
        Ok(layouts)
    }
}

/// Determinism: two layouts of the same pages at the same resolution agree
/// page by page on size and image, and two failures on the same pages are
/// the same error.
pub proof fn lemma_reconstruct_deterministic(
    pages: Seq<PageModel>,
    dpi: u32,
    first: Seq<PageLayout>,
    second: Seq<PageLayout>,
    e1: PdfError,
    e2: PdfError,
)
    ensures
        laid_out(first, pages, dpi) && laid_out(second, pages, dpi) ==> {
            &&& first.len() == second.len()
            &&& forall|i: int| 0 <= i < first.len()
                ==> (#[trigger] first[i]).width == second[i].width
                    && first[i].height == second[i].height
                    && first[i].image == second[i].image
        },
        layout_error(pages, e1) && layout_error(pages, e2) ==> e1 == e2,
{
    if layout_error(pages, e1) && layout_error(pages, e2) && pages.len() > 0 {
        let i = choose|i: int|
            0 <= i < pages.len() && !renderable(#[trigger] pages[i])
                && (forall|j: int| 0 <= j < i ==> renderable(pages[j]))
                && e1 == (PdfError::InvalidDimensions { width: pages[i].width, height: pages[i].height });
        let k = choose|k: int|
            0 <= k < pages.len() && !renderable(#[trigger] pages[k])
                && (forall|j: int| 0 <= j < k ==> renderable(pages[j]))
                && e2 == (PdfError::InvalidDimensions { width: pages[k].width, height: pages[k].height });
        if i < k {
            assert(renderable(pages[i]));
        } else if k < i {
            assert(renderable(pages[k]));
        }
    }
}

/// Doubling the resolution halves the physical length of the same pixels.
pub proof fn lemma_double_resolution_halves(pixels: u16, dpi: u32)
    requires
        0 < dpi,
        2 * dpi <= u32::MAX,
    ensures
        ({
            let fine = points_of(pixels, (2 * dpi) as u32);
            let coarse = points_of(pixels, dpi);
            2 * fine.numerator as int * coarse.denominator as int
                == coarse.numerator as int * fine.denominator as int
        }),
{
    let n = pixels as int * 72;
    let d = dpi as int;
    assert(2 * n * d == n * (2 * d)) by (nonlinear_arith);
}

} // verus!
