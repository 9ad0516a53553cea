//! Decoding of the pixel stream emitted by the isolated renderer.
//!
//! Wire format, all integers big-endian:
//! - page count (2 bytes, never zero)
//! - for each page: width (2 bytes), height (2 bytes), then
//!   `width * height * 3` bytes of row-major RGB pixels.
use vstd::prelude::*;
use vstd::slice::{slice_subrange, slice_to_vec};
use byteorder::ByteOrder;

verus! {

/// Bytes per pixel: red, green, blue.
pub const BYTES_PER_PIXEL: u64 = 3;

/// Number of pixel bytes a page of the given dimensions carries.
pub open spec fn pixel_bytes(width: u16, height: u16) -> int {
    width as int * height as int * 3
}

/// Bounds on the sizes that 16-bit dimensions give.
proof fn lemma_page_size_bounds(width: u16, height: u16)
    ensures
        0 <= width as int * height as int <= 65535 * 65535,
        0 <= pixel_bytes(width, height) <= 3 * 65535 * 65535,
{
    let w = width as int;
    let h = height as int;
    assert(0 <= w * h <= 65535 * 65535) by (nonlinear_arith)
        requires
            0 <= w <= 65535,
            0 <= h <= 65535,
    ;
}

/// Mathematical value of a page: its dimensions and its pixel bytes.
pub struct PageModel {
    pub width: u16,
    pub height: u16,
    pub pixels: Seq<u8>,
}

impl PageModel {
    /// The pixel buffer matches the dimensions.
    pub open spec fn wf(self) -> bool {
        self.pixels.len() == pixel_bytes(self.width, self.height)
    }
}

/// One page: its dimensions and its raw RGB pixel buffer.
#[derive(Debug, Clone, PartialEq)]
pub struct PageData {
    pub width: u16,
    pub height: u16,
    pub pixels: Vec<u8>,
}

impl View for PageData {
    type V = PageModel;

    open spec fn view(&self) -> PageModel {
        PageModel { width: self.width, height: self.height, pixels: self.pixels@ }
    }
}

/// Why a read from the byte source failed below the protocol level.
#[derive(Debug, Clone, PartialEq)]
pub enum ReadFailure {
    /// The source ended before a fixed-size field was complete.
    Truncated,
    /// The source itself failed; the text describes the failure.
    Transport(String),
}

/// Errors of stream decoding and of page construction.
#[derive(Debug, Clone, PartialEq)]
pub enum StreamError {
    Io(ReadFailure),
    InvalidPageCount(u16),
    InvalidPageDimensions { width: u16, height: u16 },
    InvalidPixelData { expected: u64, actual: u64 },
    UnexpectedEof,
}

impl PageData {
    /// Builds a page, checking that the buffer holds `width * height * 3` bytes.
    pub fn new(width: u16, height: u16, pixels: Vec<u8>) -> (r: Result<PageData, StreamError>)
        ensures
            pixels@.len() == pixel_bytes(width, height) <==> r is Ok,
            r matches Ok(p) ==> p@ == (PageModel { width, height, pixels: pixels@ }),
            r matches Err(e) ==> e == (StreamError::InvalidPixelData {
                expected: pixel_bytes(width, height) as u64,
                actual: pixels@.len() as u64,
            }),
    {
        proof {
            lemma_page_size_bounds(width, height);
        }
        let expected_size = (width as u64) * (height as u64) * BYTES_PER_PIXEL;
        let actual_size = pixels.len() as u64;
        if actual_size != expected_size {
            return Err(StreamError::InvalidPixelData { expected: expected_size, actual: actual_size });
        }
        Ok(PageData { width, height, pixels })
    }

    /// Number of pixels of the page: `width * height`.
    pub fn pixel_count(&self) -> (r: usize)
        ensures
            r == self.width as int * self.height as int,
    {
        proof {
            lemma_page_size_bounds(self.width, self.height);
        }
        (self.width as usize) * (self.height as usize)
    }
}

/// Big-endian 16-bit value of the two bytes at `i`.
pub open spec fn be_u16_at(data: Seq<u8>, i: int) -> u16 {
    (data[i] as int * 256 + data[i + 1] as int) as u16
}

/// Decoding of the page count at `pos`: the outcome and the position after it.
pub open spec fn count_step(data: Seq<u8>, pos: int) -> (Result<u16, StreamError>, int) {
    if data.len() < pos + 2 {
        (Err(StreamError::Io(ReadFailure::Truncated)), data.len() as int)
    } else if be_u16_at(data, pos) == 0 {
        (Err(StreamError::InvalidPageCount(0)), pos + 2)
    } else {
        (Ok(be_u16_at(data, pos)), pos + 2)
    }
}

/// Decoding of one page at `pos`: the outcome and the position after it.
/// A short header or a short pixel buffer consumes what is left.
pub open spec fn page_step(data: Seq<u8>, pos: int) -> (Result<PageModel, StreamError>, int) {
    if data.len() < pos + 4 {
        (Err(StreamError::Io(ReadFailure::Truncated)), data.len() as int)
    } else {
        let width = be_u16_at(data, pos);
        let height = be_u16_at(data, pos + 2);
        let end = pos + 4 + pixel_bytes(width, height);
        if width == 0 || height == 0 {
            (Err(StreamError::InvalidPageDimensions { width, height }), pos + 4)
        } else if data.len() < end {
            (Err(StreamError::UnexpectedEof), data.len() as int)
        } else {
            (Ok(PageModel { width, height, pixels: data.subrange(pos + 4, end) }), end)
        }
    }
}

/// Decoding of `k` consecutive pages from `pos`, stopping at the first failure.
pub open spec fn pages_step(data: Seq<u8>, pos: int, k: nat) -> (Result<Seq<PageModel>, StreamError>, int)
    decreases k,
{
    if k == 0 {
        (Ok(Seq::empty()), pos)
    } else {
        let (prev, p) = pages_step(data, pos, (k - 1) as nat);
        match prev {
            Err(e) => (Err(e), p),
            Ok(ms) => {
                let (r, q) = page_step(data, p);
                match r {
                    Ok(m) => (Ok(ms.push(m)), q),
                    Err(e) => (Err(e), q),
                }
            },
        }
    }
}

/// Decoding of a whole stream from `pos`: the page count, then that many pages.
pub open spec fn stream_step(data: Seq<u8>, pos: int) -> (Result<Seq<PageModel>, StreamError>, int) {
    let (c, p) = count_step(data, pos);
    match c {
        Err(e) => (Err(e), p),
        Ok(n) => pages_step(data, p, n as nat),
    }
}

/// The models of a sequence of pages.
pub open spec fn models(pages: Seq<PageData>) -> Seq<PageModel> {
    pages.map_values(|p: PageData| p@)
}

/// The value of a decoded page, or its error.
pub open spec fn page_result(r: Result<PageData, StreamError>) -> Result<PageModel, StreamError> {
    match r {
        Ok(p) => Ok(p@),
        Err(e) => Err(e),
    }
}

/// The values of decoded pages, or their error.
pub open spec fn pages_result(r: Result<Vec<PageData>, StreamError>) -> Result<Seq<PageModel>, StreamError> {
    match r {
        Ok(v) => Ok(models(v@)),
        Err(e) => Err(e),
    }
}

/// Once a page fails, reading more pages changes neither the error nor the position.
proof fn lemma_failure_sticks(data: Seq<u8>, pos: int, k: nat, m: nat)
    requires
        pages_step(data, pos, k).0 is Err,
        k <= m,
    ensures
        pages_step(data, pos, m) == pages_step(data, pos, k),
    decreases m - k,
{
    if k < m {
        lemma_failure_sticks(data, pos, k, (m - 1) as nat);
    }
}

/// Relies on byteorder's `BigEndian::read_u16`: the first two bytes of the
/// slice as a big-endian integer (it panics on fewer than two).
#[verifier::external_body]
fn read_be_u16(data: &[u8]) -> (r: u16)
    requires
        data@.len() >= 2,
    ensures
        r == be_u16_at(data@, 0),
{
    byteorder::BigEndian::read_u16(data)
}

/// Decoder of the pixel stream over the bytes received from the renderer.
/// It owns the bytes and a read cursor into them.
pub struct PixelStreamReader {
    data: Vec<u8>,
    pos: usize,
}

impl PixelStreamReader {
    /// The bytes of the stream.
    pub closed spec fn bytes(&self) -> Seq<u8> {
        self.data@
    }

    /// Index of the next byte to read.
    pub closed spec fn position(&self) -> int {
        self.pos as int
    }

    /// The cursor lies within the stream.
    pub closed spec fn wf(&self) -> bool {
        self.pos <= self.data@.len()
    }

    /// A reader positioned at the first byte of `data`.
    pub fn new(data: Vec<u8>) -> (r: PixelStreamReader)
        ensures
            r.wf(),
            r.bytes() == data@,
            r.position() == 0,
    {
        PixelStreamReader { data, pos: 0 }
    }

    /// The big-endian integer at the cursor, which the caller has checked to fit.
    fn read_u16_at_cursor(&mut self) -> (r: u16)
        requires
            old(self).wf(),
            old(self).pos + 2 <= old(self).data@.len(),
        ensures
            final(self).data@ == old(self).data@,
            final(self).pos == old(self).pos + 2,
            r == be_u16_at(old(self).data@, old(self).pos as int),
    {
        let rest = slice_subrange(self.data.as_slice(), self.pos, self.data.len());
        let v = read_be_u16(rest);
        self.pos = self.pos + 2;
        v
    }

    /// Reads the page count; zero is a protocol error.
    pub fn read_page_count(&mut self) -> (r: Result<u16, StreamError>)
        requires
            old(self).wf(),
        ensures
            final(self).wf(),
            final(self).bytes() == old(self).bytes(),
            (r, final(self).position()) == count_step(old(self).bytes(), old(self).position()),
    {
        if self.data.len() - self.pos < 2 {
            self.pos = self.data.len();
            return Err(StreamError::Io(ReadFailure::Truncated));
        }
        let count = self.read_u16_at_cursor();
        if count == 0 {
            return Err(StreamError::InvalidPageCount(count));
        }
        Ok(count)
    }

    /// Reads one page: width, height, then its pixel bytes.
    pub fn read_page(&mut self) -> (r: Result<PageData, StreamError>)
        requires
            old(self).wf(),
        ensures
            final(self).wf(),
            final(self).bytes() == old(self).bytes(),
            (page_result(r), final(self).position()) == page_step(old(self).bytes(), old(self).position()),
    {
        if self.data.len() - self.pos < 4 {
            self.pos = self.data.len();
            return Err(StreamError::Io(ReadFailure::Truncated));
        }
        let width = self.read_u16_at_cursor();
        let height = self.read_u16_at_cursor();
        if width == 0 || height == 0 {
            return Err(StreamError::InvalidPageDimensions { width, height });
        }
        proof {
            lemma_page_size_bounds(width, height);
        }
        let num_bytes = (width as u64) * (height as u64) * BYTES_PER_PIXEL;
        if ((self.data.len() - self.pos) as u64) < num_bytes {
            self.pos = self.data.len();
            return Err(StreamError::UnexpectedEof);
        }
        let end = self.pos + num_bytes as usize;
        let pixels = slice_to_vec(slice_subrange(self.data.as_slice(), self.pos, end));
        self.pos = end;
        Ok(PageData { width, height, pixels })
    }

    /// Reads the page count and then that many pages, in stream order.
    /// The first failure ends the read and no page is returned.
    pub fn read_all_pages(&mut self) -> (r: Result<Vec<PageData>, StreamError>)
        requires
            old(self).wf(),
        ensures
            final(self).wf(),
            final(self).bytes() == old(self).bytes(),
            (pages_result(r), final(self).position()) == stream_step(old(self).bytes(), old(self).position()),
    {
        let page_count = match self.read_page_count() {
            Ok(c) => c,
            Err(e) => return Err(e),
        };
        let ghost start = self.pos as int;
        let mut pages: Vec<PageData> = Vec::with_capacity(page_count as usize);
        let mut i: u16 = 0;
        assert(models(pages@) =~= Seq::<PageModel>::empty());
        while i < page_count
            invariant
                self.wf(),
                self.data@ == old(self).data@,
                count_step(old(self).data@, old(self).pos as int) == (Ok::<u16, StreamError>(page_count), start),
                i <= page_count,
                pages_step(self.data@, start, i as nat) == (Ok::<Seq<PageModel>, StreamError>(models(pages@)), self.pos as int),
            decreases page_count - i,
        {
            let ghost before = pages@;
            match self.read_page() {
                Ok(p) => {
                    pages.push(p);
                    assert(models(pages@) =~= models(before).push(p@));
                },
                Err(e) => {
                    proof {
                        lemma_failure_sticks(self.data@, start, (i + 1) as nat, page_count as nat);
                    }
                    return Err(e);
                },
            }
            i = i + 1;
        }
        Ok(pages)
    }
}

/// Big-endian bytes of a 16-bit value.
pub open spec fn be_bytes(v: u16) -> Seq<u8> {
    seq![(v / 256) as u8, (v % 256) as u8]
}

/// Wire form of one page: width, height, pixels.
pub open spec fn encode_page(m: PageModel) -> Seq<u8> {
    be_bytes(m.width) + be_bytes(m.height) + m.pixels
}

/// Wire form of consecutive pages.
pub open spec fn encode_pages(pages: Seq<PageModel>) -> Seq<u8>
    decreases pages.len(),
{
    if pages.len() == 0 {
        Seq::empty()
    } else {
        encode_pages(pages.drop_last()) + encode_page(pages.last())
    }
}

/// Wire form of a whole stream: the page count, then the pages.
pub open spec fn encode_stream(pages: Seq<PageModel>) -> Seq<u8> {
    be_bytes(pages.len() as u16) + encode_pages(pages)
}

/// A page that the stream can carry: nonzero dimensions and a matching buffer.
pub open spec fn encodable(m: PageModel) -> bool {
    m.width > 0 && m.height > 0 && m.wf()
}

proof fn lemma_be_bytes(v: u16)
    ensures
        be_u16_at(be_bytes(v), 0) == v,
{
    let b = be_bytes(v);
    assert(b[0] as int == v as int / 256);
    assert(b[1] as int == v as int % 256);
}

/// The encoding of the first `k` pages starts the encoding of all of them.
proof fn lemma_encode_prefix(pages: Seq<PageModel>, k: int)
    requires
        0 <= k <= pages.len(),
    ensures
        encode_pages(pages.take(k)).len() <= encode_pages(pages).len(),
        encode_pages(pages).subrange(0, encode_pages(pages.take(k)).len() as int) == encode_pages(pages.take(k)),
    decreases pages.len(),
{
    if k == pages.len() {
        assert(pages.take(k) =~= pages);
        assert(encode_pages(pages).subrange(0, encode_pages(pages).len() as int) =~= encode_pages(pages));
    } else {
        let init = pages.drop_last();
        lemma_encode_prefix(init, k);
        assert(init.take(k) =~= pages.take(k));
        let e = encode_pages(pages);
        let ei = encode_pages(init);
        let ek = encode_pages(pages.take(k));
        assert(e == ei + encode_page(pages.last()));
        assert(e.subrange(0, ek.len() as int) =~= ei.subrange(0, ek.len() as int));
    }
}

/// The decoder reads page `k` of an encoded stream where its encoding begins.
proof fn lemma_page_in_stream(pages: Seq<PageModel>, k: int)
    requires
        0 <= k < pages.len() <= 65535,
        encodable(pages[k]),
    ensures
        ({
            let data = encode_stream(pages);
            let p = 2 + encode_pages(pages.take(k)).len() as int;
            page_step(data, p) == (Ok::<PageModel, StreamError>(pages[k]), p + encode_page(pages[k]).len() as int)
        }),
        encode_pages(pages.take(k + 1)).len() == encode_pages(pages.take(k)).len() + encode_page(pages[k]).len(),
{
    let data = encode_stream(pages);
    let all = encode_pages(pages);
    let ek = encode_pages(pages.take(k));
    let m = pages[k];
    let em = encode_page(m);
    let p = 2 + ek.len() as int;
    let end = p + em.len() as int;
    assert(pages.take(k + 1).drop_last() =~= pages.take(k));
    assert(encode_pages(pages.take(k + 1)) == ek + em);
    lemma_encode_prefix(pages, k + 1);
    assert forall|i: int| 0 <= i < em.len() implies data[p + i] == em[i] by {
        assert(all.subrange(0, (ek + em).len() as int)[ek.len() + i] == (ek + em)[ek.len() + i]);
    }
    lemma_be_bytes(m.width);
    lemma_be_bytes(m.height);
    assert(data[p] == em[0] && data[p + 1] == em[1]);
    assert(data[p + 2] == em[2] && data[p + 3] == em[3]);
    assert(be_u16_at(data, p) == m.width);
    assert(be_u16_at(data, p + 2) == m.height);
    assert(data.subrange(p + 4, end) =~= m.pixels) by {
        assert forall|i: int| 0 <= i < m.pixels.len() implies data.subrange(p + 4, end)[i] == m.pixels[i] by {
            assert(data[p + 4 + i] == em[4 + i]);
        }
    }
}

/// Decoding the first `k` pages of an encoded stream gives those pages.
proof fn lemma_decode_prefix(pages: Seq<PageModel>, k: nat)
    requires
        k <= pages.len() <= 65535,
        forall|i: int| 0 <= i < pages.len() ==> encodable(#[trigger] pages[i]),
    ensures
        pages_step(encode_stream(pages), 2, k)
            == (Ok::<Seq<PageModel>, StreamError>(pages.take(k as int)), 2 + encode_pages(pages.take(k as int)).len() as int),
    decreases k,
{
    if k == 0 {
        assert(pages.take(0) =~= Seq::<PageModel>::empty());
    } else {
        let j = (k - 1) as int;
        lemma_decode_prefix(pages, (k - 1) as nat);
        lemma_page_in_stream(pages, j);
        assert(pages.take(j).push(pages[j]) =~= pages.take(k as int));
    }
}

/// Round trip: decoding the encoding of one or more encodable pages gives
/// back exactly those pages, in order, and consumes the whole stream.
pub proof fn lemma_round_trip(pages: Seq<PageModel>)
    requires
        0 < pages.len() <= 65535,
        forall|i: int| 0 <= i < pages.len() ==> encodable(#[trigger] pages[i]),
    ensures
        stream_step(encode_stream(pages), 0)
            == (Ok::<Seq<PageModel>, StreamError>(pages), encode_stream(pages).len() as int),
{
    let data = encode_stream(pages);
    let n = pages.len() as u16;
    lemma_be_bytes(n);
    assert(data[0] == be_bytes(n)[0] && data[1] == be_bytes(n)[1]);
    assert(be_u16_at(data, 0) == n);
    lemma_decode_prefix(pages, pages.len());
    assert(pages.take(pages.len() as int) =~= pages);
}

/// A stream that opens with a zero page count fails on the count, and
/// nothing past those two bytes is read.
pub proof fn lemma_zero_page_count(data: Seq<u8>)
    requires
        data.len() >= 2,
        data[0] == 0,
        data[1] == 0,
    ensures
        stream_step(data, 0) == (Err::<Seq<PageModel>, StreamError>(StreamError::InvalidPageCount(0)), 2int),
{
}

/// A page header with a zero width or height fails on the dimensions, and
/// no pixel byte is read.
pub proof fn lemma_zero_dimension(data: Seq<u8>, pos: int)
    requires
        0 <= pos,
        pos + 4 <= data.len(),
        be_u16_at(data, pos) == 0 || be_u16_at(data, pos + 2) == 0,
    ensures
        page_step(data, pos) == (Err::<PageModel, StreamError>(StreamError::InvalidPageDimensions {
            width: be_u16_at(data, pos),
            height: be_u16_at(data, pos + 2),
        }), pos + 4),
{
}

/// A page whose pixel bytes are cut short fails as an end of stream, not as
/// a failure of the source, and yields no page.
pub proof fn lemma_truncated_pixels(data: Seq<u8>, pos: int)
    requires
        0 <= pos,
        pos + 4 <= data.len(),
        be_u16_at(data, pos) != 0,
        be_u16_at(data, pos + 2) != 0,
        data.len() < pos + 4 + pixel_bytes(be_u16_at(data, pos), be_u16_at(data, pos + 2)),
    ensures
        page_step(data, pos) == (Err::<PageModel, StreamError>(StreamError::UnexpectedEof), data.len() as int),
{
}

} // verus!
