//! The encoder: builds the artifact that the cache reads from a set of
//! glyphs.
use std::collections::HashMap;
use vstd::prelude::*;
use crate::bitmap::is_glyph_bytes;
use crate::format::{be16_bytes, MAX_PAGE_PAYLOAD, MAX_PAGE_STREAM, PAGE_SLOTS, WIDE_LEN};
use crate::zlib::{deflate, zlib_deflate, zlib_inflate};
use crate::{MAX_UNICODE_CODEPOINT, NUM_UNICODE_PAGES};

verus! {

broadcast use vstd::std_specs::hash::group_hash_axioms;

/// A mapping from codepoint to glyph bytes, the encoder's input. A later
/// definition of a codepoint replaces an earlier one.
pub struct GlyphSet {
    glyphs: HashMap<u32, Vec<u8>>,
}

/// The codepoint of `slot` in `page`.
pub open spec fn codepoint_at(page: int, slot: int) -> u32 {
    (page * 256 + slot) as u32
}

/// The two header bytes that the encoder writes for `codepoint`.
pub open spec fn tag_bytes(glyphs: Map<u32, Seq<u8>>, codepoint: u32) -> Seq<u8> {
    if !glyphs.contains_key(codepoint) {
        seq![1u8, 1u8]
    } else if glyphs[codepoint].len() == WIDE_LEN {
        seq![0u8, 1u8]
    } else {
        seq![0u8, 0u8]
    }
}

/// The glyph bytes that the encoder writes for `codepoint`.
pub open spec fn glyph_bytes(glyphs: Map<u32, Seq<u8>>, codepoint: u32) -> Seq<u8> {
    if glyphs.contains_key(codepoint) {
        glyphs[codepoint]
    } else {
        Seq::empty()
    }
}

/// The header of `page` for its first `n` slots.
pub open spec fn header_prefix(glyphs: Map<u32, Seq<u8>>, page: int, n: int) -> Seq<u8>
    decreases n,
{
    if n <= 0 {
        Seq::empty()
    } else {
        header_prefix(glyphs, page, n - 1) + tag_bytes(glyphs, codepoint_at(page, n - 1))
    }
}

/// The glyph bytes of `page` for its first `n` slots.
pub open spec fn glyphs_prefix(glyphs: Map<u32, Seq<u8>>, page: int, n: int) -> Seq<u8>
    decreases n,
{
    if n <= 0 {
        Seq::empty()
    } else {
        glyphs_prefix(glyphs, page, n - 1) + glyph_bytes(glyphs, codepoint_at(page, n - 1))
    }
}

/// The uncompressed payload of `page`: its tag header, then its glyphs in
/// codepoint order.
pub open spec fn page_payload(glyphs: Map<u32, Seq<u8>>, page: int) -> Seq<u8> {
    header_prefix(glyphs, page, PAGE_SLOTS as int) + glyphs_prefix(glyphs, page, PAGE_SLOTS as int)
}

/// A page that holds at least one glyph byte.
pub open spec fn page_is_used(glyphs: Map<u32, Seq<u8>>, page: int) -> bool {
    glyphs_prefix(glyphs, page, PAGE_SLOTS as int).len() > 0
}

/// Why the encoder refused to build an artifact.
#[derive(Clone, Copy, Debug, PartialEq, Eq, Structural)]
pub enum EncodeError {
    /// The uncompressed payload of this page exceeds `MAX_PAGE_PAYLOAD`.
    PageTooLarge(u32),
    /// The compressed stream of this page exceeds `MAX_PAGE_STREAM`.
    StreamTooLarge(u32),
    /// The compressed page directory is longer than a 32-bit length can say.
    DirectoryTooLarge,
}

/// The four directory bytes of `page`: payload size and stream size, both
/// big-endian, or all zero for a page without glyphs.
pub open spec fn directory_entry(glyphs: Map<u32, Seq<u8>>, page: int) -> Seq<u8> {
    let payload = page_payload(glyphs, page);
    if page_is_used(glyphs, page) {
        be16_bytes(payload.len() as int) + be16_bytes(zlib_deflate(payload).len() as int)
    } else {
        seq![0u8, 0u8, 0u8, 0u8]
    }
}

/// The directory entries of the first `n` pages.
pub open spec fn directory_prefix(glyphs: Map<u32, Seq<u8>>, n: int) -> Seq<u8>
    decreases n,
{
    if n <= 0 {
        Seq::empty()
    } else {
        directory_prefix(glyphs, n - 1) + directory_entry(glyphs, n - 1)
    }
}

/// The compressed streams of the used pages among the first `n`, in page
/// order.
pub open spec fn streams_prefix(glyphs: Map<u32, Seq<u8>>, n: int) -> Seq<u8>
    decreases n,
{
    if n <= 0 {
        Seq::empty()
    } else if page_is_used(glyphs, n - 1) {
        streams_prefix(glyphs, n - 1) + zlib_deflate(page_payload(glyphs, n - 1))
    } else {
        streams_prefix(glyphs, n - 1)
    }
}

/// The four big-endian bytes of `v`.
pub open spec fn be32_bytes(v: int) -> Seq<u8> {
    be16_bytes(v / 65536) + be16_bytes(v % 65536)
}

/// The artifact for a glyph set: the length of the compressed directory,
/// the compressed directory, then the streams of all used pages.
pub open spec fn encoded_font(glyphs: Map<u32, Seq<u8>>) -> Seq<u8> {
    let dir = zlib_deflate(directory_prefix(glyphs, NUM_UNICODE_PAGES as int));
    be32_bytes(dir.len() as int) + dir + streams_prefix(glyphs, NUM_UNICODE_PAGES as int)
}

/// The sizes that the format stores fit their fields: every used page's
/// payload within `MAX_PAGE_PAYLOAD` bytes and its stream within
/// `MAX_PAGE_STREAM` bytes, the compressed directory within a 32-bit length.
pub open spec fn encoding_fits(glyphs: Map<u32, Seq<u8>>) -> bool {
    &&& forall|p: int|
        0 <= p < NUM_UNICODE_PAGES && #[trigger] page_is_used(glyphs, p) ==> {
            &&& page_payload(glyphs, p).len() <= MAX_PAGE_PAYLOAD
            &&& zlib_deflate(page_payload(glyphs, p)).len() <= MAX_PAGE_STREAM
        }
    &&& zlib_deflate(directory_prefix(glyphs, NUM_UNICODE_PAGES as int)).len() <= u32::MAX
}

/// Every stream of the artifact for `glyphs` decodes back to what was
/// compressed into it, whatever bytes follow it.
pub open spec fn streams_decode(glyphs: Map<u32, Seq<u8>>) -> bool {
    &&& forall|p: int, rest: Seq<u8>|
        0 <= p < NUM_UNICODE_PAGES && page_is_used(glyphs, p) ==> #[trigger] zlib_inflate(
            zlib_deflate(page_payload(glyphs, p)) + rest,
        ) == Some(page_payload(glyphs, p))
    &&& forall|rest: Seq<u8>|
        #[trigger] zlib_inflate(zlib_deflate(directory_prefix(glyphs, NUM_UNICODE_PAGES as int)) + rest)
            == Some(directory_prefix(glyphs, NUM_UNICODE_PAGES as int))
}

/// The directory sizes of `page`, if they are within the format's budget:
/// a payload of at most `MAX_PAGE_PAYLOAD` bytes and a stream of at most
/// `MAX_PAGE_STREAM` bytes.
pub fn page_sizes(page: u32, payload_len: usize, stream_len: usize) -> (r: Result<(u16, u16), EncodeError>)
    ensures
        r == if payload_len > MAX_PAGE_PAYLOAD {
            Err(EncodeError::PageTooLarge(page))
        } else if stream_len > MAX_PAGE_STREAM {
            Err(EncodeError::StreamTooLarge(page))
        } else {
            Ok((payload_len as u16, stream_len as u16))
        },
{
    if payload_len > MAX_PAGE_PAYLOAD {
        Err(EncodeError::PageTooLarge(page))
    } else if stream_len > MAX_PAGE_STREAM {
        Err(EncodeError::StreamTooLarge(page))
    } else {
        Ok((payload_len as u16, stream_len as u16))
    }
}

/// Appends the big-endian bytes of `v`.
fn push_be16(out: &mut Vec<u8>, v: u16)
    ensures
        final(out)@ == old(out)@ + be16_bytes(v as int),
{
    out.push((v / 256) as u8);
    out.push((v % 256) as u8);
    assert(final(out)@ =~= old(out)@ + be16_bytes(v as int));
}

/// The header has two bytes per slot.
pub proof fn lemma_header_prefix_len(glyphs: Map<u32, Seq<u8>>, page: int, n: int)
    requires
        0 <= n,
    ensures
        header_prefix(glyphs, page, n).len() == 2 * n,
    decreases n,
{
    if n > 0 {
        lemma_header_prefix_len(glyphs, page, n - 1);
    }
}

impl View for GlyphSet {
    type V = Map<u32, Seq<u8>>;

    closed spec fn view(&self) -> Map<u32, Seq<u8>> {
        Map::new(|c: u32| self.glyphs@.contains_key(c), |c: u32| self.glyphs@[c]@)
    }
}

impl GlyphSet {
    /// Every codepoint is a legal one and every glyph 16 or 32 bytes long.
    pub closed spec fn wf(&self) -> bool {
        forall|c: u32|
            #[trigger] self.glyphs@.contains_key(c) ==> c <= MAX_UNICODE_CODEPOINT && is_glyph_bytes(
                self.glyphs@[c]@,
            )
    }

    /// An empty set.
    pub fn new() -> (r: GlyphSet)
        ensures
            r.wf(),
            r@ == Map::<u32, Seq<u8>>::empty(),
    {
        let r = GlyphSet { glyphs: HashMap::new() };
        assert(r@ =~= Map::<u32, Seq<u8>>::empty());
        r
    }

    /// Defines the glyph of `codepoint`, replacing any earlier definition.
    /// A codepoint above `MAX_UNICODE_CODEPOINT`, or bytes that are neither
    /// 16 nor 32 long, are refused: the set is left as it was and the result
    /// is `false`.
    pub fn insert(&mut self, codepoint: u32, bytes: Vec<u8>) -> (r: bool)
        requires
            old(self).wf(),
        ensures
            final(self).wf(),
            r == (codepoint <= MAX_UNICODE_CODEPOINT && is_glyph_bytes(bytes@)),
            r ==> final(self)@ == old(self)@.insert(codepoint, bytes@),
            !r ==> final(self)@ == old(self)@,
    {
        if codepoint > MAX_UNICODE_CODEPOINT || !(bytes.len() == 16 || bytes.len() == WIDE_LEN) {
            return false;
        }
        let ghost bytes_view = bytes@;
        self.glyphs.insert(codepoint, bytes);
        assert(self@ =~= old(self)@.insert(codepoint, bytes_view));
        true
    }

    /// The number of codepoints with a glyph.
    pub fn len(&self) -> (r: usize)
        ensures
            r == self@.len(),
    {
        proof {
            assert(self@.dom() =~= self.glyphs@.dom());
        }
        self.glyphs.len()
    }

    /// The uncompressed payload of `page`: 256 big-endian tags (`0x0101` no
    /// glyph, `0x0000` narrow, `0x0001` wide), then the glyphs of the page
    /// in codepoint order.
    pub fn encode_page(&self, page: u32) -> (r: Vec<u8>)
        requires
            self.wf(),
            page < 0x1100,
        ensures
            r@ == page_payload(self@, page as int),
    {
        let mut header: Vec<u8> = Vec::new();
        let mut body: Vec<u8> = Vec::new();
        let mut slot: u32 = 0;
        while slot < 256
            invariant
                page < 0x1100,
                slot <= 256,
                self.wf(),
                header@ == header_prefix(self@, page as int, slot as int),
                body@ == glyphs_prefix(self@, page as int, slot as int),
                body@.len() <= 32 * slot,
            decreases 256 - slot,
        {
            let codepoint = page * 256 + slot;
            assert(codepoint == codepoint_at(page as int, slot as int));
            match self.glyphs.get(&codepoint) {
                None => {
                    header.push(1);
                    header.push(1);
                },
                Some(bytes) => {
                    if bytes.len() == WIDE_LEN {
                        header.push(0);
                        header.push(1);
                    } else {
                        header.push(0);
                        header.push(0);
                    }
                    let mut i: usize = 0;
                    let ghost start = body@;
                    while i < bytes.len()
                        invariant
                            i <= bytes@.len(),
                            body@ == start + bytes@.subrange(0, i as int),
                        decreases bytes@.len() - i,
                    {
                        body.push(bytes[i]);
                        i = i + 1;
                    }
                    assert(bytes@.subrange(0, bytes@.len() as int) =~= bytes@);
                },
            }
            assert(header@ =~= header_prefix(self@, page as int, slot as int + 1));
            assert(body@ =~= glyphs_prefix(self@, page as int, slot as int + 1));
            slot = slot + 1;
        }
        header.append(&mut body);
        header
    }

    /// Builds the artifact: every used page's payload compressed on its
    /// own, a dense directory of sizes for all pages compressed as one
    /// stream, and a big-endian length prefix for that stream. A page over
    /// the size budget stops the build.
    pub fn encode_font(&self) -> (r: Result<Vec<u8>, EncodeError>)
        requires
            self.wf(),
        ensures
            r is Ok <==> encoding_fits(self@),
            r matches Ok(v) ==> v@ == encoded_font(self@) && streams_decode(self@),
            r matches Err(EncodeError::PageTooLarge(p)) ==> page_payload(self@, p as int).len()
                > MAX_PAGE_PAYLOAD,
            r matches Err(EncodeError::StreamTooLarge(p)) ==> zlib_deflate(
                page_payload(self@, p as int),
            ).len() > MAX_PAGE_STREAM,
            r matches Err(EncodeError::DirectoryTooLarge) ==> zlib_deflate(
                directory_prefix(self@, NUM_UNICODE_PAGES as int),
            ).len() > u32::MAX,
    {
        let mut directory: Vec<u8> = Vec::new();
        let mut streams: Vec<u8> = Vec::new();
        let mut page: u32 = 0;
        while page < NUM_UNICODE_PAGES
            invariant
                page <= NUM_UNICODE_PAGES,
                self.wf(),
                directory@ == directory_prefix(self@, page as int),
                streams@ == streams_prefix(self@, page as int),
                forall|q: int|
                    0 <= q < page && #[trigger] page_is_used(self@, q) ==> {
                        &&& page_payload(self@, q).len() <= MAX_PAGE_PAYLOAD
                        &&& zlib_deflate(page_payload(self@, q)).len() <= MAX_PAGE_STREAM
                    },
                forall|q: int, rest: Seq<u8>|
                    0 <= q < page && page_is_used(self@, q) ==> #[trigger] zlib_inflate(
                        zlib_deflate(page_payload(self@, q)) + rest,
                    ) == Some(page_payload(self@, q)),
            decreases NUM_UNICODE_PAGES - page,
        {
            let payload = self.encode_page(page);
            proof {
                lemma_header_prefix_len(self@, page as int, PAGE_SLOTS as int);
            }
            if payload.len() > 512 {
                let mut stream = deflate(payload.as_slice()).unwrap();
                let (payload_size, stream_size) = match page_sizes(page, payload.len(), stream.len()) {
                    Ok(sizes) => sizes,
                    Err(e) => {
                        assert(page_is_used(self@, page as int));
                        return Err(e);
                    },
                };
                push_be16(&mut directory, payload_size);
                push_be16(&mut directory, stream_size);
                streams.append(&mut stream);
            } else {
                directory.push(0);
                directory.push(0);
                directory.push(0);
                directory.push(0);
            }
            assert(directory@ =~= directory_prefix(self@, page as int + 1));
            page = page + 1;
        }
        let mut dir_stream = deflate(directory.as_slice()).unwrap();
        if dir_stream.len() > u32::MAX as usize {
            return Err(EncodeError::DirectoryTooLarge);
        }
        let dir_len = dir_stream.len() as u32;
        let mut out: Vec<u8> = Vec::new();
        push_be16(&mut out, (dir_len / 65536) as u16);
        push_be16(&mut out, (dir_len % 65536) as u16);
        out.append(&mut dir_stream);
        out.append(&mut streams);
        assert(out@ =~= encoded_font(self@));
        Ok(out)
    }
}

} // verus!
