//! The runtime reader: a cache that decompresses pages of the artifact on
//! first use and keeps them for its whole lifetime.
//!
//! The artifact is laid out as: a big-endian 32-bit length `L`; `L` bytes of
//! zlib stream holding the page directory; then the zlib stream of every
//! non-empty page, in ascending page order.
use vstd::prelude::*;
use crate::bitmap::{is_glyph_bytes, Bitmap};
use crate::format::{
    be32, dir_payload_size, empty_payload, lemma_empty_payload_valid,
    lemma_slot_glyph_in_payload, page_stream_start, payload_valid, read_be16, read_be32, slot_glyph, slot_offset,
    DIRECTORY_LEN, PAGE_HEADER_LEN, PAGE_SLOTS,
};
use crate::page::{decode_page, glyph_at};
use crate::zlib::{inflate, zlib_inflate};
use crate::{FALLBACK_CODEPOINT, MAX_UNICODE_CODEPOINT, MAX_UNICODE_PAGE, NUM_UNICODE_PAGES};

verus! {

/// Why an operation of the cache failed.
#[derive(Clone, Copy, Debug, PartialEq, Eq, Structural)]
pub enum FontError {
    /// A codepoint above `MAX_UNICODE_CODEPOINT` was asked for.
    InvalidCodepoint,
    /// A page above `MAX_UNICODE_PAGE` was asked for.
    PageOutOfRange,
    /// The artifact's length prefix or page directory is damaged.
    CorruptDirectory,
    /// The stream of this page does not decode to a valid page of the size
    /// that the directory gives.
    CorruptPage(u32),
    /// The artifact has no glyph for the fallback codepoint.
    MissingFallback,
}

/// The page that holds the fallback glyph.
pub const FALLBACK_PAGE: u32 = 0xFF;

/// The fallback glyph's slot in its page.
pub const FALLBACK_SLOT: usize = 0xFD;

/// What the directory stream of an artifact decodes to, if it decodes.
pub open spec fn decoded_directory(data: Seq<u8>) -> Option<Seq<u8>> {
    zlib_inflate(data.subrange(4, 4 + be32(data, 0)))
}

/// The decompressed page directory of an artifact (empty where its stream
/// does not decode).
pub open spec fn artifact_directory(data: Seq<u8>) -> Seq<u8> {
    match decoded_directory(data) {
        Some(dir) => dir,
        None => Seq::empty(),
    }
}

/// Where the page streams of an artifact begin.
pub open spec fn artifact_streams_base(data: Seq<u8>) -> int {
    4 + be32(data, 0)
}

/// An artifact whose length prefix lies within it and whose directory
/// stream decodes to exactly one entry per page.
pub open spec fn directory_sound(data: Seq<u8>) -> bool {
    &&& data.len() >= 4
    &&& artifact_streams_base(data) <= data.len()
    &&& decoded_directory(data) matches Some(dir) && dir.len() == DIRECTORY_LEN
}

/// Payload size that the directory of an artifact gives for `page`.
pub open spec fn artifact_payload_size(data: Seq<u8>, page: int) -> int {
    dir_payload_size(artifact_directory(data), page)
}

/// Where the stream of `page` starts in an artifact.
pub open spec fn artifact_stream_start(data: Seq<u8>, page: int) -> int {
    page_stream_start(artifact_directory(data), artifact_streams_base(data), page)
}

/// The bytes of an artifact from the start of the stream of `page` on.
pub open spec fn page_stream(data: Seq<u8>, page: int) -> Seq<u8> {
    data.subrange(artifact_stream_start(data, page), data.len() as int)
}

/// The payload that an artifact holds for `page`: a page without glyphs
/// for a payload size of 0, else what the page's stream decodes to (empty
/// where it does not decode).
pub open spec fn artifact_page(data: Seq<u8>, page: int) -> Seq<u8> {
    if artifact_payload_size(data, page) == 0 {
        empty_payload()
    } else {
        match zlib_inflate(page_stream(data, page)) {
            Some(payload) => payload,
            None => Seq::empty(),
        }
    }
}

/// A page that loads: either its payload size is 0, or its stream starts
/// within the artifact and decodes to a valid page of exactly the payload
/// size that the directory gives.
pub open spec fn page_sound(data: Seq<u8>, page: int) -> bool {
    artifact_payload_size(data, page) == 0 || {
        &&& artifact_stream_start(data, page) <= data.len()
        &&& zlib_inflate(page_stream(data, page)) matches Some(payload)
        &&& payload.len() == artifact_payload_size(data, page)
        &&& payload_valid(payload)
    }
}

/// An artifact that a cache opens: a sound directory, a sound page for the
/// fallback glyph, and the fallback glyph in it.
pub open spec fn sound_artifact(data: Seq<u8>) -> bool {
    &&& directory_sound(data)
    &&& page_sound(data, FALLBACK_PAGE as int)
    &&& slot_glyph(artifact_page(data, FALLBACK_PAGE as int), FALLBACK_SLOT as int) is Some
}

/// The glyph shown for `slot` of a page: its own, or else the fallback glyph.
pub open spec fn resolve_glyph(payload: Seq<u8>, fallback_payload: Seq<u8>, slot: int) -> Seq<u8> {
    match slot_glyph(payload, slot) {
        Some(g) => g,
        None => slot_glyph(fallback_payload, FALLBACK_SLOT as int)->Some_0,
    }
}

struct LoadedPage {
    payload: Vec<u8>,
    offsets: Vec<u16>,
}

struct PageInfo {
    payload_size: u16,
    stream_offset: u64,
    loaded: Option<LoadedPage>,
}

/// A cache of glyph bitmaps over one artifact. Only the page directory is
/// read when it is opened; each page is decompressed the first time it is
/// loaded and then kept, unchanged, until the cache is dropped. The page of
/// the fallback glyph is loaded when the cache is opened.
pub struct Unifont {
    data: Vec<u8>,
    pages: Vec<PageInfo>,
}

/// One unloaded entry per page, as the directory `dir` gives it, with the
/// page streams starting at `base`.
fn page_table(dir: &[u8], base: u64) -> (r: Vec<PageInfo>)
    requires
        dir@.len() == DIRECTORY_LEN,
        base <= 0x1_0000_0004,
    ensures
        r@.len() == NUM_UNICODE_PAGES,
        forall|p: int|
            0 <= p < NUM_UNICODE_PAGES ==> #[trigger] r@[p].payload_size == dir_payload_size(dir@, p),
        forall|p: int|
            0 <= p < NUM_UNICODE_PAGES ==> #[trigger] r@[p].stream_offset == page_stream_start(
                dir@,
                base as int,
                p,
            ),
        forall|p: int| 0 <= p < NUM_UNICODE_PAGES ==> #[trigger] r@[p].loaded is None,
{
    let mut pages: Vec<PageInfo> = Vec::new();
    let mut running: u64 = base;
    let mut p: usize = 0;
    while p < NUM_UNICODE_PAGES as usize
        invariant
            p <= NUM_UNICODE_PAGES,
            dir@.len() == DIRECTORY_LEN,
            base <= 0x1_0000_0004,
            running == page_stream_start(dir@, base as int, p as int),
            running <= base + 0xFFFF * p,
            pages@.len() == p,
            forall|q: int| 0 <= q < p ==> #[trigger] pages@[q].payload_size == dir_payload_size(dir@, q),
            forall|q: int|
                0 <= q < p ==> #[trigger] pages@[q].stream_offset == page_stream_start(
                    dir@,
                    base as int,
                    q,
                ),
            forall|q: int| 0 <= q < p ==> #[trigger] pages@[q].loaded is None,
        decreases NUM_UNICODE_PAGES - p,
    {
        let payload_size = read_be16(dir, 4 * p);
        let stream_size = read_be16(dir, 4 * p + 2);
        pages.push(PageInfo { payload_size, stream_offset: running, loaded: None });
        if payload_size != 0 {
            running = running + stream_size as u64;
        }
        p = p + 1;
    }
    pages
}

impl Unifont {
    /// The artifact that the cache reads.
    pub closed spec fn data(&self) -> Seq<u8> {
        self.data@
    }

    /// The payload of `page`, if the page is loaded.
    pub closed spec fn page_payload(&self, page: int) -> Option<Seq<u8>> {
        if 0 <= page < self.pages@.len() {
            match self.pages@[page].loaded {
                Some(l) => Some(l.payload@),
                None => None,
            }
        } else {
            None
        }
    }

    pub open spec fn page_loaded(&self, page: int) -> bool {
        self.page_payload(page) is Some
    }

    /// What a lookup of `codepoint` gives: nothing while its page is not
    /// loaded, else its glyph, or the fallback glyph where it has none.
    pub open spec fn lookup(&self, codepoint: int) -> Option<Seq<u8>> {
        match self.page_payload(codepoint / 256) {
            None => None,
            Some(payload) => Some(
                resolve_glyph(
                    payload,
                    self.page_payload(FALLBACK_PAGE as int)->Some_0,
                    codepoint % 256,
                ),
            ),
        }
    }

    /// Every page entry agrees with the artifact's directory; every loaded
    /// page is a valid page, equal to what the artifact holds for it, with
    /// its offset table; the fallback glyph's page is loaded and has it.
    pub closed spec fn wf(&self) -> bool {
        &&& self.table_wf()
        &&& self.page_loaded(FALLBACK_PAGE as int)
        &&& slot_glyph(self.page_payload(FALLBACK_PAGE as int)->Some_0, FALLBACK_SLOT as int) is Some
    }

    /// The part of `wf` that holds from the moment the directory is read.
    closed spec fn table_wf(&self) -> bool {
        let data = self.data@;
        let dir = artifact_directory(data);
        &&& directory_sound(data)
        &&& self.pages@.len() == NUM_UNICODE_PAGES
        &&& forall|p: int|
            0 <= p < NUM_UNICODE_PAGES ==> #[trigger] self.pages@[p].payload_size
                == dir_payload_size(dir, p)
        &&& forall|p: int|
            0 <= p < NUM_UNICODE_PAGES ==> #[trigger] self.pages@[p].stream_offset
                == page_stream_start(dir, artifact_streams_base(data), p)
        &&& forall|p: int|
            0 <= p < NUM_UNICODE_PAGES && #[trigger] self.pages@[p].loaded is Some ==> {
                let l = self.pages@[p].loaded->Some_0;
                &&& l.payload@ == artifact_page(data, p)
                &&& page_sound(data, p)
                &&& payload_valid(l.payload@)
                &&& l.offsets@.len() == PAGE_SLOTS
                &&& forall|s: int|
                    0 <= s < PAGE_SLOTS ==> l.offsets@[s] == slot_offset(l.payload@, s)
            }
    }

    /// A loaded page is what the artifact holds for it, whatever else has
    /// been loaded and however often: two well-formed caches over the same
    /// artifact give the same lookup for every codepoint whose page both
    /// have loaded.
    pub proof fn lemma_lookup_determined(a: Unifont, b: Unifont, codepoint: int)
        requires
            a.wf(),
            b.wf(),
            a.data() == b.data(),
            0 <= codepoint <= MAX_UNICODE_CODEPOINT,
            a.page_loaded(codepoint / 256),
            b.page_loaded(codepoint / 256),
        ensures
            a.lookup(codepoint) == b.lookup(codepoint),
    {
        let p = codepoint / 256;
        assert(a.pages@[p].loaded is Some && b.pages@[p].loaded is Some);
        assert(a.pages@[FALLBACK_PAGE as int].loaded is Some && b.pages@[FALLBACK_PAGE as int].loaded is Some);
    }

    /// A codepoint without a glyph of its own looks up to the same bytes as
    /// the fallback codepoint.
    pub proof fn lemma_fallback_consistency(u: Unifont, codepoint: int)
        requires
            u.wf(),
            0 <= codepoint <= MAX_UNICODE_CODEPOINT,
            u.page_payload(codepoint / 256) matches Some(payload) && slot_glyph(payload, codepoint % 256)
                is None,
        ensures
            u.lookup(codepoint) == u.lookup(FALLBACK_CODEPOINT as int),
    {
        assert(u.pages@[FALLBACK_PAGE as int].loaded is Some);
    }

    /// The fallback glyph's page is loaded and holds the fallback glyph.
    pub proof fn lemma_fallback_loaded(u: Unifont)
        requires
            u.wf(),
        ensures
            u.page_loaded(FALLBACK_PAGE as int),
            slot_glyph(u.page_payload(FALLBACK_PAGE as int)->Some_0, FALLBACK_SLOT as int) is Some,
    {
    }

    /// A loaded page is exactly what the artifact holds for it.
    pub proof fn lemma_loaded_page_from_artifact(u: Unifont, page: int)
        requires
            u.wf(),
            u.page_loaded(page),
        ensures
            u.page_payload(page) == Some(artifact_page(u.data(), page)),
    {
        assert(u.pages@[page].loaded is Some);
    }

    /// Once the page of a legal codepoint is loaded, a lookup of it gives a
    /// glyph of 16 or 32 bytes.
    pub proof fn lemma_loaded_page_resolves(u: Unifont, codepoint: int)
        requires
            u.wf(),
            0 <= codepoint <= MAX_UNICODE_CODEPOINT,
            u.page_loaded(codepoint / 256),
        ensures
            u.lookup(codepoint) is Some,
            is_glyph_bytes(u.lookup(codepoint)->Some_0),
    {
        let p = codepoint / 256;
        let s = codepoint % 256;
        assert(u.pages@[p].loaded is Some);
        assert(u.pages@[FALLBACK_PAGE as int].loaded is Some);
        let payload = u.page_payload(p)->Some_0;
        let fallback = u.page_payload(FALLBACK_PAGE as int)->Some_0;
        lemma_slot_glyph_in_payload(payload, s);
        lemma_slot_glyph_in_payload(fallback, FALLBACK_SLOT as int);
    }

    /// The bitmap of `codepoint`, if and only if its page is already loaded:
    /// its own glyph, or the fallback glyph where it has none.
    pub fn get_bitmap(&self, codepoint: u32) -> (r: Option<Bitmap>)
        requires
            self.wf(),
            codepoint <= MAX_UNICODE_CODEPOINT,
        ensures
            r is None <==> !self.page_loaded(codepoint as int / 256),
            r matches Some(b) ==> Some(b@) == self.lookup(codepoint as int),
    {
        let page = (codepoint / 256) as usize;
        let slot = (codepoint % 256) as usize;
        assert(self.pages@[page as int].loaded is Some ==> self.page_loaded(page as int));
        match &self.pages[page].loaded {
            None => None,
            Some(l) => match glyph_at(l.payload.as_slice(), l.offsets.as_slice(), slot) {
                Some(b) => Some(b),
                None => {
                    let fallback = &self.pages[FALLBACK_PAGE as usize];
                    assert(self.pages@[FALLBACK_PAGE as int].loaded is Some);
                    match &fallback.loaded {
                        Some(f) => glyph_at(f.payload.as_slice(), f.offsets.as_slice(), FALLBACK_SLOT),
                        None => None,
                    }
                },
            },
        }
    }
}

impl Unifont {
    /// Loads `page` where it is not loaded yet, leaving every other page as
    /// it was.
    fn load_page_entry(&mut self, page: u32) -> (r: Result<(), FontError>)
        requires
            old(self).table_wf(),
            page <= MAX_UNICODE_PAGE,
        ensures
            final(self).table_wf(),
            final(self).data() == old(self).data(),
            r is Err ==> *final(self) == *old(self),
            r matches Err(e) ==> e == FontError::CorruptPage(page),
            old(self).page_loaded(page as int) ==> r is Ok && *final(self) == *old(self),
            r is Ok <==> page_sound(old(self).data(), page as int),
            r is Ok ==> final(self).page_payload(page as int) == Some(artifact_page(old(self).data(), page as int)),
            forall|q: int| q != page ==> #[trigger] final(self).page_payload(q) == old(self).page_payload(q),
    {
        let p = page as usize;
        if self.pages[p].loaded.is_some() {
            return Ok(());
        }
        let payload_size = self.pages[p].payload_size;
        let stream_offset = self.pages[p].stream_offset;
        let payload: Vec<u8> = if payload_size == 0 {
            let empty: Vec<u8> = vec![1u8; PAGE_HEADER_LEN];
            assert(empty@ == empty_payload());
            empty
        } else {
            if stream_offset > self.data.len() as u64 {
                return Err(FontError::CorruptPage(page));
            }
            let stream = vstd::slice::slice_subrange(
                self.data.as_slice(),
                stream_offset as usize,
                self.data.len(),
            );
            match inflate(stream, payload_size as usize) {
                Some(v) => {
                    if v.len() != payload_size as usize {
                        return Err(FontError::CorruptPage(page));
                    }
                    v
                },
                None => {
                    return Err(FontError::CorruptPage(page));
                },
            }
        };
        proof {
            lemma_empty_payload_valid();
        }
        let offsets = match decode_page(payload.as_slice()) {
            Some(o) => o,
            None => {
                return Err(FontError::CorruptPage(page));
            },
        };
        let ghost before = *self;
        self.pages[p] = PageInfo {
            payload_size,
            stream_offset,
            loaded: Some(LoadedPage { payload, offsets }),
        };
        assert forall|q: int| q != page implies #[trigger] self.page_payload(q)
            == before.page_payload(q) by {
            if 0 <= q < NUM_UNICODE_PAGES {
                assert(self.pages@[q] == before.pages@[q]);
            }
        }
        Ok(())
    }

    /// Loads `page` if it is not loaded yet; once loaded, a page stays as it
    /// is for the life of the cache. Pages above `MAX_UNICODE_PAGE` are
    /// refused; a page whose stream does not decode to a valid page of the
    /// size that the directory gives is reported as corrupt.
    pub fn load_page(&mut self, page: u32) -> (r: Result<(), FontError>)
        requires
            old(self).wf(),
        ensures
            final(self).wf(),
            final(self).data() == old(self).data(),
            page > MAX_UNICODE_PAGE <==> r == Err::<(), FontError>(FontError::PageOutOfRange),
            r is Err ==> *final(self) == *old(self),
            r matches Err(e) ==> e == FontError::PageOutOfRange || e == FontError::CorruptPage(page),
            page <= MAX_UNICODE_PAGE && old(self).page_loaded(page as int) ==> r is Ok && *final(self)
                == *old(self),
            page <= MAX_UNICODE_PAGE ==> (r is Ok <==> page_sound(old(self).data(), page as int)),
            r is Ok ==> final(self).page_payload(page as int) == Some(artifact_page(old(self).data(), page as int)),
            forall|q: int| q != page ==> #[trigger] final(self).page_payload(q) == old(self).page_payload(q),
    {
        if page > MAX_UNICODE_PAGE {
            return Err(FontError::PageOutOfRange);
        }
        let r = self.load_page_entry(page);
        assert(self.page_payload(FALLBACK_PAGE as int) == old(self).page_payload(FALLBACK_PAGE as int));
        r
    }

    /// Loads the page of `codepoint` if needed and returns its bitmap: its
    /// own glyph, or the fallback glyph where it has none. Codepoints above
    /// `MAX_UNICODE_CODEPOINT` are refused.
    pub fn load_bitmap(&mut self, codepoint: u32) -> (r: Result<Bitmap, FontError>)
        requires
            old(self).wf(),
        ensures
            final(self).wf(),
            final(self).data() == old(self).data(),
            codepoint > MAX_UNICODE_CODEPOINT <==> r == Err::<Bitmap, FontError>(FontError::InvalidCodepoint),
            r is Err ==> *final(self) == *old(self),
            r matches Err(e) ==> e == FontError::InvalidCodepoint || e == FontError::CorruptPage(codepoint / 256),
            codepoint <= MAX_UNICODE_CODEPOINT ==> (r is Ok <==> page_sound(old(self).data(), codepoint as int / 256)),
            r matches Ok(b) ==> final(self).page_payload(codepoint as int / 256) == Some(
                artifact_page(old(self).data(), codepoint as int / 256),
            ) && Some(b@) == final(self).lookup(codepoint as int),
            codepoint <= MAX_UNICODE_CODEPOINT && old(self).page_loaded(codepoint as int / 256) ==> r is Ok
                && *final(self) == *old(self),
            forall|q: int| q != codepoint / 256 ==> #[trigger] final(self).page_payload(q) == old(self).page_payload(q),
    {
        if codepoint > MAX_UNICODE_CODEPOINT {
            return Err(FontError::InvalidCodepoint);
        }
        match self.load_page(codepoint / 256) {
            Err(e) => Err(e),
            Ok(()) => match self.get_bitmap(codepoint) {
                Some(b) => Ok(b),
                None => Err(FontError::CorruptPage(codepoint / 256)),
            },
        }
    }

    /// Opens a cache over `data`, an artifact made by the encoder: reads its
    /// page directory and loads the page of the fallback glyph, no other.
    /// A length prefix that points past the end of `data`, or a directory
    /// stream that does not decode to exactly one entry per page, gives
    /// `CorruptDirectory`; an artifact without the fallback glyph gives
    /// `MissingFallback`.
    pub fn open(data: Vec<u8>) -> (r: Result<Unifont, FontError>)
        ensures
            r matches Ok(u) ==> {
                &&& u.wf()
                &&& u.data() == data@
                &&& forall|p: int| #[trigger] u.page_loaded(p) <==> p == FALLBACK_PAGE
            },
            r is Ok <==> sound_artifact(data@),
            !directory_sound(data@) <==> r == Err::<Unifont, FontError>(FontError::CorruptDirectory),
            r matches Err(e) ==> e == FontError::CorruptDirectory || e == FontError::CorruptPage(
                FALLBACK_PAGE,
            ) || e == FontError::MissingFallback,
            r == Err::<Unifont, FontError>(FontError::MissingFallback) ==> slot_glyph(
                artifact_page(data@, FALLBACK_PAGE as int),
                FALLBACK_SLOT as int,
            ) is None,
            r == Err::<Unifont, FontError>(FontError::CorruptPage(FALLBACK_PAGE)) <==> directory_sound(data@)
                && !page_sound(data@, FALLBACK_PAGE as int),
    {
        if data.len() < 4 {
            return Err(FontError::CorruptDirectory);
        }
        let dir_len = read_be32(data.as_slice(), 0);
        if dir_len as usize > data.len() - 4 {
            return Err(FontError::CorruptDirectory);
        }
        let base = 4 + dir_len as usize;
        let dir = match inflate(vstd::slice::slice_subrange(data.as_slice(), 4, base), DIRECTORY_LEN) {
            Some(d) => d,
            None => {
                return Err(FontError::CorruptDirectory);
            },
        };
        if dir.len() != DIRECTORY_LEN {
            return Err(FontError::CorruptDirectory);
        }
        let pages = page_table(dir.as_slice(), base as u64);
        let cache_data = data;
        assert(artifact_streams_base(cache_data@) == base);
        assert(artifact_directory(cache_data@) == dir@);
        let mut cache = Unifont { data: cache_data, pages };
        assert(cache.table_wf());
        match cache.load_page_entry(FALLBACK_PAGE) {
            Err(e) => {
                return Err(e);
            },
            Ok(()) => {},
        }
        let has_fallback = match &cache.pages[FALLBACK_PAGE as usize].loaded {
            Some(f) => glyph_at(f.payload.as_slice(), f.offsets.as_slice(), FALLBACK_SLOT).is_some(),
            None => false,
        };
        if !has_fallback {
            return Err(FontError::MissingFallback);
        }
        Ok(cache)
    }
}

} // verus!
