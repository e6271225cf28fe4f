//! The byte layout shared by the encoder and the cache.
//!
//! A page payload is a header of 256 big-endian two-byte tags, one per
//! codepoint of the page, followed by the bytes of every present glyph in
//! codepoint order. A tag is `TAG_NARROW` (16 bytes follow), `TAG_WIDE`
//! (32 bytes follow) or `TAG_ABSENT` (no glyph).
use vstd::prelude::*;

verus! {

/// Number of codepoints in one page.
pub const PAGE_SLOTS: usize = 256;

/// Length of the tag header that opens every page payload.
pub const PAGE_HEADER_LEN: usize = 512;

/// Largest uncompressed page payload that the format admits.
pub const MAX_PAGE_PAYLOAD: usize = 32768;

/// Largest compressed page stream that the directory can describe.
pub const MAX_PAGE_STREAM: usize = 0xFFFF;

/// Tag of a slot that holds a narrow glyph.
pub const TAG_NARROW: u16 = 0x0000;

/// Tag of a slot that holds a wide glyph.
pub const TAG_WIDE: u16 = 0x0001;

/// Tag of a slot without a glyph.
pub const TAG_ABSENT: u16 = 0x0101;

/// Bytes of a narrow (8x16) glyph.
pub const NARROW_LEN: usize = 16;

/// Bytes of a wide (16x16) glyph.
pub const WIDE_LEN: usize = 32;

/// The big-endian 16-bit value stored at `s[i]`, `s[i + 1]`.
pub open spec fn be16(s: Seq<u8>, i: int) -> int {
    s[i] as int * 256 + s[i + 1] as int
}

/// The big-endian 32-bit value stored at `s[i] .. s[i + 4]`.
pub open spec fn be32(s: Seq<u8>, i: int) -> int {
    be16(s, i) * 65536 + be16(s, i + 2)
}

/// The two bytes of `v` in big-endian order.
pub open spec fn be16_bytes(v: int) -> Seq<u8> {
    seq![(v / 256) as u8, (v % 256) as u8]
}

/// The tag stored for `slot` in a page payload.
pub open spec fn tag_of(payload: Seq<u8>, slot: int) -> int {
    be16(payload, 2 * slot)
}

pub open spec fn is_valid_tag(tag: int) -> bool {
    tag == TAG_NARROW || tag == TAG_WIDE || tag == TAG_ABSENT
}

/// Glyph bytes that follow the header for a slot with this tag.
pub open spec fn tag_glyph_len(tag: int) -> int {
    if tag == TAG_NARROW {
        NARROW_LEN as int
    } else if tag == TAG_WIDE {
        WIDE_LEN as int
    } else {
        0
    }
}

/// Where the glyph of `slot` starts in the payload: right after the header
/// and the glyphs of all earlier slots.
pub open spec fn glyph_start(payload: Seq<u8>, slot: int) -> int
    decreases slot,
{
    if slot <= 0 {
        PAGE_HEADER_LEN as int
    } else {
        glyph_start(payload, slot - 1) + tag_glyph_len(tag_of(payload, slot - 1))
    }
}

/// A payload whose header holds only known tags and whose length is exactly
/// the header plus the glyphs that the tags announce.
pub open spec fn payload_valid(payload: Seq<u8>) -> bool {
    &&& payload.len() >= PAGE_HEADER_LEN
    &&& forall|s: int| 0 <= s < PAGE_SLOTS ==> #[trigger] is_valid_tag(tag_of(payload, s))
    &&& payload.len() == glyph_start(payload, PAGE_SLOTS as int)
}

/// The decoded form of a slot: 0 for no glyph, otherwise the glyph's byte
/// offset in the payload with bit 0 set for a wide glyph.
pub open spec fn slot_offset(payload: Seq<u8>, slot: int) -> int {
    let tag = tag_of(payload, slot);
    if tag == TAG_NARROW {
        glyph_start(payload, slot)
    } else if tag == TAG_WIDE {
        glyph_start(payload, slot) + 1
    } else {
        0
    }
}

/// The glyph bytes that a payload holds for `slot`, if any.
pub open spec fn slot_glyph(payload: Seq<u8>, slot: int) -> Option<Seq<u8>> {
    let tag = tag_of(payload, slot);
    if tag == TAG_NARROW || tag == TAG_WIDE {
        let start = glyph_start(payload, slot);
        Some(payload.subrange(start, start + tag_glyph_len(tag)))
    } else {
        None
    }
}

/// Glyph starts are even and grow by at most a wide glyph per slot.
pub proof fn lemma_glyph_start_bounds(payload: Seq<u8>, slot: int)
    requires
        0 <= slot <= PAGE_SLOTS,
    ensures
        PAGE_HEADER_LEN <= glyph_start(payload, slot) <= PAGE_HEADER_LEN + WIDE_LEN * slot,
        glyph_start(payload, slot) % 2 == 0,
    decreases slot,
{
    if slot > 0 {
        lemma_glyph_start_bounds(payload, slot - 1);
    }
}

/// Glyph starts never decrease from one slot to a later one.
pub proof fn lemma_glyph_start_monotone(payload: Seq<u8>, a: int, b: int)
    requires
        0 <= a <= b,
    ensures
        glyph_start(payload, a) <= glyph_start(payload, b),
    decreases b - a,
{
    if a < b {
        lemma_glyph_start_monotone(payload, a, b - 1);
    }
}

/// Length of the decompressed page directory: two big-endian 16-bit sizes
/// (payload, then stream) for every page of Unicode.
pub const DIRECTORY_LEN: usize = 0x4400;

/// Payload size that the directory gives for `page`.
pub open spec fn dir_payload_size(dir: Seq<u8>, page: int) -> int {
    be16(dir, 4 * page)
}

/// Stream size that the directory gives for `page`.
pub open spec fn dir_stream_size(dir: Seq<u8>, page: int) -> int {
    be16(dir, 4 * page + 2)
}

/// Where the stream of `page` starts in the artifact: after the streams of
/// all earlier non-empty pages, which follow one another from `base` on.
pub open spec fn page_stream_start(dir: Seq<u8>, base: int, page: int) -> int
    decreases page,
{
    if page <= 0 {
        base
    } else {
        page_stream_start(dir, base, page - 1) + if dir_payload_size(dir, page - 1) == 0 {
            0
        } else {
            dir_stream_size(dir, page - 1)
        }
    }
}

/// The payload of a page without glyphs: every tag `TAG_ABSENT`.
pub open spec fn empty_payload() -> Seq<u8> {
    Seq::new(PAGE_HEADER_LEN as nat, |i: int| 1u8)
}

/// An empty page is a valid page.
pub proof fn lemma_empty_payload_valid()
    ensures
        payload_valid(empty_payload()),
        forall|s: int| 0 <= s < PAGE_SLOTS ==> #[trigger] tag_of(empty_payload(), s) == TAG_ABSENT,
{
    let e = empty_payload();
    assert forall|s: int| 0 <= s < PAGE_SLOTS implies #[trigger] tag_of(e, s) == TAG_ABSENT by {
        assert(e[2 * s] == 1u8 && e[2 * s + 1] == 1u8);
    }
    lemma_empty_glyph_start(PAGE_SLOTS as int);
    assert forall|s: int| 0 <= s < PAGE_SLOTS implies #[trigger] is_valid_tag(tag_of(e, s)) by {
        assert(tag_of(e, s) == TAG_ABSENT);
    }
}

proof fn lemma_empty_glyph_start(slot: int)
    requires
        0 <= slot <= PAGE_SLOTS,
    ensures
        glyph_start(empty_payload(), slot) == PAGE_HEADER_LEN,
    decreases slot,
{
    if slot > 0 {
        let e = empty_payload();
        lemma_empty_glyph_start(slot - 1);
        assert(e[2 * (slot - 1)] == 1u8 && e[2 * (slot - 1) + 1] == 1u8);
    }
}

/// In a valid page, the glyph of a slot lies within the payload and is 16 or
/// 32 bytes long.
pub proof fn lemma_slot_glyph_in_payload(payload: Seq<u8>, slot: int)
    requires
        payload_valid(payload),
        0 <= slot < PAGE_SLOTS,
    ensures
        slot_glyph(payload, slot) matches Some(g) ==> g.len() == NARROW_LEN || g.len() == WIDE_LEN,
        glyph_start(payload, slot) + tag_glyph_len(tag_of(payload, slot)) <= payload.len(),
{
    assert(is_valid_tag(tag_of(payload, slot)));
    lemma_glyph_start_bounds(payload, slot);
    lemma_glyph_start_monotone(payload, slot + 1, PAGE_SLOTS as int);
}

/// Reads the big-endian 16-bit value at `s[i]`, `s[i + 1]`.
pub fn read_be16(s: &[u8], i: usize) -> (r: u16)
    requires
        i + 2 <= s@.len(),
    ensures
        r == be16(s@, i as int),
{
    (s[i] as u16) * 256 + (s[i + 1] as u16)
}

/// Reads the big-endian 32-bit value at `s[i] .. s[i + 4]`.
pub fn read_be32(s: &[u8], i: usize) -> (r: u32)
    requires
        i + 4 <= s@.len(),
    ensures
        r == be32(s@, i as int),
{
    // Reading the length tells Verus that `i + 4` fits in a usize.
    let _len = s.len();
    (read_be16(s, i) as u32) * 65536 + (read_be16(s, i + 2) as u32)
}

} // verus!
