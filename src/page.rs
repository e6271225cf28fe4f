//! Decoding of one page payload into its table of glyph offsets.
use vstd::prelude::*;
use crate::bitmap::Bitmap;
use crate::format::{
    lemma_glyph_start_monotone, slot_glyph, tag_glyph_len, glyph_start, is_valid_tag, lemma_glyph_start_bounds, payload_valid, read_be16, slot_offset,
    tag_of, NARROW_LEN, PAGE_HEADER_LEN, PAGE_SLOTS, TAG_ABSENT, TAG_NARROW, TAG_WIDE, WIDE_LEN,
};

verus! {

/// Turns the tag header of a decompressed page into the offset table that
/// lookups use: one entry per slot, `slot_offset` of the payload. Returns
/// `None` when the payload is not a valid page (an unknown tag, or a length
/// other than the header plus the glyphs its tags announce).
pub fn decode_page(payload: &[u8]) -> (r: Option<Vec<u16>>)
    ensures
        r is Some <==> payload_valid(payload@),
        r matches Some(offsets) ==> {
            &&& offsets@.len() == PAGE_SLOTS
            &&& forall|s: int| 0 <= s < PAGE_SLOTS ==> offsets@[s] == slot_offset(payload@, s)
        },
{
    if payload.len() < PAGE_HEADER_LEN {
        return None;
    }
    let mut offsets: Vec<u16> = Vec::new();
    let mut running: usize = PAGE_HEADER_LEN;
    let mut n: usize = 0;
    while n < PAGE_SLOTS
        invariant
            n <= PAGE_SLOTS,
            payload@.len() >= PAGE_HEADER_LEN,
            running == glyph_start(payload@, n as int),
            offsets@.len() == n,
            forall|s: int| 0 <= s < n ==> #[trigger] is_valid_tag(tag_of(payload@, s)),
            forall|s: int| 0 <= s < n ==> offsets@[s] == slot_offset(payload@, s),
        decreases PAGE_SLOTS - n,
    {
        proof {
            lemma_glyph_start_bounds(payload@, n as int);
        }
        let tag = read_be16(payload, 2 * n);
        if tag == TAG_NARROW {
            offsets.push(running as u16);
            running = running + NARROW_LEN;
        } else if tag == TAG_WIDE {
            offsets.push((running + 1) as u16);
            running = running + WIDE_LEN;
        } else if tag == TAG_ABSENT {
            offsets.push(0);
        } else {
            assert(!is_valid_tag(tag_of(payload@, n as int)));
            return None;
        }
        n = n + 1;
    }
    if payload.len() != running {
        return None;
    }
    Some(offsets)
}

/// The glyph of `slot` in a decoded page, read through its offset table.
pub(crate) fn glyph_at(payload: &[u8], offsets: &[u16], slot: usize) -> (r: Option<Bitmap>)
    requires
        payload_valid(payload@),
        slot < PAGE_SLOTS,
        offsets@.len() == PAGE_SLOTS,
        forall|s: int| 0 <= s < PAGE_SLOTS ==> offsets@[s] == slot_offset(payload@, s),
    ensures
        r is Some <==> slot_glyph(payload@, slot as int) is Some,
        r matches Some(b) ==> b@ == slot_glyph(payload@, slot as int)->Some_0,
{
    let offset = offsets[slot];
    proof {
        lemma_glyph_start_bounds(payload@, slot as int);
        lemma_glyph_start_monotone(payload@, slot as int + 1, PAGE_SLOTS as int);
        assert(is_valid_tag(tag_of(payload@, slot as int)));
        assert(glyph_start(payload@, slot as int + 1) == glyph_start(payload@, slot as int)
            + tag_glyph_len(tag_of(payload@, slot as int)));
    }
    if offset == 0 {
        None
    } else if offset % 2 == 1 {
        let start = (offset - 1) as usize;
        Some(Bitmap::from_slice(vstd::slice::slice_subrange(payload, start, start + WIDE_LEN)))
    } else {
        let start = offset as usize;
        Some(Bitmap::from_slice(vstd::slice::slice_subrange(payload, start, start + NARROW_LEN)))
    }
}

} // verus!
