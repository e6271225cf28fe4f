//! Properties that relate the encoder and the cache.
use vstd::prelude::*;
use crate::bitmap::is_glyph_bytes;
use crate::cache::{
    artifact_page, artifact_streams_base, decoded_directory, directory_sound, page_sound,
    sound_artifact, Unifont, FALLBACK_PAGE, FALLBACK_SLOT,
};
use crate::encoder::{
    be32_bytes, codepoint_at, directory_entry, directory_prefix, encoded_font, encoding_fits,
    glyph_bytes, glyphs_prefix, header_prefix, lemma_header_prefix_len, page_is_used, page_payload,
    streams_decode, streams_prefix, tag_bytes,
};
use crate::format::{
    be16, be16_bytes, be32, dir_payload_size, dir_stream_size, empty_payload, glyph_start,
    is_valid_tag, page_stream_start, payload_valid, slot_glyph, tag_glyph_len, tag_of,
    PAGE_HEADER_LEN, PAGE_SLOTS,
};
use crate::zlib::{zlib_deflate, zlib_inflate};
use crate::{FALLBACK_CODEPOINT, MAX_UNICODE_CODEPOINT, NUM_UNICODE_PAGES};

verus! {

/// A glyph map as the encoder takes it: legal codepoints, 16 or 32 bytes
/// each.
pub open spec fn glyph_map_wf(glyphs: Map<u32, Seq<u8>>) -> bool {
    forall|c: u32|
        #[trigger] glyphs.contains_key(c) ==> c <= MAX_UNICODE_CODEPOINT && is_glyph_bytes(glyphs[c])
}

proof fn lemma_header_tags(glyphs: Map<u32, Seq<u8>>, page: int, n: int, s: int)
    requires
        0 <= s < n,
    ensures
        header_prefix(glyphs, page, n)[2 * s] == tag_bytes(glyphs, codepoint_at(page, s))[0],
        header_prefix(glyphs, page, n)[2 * s + 1] == tag_bytes(glyphs, codepoint_at(page, s))[1],
    decreases n,
{
    lemma_header_prefix_len(glyphs, page, n - 1);
    if s < n - 1 {
        lemma_header_tags(glyphs, page, n - 1, s);
    }
}

proof fn lemma_glyphs_prefix_extends(glyphs: Map<u32, Seq<u8>>, page: int, m: int, n: int)
    requires
        0 <= m <= n,
    ensures
        glyphs_prefix(glyphs, page, m).len() <= glyphs_prefix(glyphs, page, n).len(),
        glyphs_prefix(glyphs, page, n).subrange(0, glyphs_prefix(glyphs, page, m).len() as int)
            == glyphs_prefix(glyphs, page, m),
    decreases n - m,
{
    if m < n {
        lemma_glyphs_prefix_extends(glyphs, page, m, n - 1);
        let a = glyphs_prefix(glyphs, page, n - 1);
        let b = glyph_bytes(glyphs, codepoint_at(page, n - 1));
        assert((a + b).subrange(0, glyphs_prefix(glyphs, page, m).len() as int) =~= a.subrange(
            0,
            glyphs_prefix(glyphs, page, m).len() as int,
        ));
    } else {
        assert(glyphs_prefix(glyphs, page, n).subrange(0, glyphs_prefix(glyphs, page, n).len() as int)
            =~= glyphs_prefix(glyphs, page, n));
    }
}

proof fn lemma_payload_layout(glyphs: Map<u32, Seq<u8>>, page: int, s: int)
    requires
        glyph_map_wf(glyphs),
        0 <= s <= PAGE_SLOTS,
    ensures
        glyph_start(page_payload(glyphs, page), s) == PAGE_HEADER_LEN + glyphs_prefix(glyphs, page, s).len(),
        s < PAGE_SLOTS ==> tag_of(page_payload(glyphs, page), s) == be16(
            tag_bytes(glyphs, codepoint_at(page, s)),
            0,
        ),
    decreases s,
{
    let payload = page_payload(glyphs, page);
    lemma_header_prefix_len(glyphs, page, PAGE_SLOTS as int);
    if s < PAGE_SLOTS {
        lemma_header_tags(glyphs, page, PAGE_SLOTS as int, s);
    }
    if s > 0 {
        lemma_payload_layout(glyphs, page, s - 1);
        lemma_header_tags(glyphs, page, PAGE_SLOTS as int, s - 1);
        let c = codepoint_at(page, s - 1);
        if glyphs.contains_key(c) {
            assert(is_glyph_bytes(glyphs[c]));
        }
    }
}

/// The payload that the encoder writes for a page is a valid page, and each
/// of its slots holds exactly the glyph that the set gives its codepoint, or
/// no glyph where the set has none.
pub proof fn lemma_page_round_trip(glyphs: Map<u32, Seq<u8>>, page: int, slot: int)
    requires
        glyph_map_wf(glyphs),
        0 <= slot < PAGE_SLOTS,
    ensures
        payload_valid(page_payload(glyphs, page)),
        slot_glyph(page_payload(glyphs, page), slot) == if glyphs.contains_key(codepoint_at(page, slot)) {
            Some(glyphs[codepoint_at(page, slot)])
        } else {
            None::<Seq<u8>>
        },
{
    let payload = page_payload(glyphs, page);
    let header = header_prefix(glyphs, page, PAGE_SLOTS as int);
    let body = glyphs_prefix(glyphs, page, PAGE_SLOTS as int);
    lemma_header_prefix_len(glyphs, page, PAGE_SLOTS as int);
    lemma_payload_layout(glyphs, page, PAGE_SLOTS as int);
    assert forall|s: int| 0 <= s < PAGE_SLOTS implies #[trigger] is_valid_tag(tag_of(payload, s)) by {
        lemma_payload_layout(glyphs, page, s);
        let c = codepoint_at(page, s);
        if glyphs.contains_key(c) {
            assert(is_glyph_bytes(glyphs[c]));
        }
    }
    let c = codepoint_at(page, slot);
    lemma_payload_layout(glyphs, page, slot);
    lemma_payload_layout(glyphs, page, slot + 1);
    if glyphs.contains_key(c) {
        assert(is_glyph_bytes(glyphs[c]));
        let start = glyphs_prefix(glyphs, page, slot).len() as int;
        let len = tag_glyph_len(tag_of(payload, slot));
        assert(len == glyphs[c].len());
        lemma_glyphs_prefix_extends(glyphs, page, slot + 1, PAGE_SLOTS as int);
        let upto = glyphs_prefix(glyphs, page, slot + 1);
        assert(upto == glyphs_prefix(glyphs, page, slot) + glyphs[c]);
        assert(body.subrange(0, upto.len() as int) == upto);
        assert(payload.subrange(PAGE_HEADER_LEN + start, PAGE_HEADER_LEN + start + len) =~= glyphs[c]) by {
            assert forall|k: int| 0 <= k < len implies payload[PAGE_HEADER_LEN + start + k] == glyphs[c][k] by {
                assert(payload[PAGE_HEADER_LEN + start + k] == body[start + k]);
                assert(body[start + k] == body.subrange(0, upto.len() as int)[start + k]);
                assert(upto[start + k] == glyphs[c][k]);
            }
        }
    }
}

/// Round trip through the cache: where the loaded pages of a cache are the
/// payloads that the encoder writes for `glyphs`, a lookup gives the glyph
/// that `glyphs` holds for the codepoint, and the fallback glyph of
/// `glyphs` for a codepoint without one.
pub proof fn lemma_lookup_round_trip(cache: Unifont, glyphs: Map<u32, Seq<u8>>, codepoint: u32)
    requires
        glyph_map_wf(glyphs),
        glyphs.contains_key(FALLBACK_CODEPOINT),
        codepoint <= MAX_UNICODE_CODEPOINT,
        cache.page_payload(codepoint as int / 256) == Some(page_payload(glyphs, codepoint as int / 256)),
        cache.page_payload(FALLBACK_PAGE as int) == Some(page_payload(glyphs, FALLBACK_PAGE as int)),
    ensures
        cache.lookup(codepoint as int) == Some(
            if glyphs.contains_key(codepoint) {
                glyphs[codepoint]
            } else {
                glyphs[FALLBACK_CODEPOINT]
            },
        ),
{
    let page = codepoint / 256;
    let slot = codepoint % 256;
    assert(codepoint_at(page as int, slot as int) == codepoint);
    assert(codepoint_at(FALLBACK_PAGE as int, FALLBACK_SLOT as int) == FALLBACK_CODEPOINT);
    lemma_page_round_trip(glyphs, page as int, slot as int);
    lemma_page_round_trip(glyphs, FALLBACK_PAGE as int, FALLBACK_SLOT as int);
}

proof fn lemma_be16_round_trip(v: int)
    requires
        0 <= v < 0x10000,
    ensures
        be16_bytes(v).len() == 2,
        be16(be16_bytes(v), 0) == v,
{
}

proof fn lemma_be32_round_trip(v: int)
    requires
        0 <= v <= u32::MAX,
    ensures
        be32_bytes(v).len() == 4,
        be32(be32_bytes(v), 0) == v,
{
    lemma_be16_round_trip(v / 65536);
    lemma_be16_round_trip(v % 65536);
    let b = be32_bytes(v);
    assert(b.subrange(2, 4) =~= be16_bytes(v % 65536));
    assert(b[2] == be16_bytes(v % 65536)[0] && b[3] == be16_bytes(v % 65536)[1]);
}

proof fn lemma_glyphs_prefix_len(glyphs: Map<u32, Seq<u8>>, page: int, n: int)
    requires
        glyph_map_wf(glyphs),
        0 <= n,
    ensures
        glyphs_prefix(glyphs, page, n).len() <= 32 * n,
    decreases n,
{
    if n > 0 {
        lemma_glyphs_prefix_len(glyphs, page, n - 1);
        let c = codepoint_at(page, n - 1);
        if glyphs.contains_key(c) {
            assert(is_glyph_bytes(glyphs[c]));
        }
    }
}

/// A page without glyph bytes has no glyphs at all: its payload is the
/// empty page.
proof fn lemma_unused_page_is_empty(glyphs: Map<u32, Seq<u8>>, page: int, n: int)
    requires
        glyph_map_wf(glyphs),
        0 <= n <= PAGE_SLOTS,
        glyphs_prefix(glyphs, page, n).len() == 0,
    ensures
        header_prefix(glyphs, page, n) =~= Seq::new(2 * n as nat, |i: int| 1u8),
    decreases n,
{
    if n > 0 {
        let c = codepoint_at(page, n - 1);
        if glyphs.contains_key(c) {
            assert(is_glyph_bytes(glyphs[c]));
        }
        lemma_unused_page_is_empty(glyphs, page, n - 1);
    }
}

proof fn lemma_directory_layout(glyphs: Map<u32, Seq<u8>>, n: int, p: int, k: int)
    requires
        0 <= p < n,
        0 <= k < 4,
        forall|q: int| 0 <= q < n ==> #[trigger] directory_entry(glyphs, q).len() == 4,
    ensures
        directory_prefix(glyphs, n).len() == 4 * n,
        directory_prefix(glyphs, n)[4 * p + k] == directory_entry(glyphs, p)[k],
    decreases n,
{
    lemma_directory_len(glyphs, n - 1);
    assert(directory_entry(glyphs, n - 1).len() == 4);
    if p < n - 1 {
        lemma_directory_layout(glyphs, n - 1, p, k);
    }
}

proof fn lemma_directory_len(glyphs: Map<u32, Seq<u8>>, n: int)
    requires
        0 <= n,
        forall|q: int| 0 <= q < n ==> #[trigger] directory_entry(glyphs, q).len() == 4,
    ensures
        directory_prefix(glyphs, n).len() == 4 * n,
    decreases n,
{
    if n > 0 {
        lemma_directory_len(glyphs, n - 1);
    }
}

/// What the directory of an encoded font says of each page.
proof fn lemma_directory_entries(glyphs: Map<u32, Seq<u8>>, p: int)
    requires
        glyph_map_wf(glyphs),
        encoding_fits(glyphs),
        0 <= p < NUM_UNICODE_PAGES,
    ensures
        dir_payload_size(directory_prefix(glyphs, NUM_UNICODE_PAGES as int), p) == if page_is_used(
            glyphs,
            p,
        ) {
            page_payload(glyphs, p).len() as int
        } else {
            0
        },
        page_is_used(glyphs, p) ==> dir_stream_size(directory_prefix(glyphs, NUM_UNICODE_PAGES as int), p)
            == zlib_deflate(page_payload(glyphs, p)).len(),
        directory_prefix(glyphs, NUM_UNICODE_PAGES as int).len() == 4 * NUM_UNICODE_PAGES,
{
    let n = NUM_UNICODE_PAGES as int;
    let dir = directory_prefix(glyphs, n);
    assert forall|q: int| 0 <= q < n implies #[trigger] directory_entry(glyphs, q).len() == 4 by {
        lemma_header_prefix_len(glyphs, q, PAGE_SLOTS as int);
        lemma_glyphs_prefix_len(glyphs, q, PAGE_SLOTS as int);
        if page_is_used(glyphs, q) {
            lemma_be16_round_trip(page_payload(glyphs, q).len() as int);
            lemma_be16_round_trip(zlib_deflate(page_payload(glyphs, q)).len() as int);
        }
    }
    lemma_directory_layout(glyphs, n, p, 0);
    lemma_directory_layout(glyphs, n, p, 1);
    lemma_directory_layout(glyphs, n, p, 2);
    lemma_directory_layout(glyphs, n, p, 3);
    let e = directory_entry(glyphs, p);
    lemma_header_prefix_len(glyphs, p, PAGE_SLOTS as int);
    lemma_glyphs_prefix_len(glyphs, p, PAGE_SLOTS as int);
    if page_is_used(glyphs, p) {
        let len = page_payload(glyphs, p).len() as int;
        let slen = zlib_deflate(page_payload(glyphs, p)).len() as int;
        lemma_be16_round_trip(len);
        lemma_be16_round_trip(slen);
        assert(e[0] == be16_bytes(len)[0] && e[1] == be16_bytes(len)[1]);
        assert(e[2] == be16_bytes(slen)[0] && e[3] == be16_bytes(slen)[1]);
    }
}

/// The page streams of an encoded font follow one another as the cache
/// expects.
proof fn lemma_stream_starts(glyphs: Map<u32, Seq<u8>>, base: int, p: int)
    requires
        glyph_map_wf(glyphs),
        encoding_fits(glyphs),
        0 <= p <= NUM_UNICODE_PAGES,
    ensures
        page_stream_start(directory_prefix(glyphs, NUM_UNICODE_PAGES as int), base, p) == base
            + streams_prefix(glyphs, p).len(),
    decreases p,
{
    if p > 0 {
        lemma_stream_starts(glyphs, base, p - 1);
        lemma_directory_entries(glyphs, p - 1);
        lemma_header_prefix_len(glyphs, p - 1, PAGE_SLOTS as int);
    }
}

proof fn lemma_streams_prefix_extends(glyphs: Map<u32, Seq<u8>>, m: int, n: int)
    requires
        0 <= m <= n,
    ensures
        streams_prefix(glyphs, m).len() <= streams_prefix(glyphs, n).len(),
        streams_prefix(glyphs, n).subrange(0, streams_prefix(glyphs, m).len() as int)
            == streams_prefix(glyphs, m),
    decreases n - m,
{
    if m < n {
        lemma_streams_prefix_extends(glyphs, m, n - 1);
        let a = streams_prefix(glyphs, n - 1);
        let len = streams_prefix(glyphs, m).len() as int;
        assert(streams_prefix(glyphs, n).subrange(0, len) =~= a.subrange(0, len));
    } else {
        assert(streams_prefix(glyphs, n).subrange(0, streams_prefix(glyphs, n).len() as int)
            =~= streams_prefix(glyphs, n));
    }
}

/// The artifact that the encoder builds has a sound directory and sound
/// pages, and the cache reads back from it exactly the page payloads that
/// the encoder wrote.
pub proof fn lemma_artifact_pages(glyphs: Map<u32, Seq<u8>>, page: int)
    requires
        glyph_map_wf(glyphs),
        encoding_fits(glyphs),
        streams_decode(glyphs),
        0 <= page < NUM_UNICODE_PAGES,
    ensures
        decoded_directory(encoded_font(glyphs)) == Some(directory_prefix(glyphs, NUM_UNICODE_PAGES as int)),
        directory_sound(encoded_font(glyphs)),
        page_sound(encoded_font(glyphs), page),
        artifact_page(encoded_font(glyphs), page) == page_payload(glyphs, page),
{
    let n = NUM_UNICODE_PAGES as int;
    let data = encoded_font(glyphs);
    let dir = directory_prefix(glyphs, n);
    let d = zlib_deflate(dir);
    let all = streams_prefix(glyphs, n);
    lemma_be32_round_trip(d.len() as int);
    let head = be32_bytes(d.len() as int);
    assert(data == head + d + all);
    assert(head =~= data.subrange(0, 4));
    assert(be32(data, 0) == be32(head, 0)) by {
        assert(data[0] == head[0] && data[1] == head[1] && data[2] == head[2] && data[3] == head[3]);
    }
    assert(data.subrange(4, 4 + d.len() as int) =~= d + Seq::<u8>::empty());
    assert(zlib_inflate(zlib_deflate(dir) + Seq::<u8>::empty()) == Some(dir));
    let base = artifact_streams_base(data);
    assert(base == 4 + d.len());
    lemma_directory_entries(glyphs, page);
    lemma_header_prefix_len(glyphs, page, PAGE_SLOTS as int);
    if page_is_used(glyphs, page) {
        lemma_stream_starts(glyphs, base, page);
        let before = streams_prefix(glyphs, page);
        let z = zlib_deflate(page_payload(glyphs, page));
        lemma_streams_prefix_extends(glyphs, page + 1, n);
        let upto = streams_prefix(glyphs, page + 1);
        assert(upto == before + z);
        let rest = all.subrange(upto.len() as int, all.len() as int);
        assert(all =~= upto + rest) by {
            assert(all.subrange(0, upto.len() as int) == upto);
        }
        assert(data.subrange(base + before.len(), data.len() as int) =~= z + rest);
        assert(zlib_inflate(z + rest) == Some(page_payload(glyphs, page)));
        lemma_page_round_trip(glyphs, page, 0);
    } else {
        lemma_unused_page_is_empty(glyphs, page, PAGE_SLOTS as int);
        assert(page_payload(glyphs, page) =~= empty_payload());
    }
}

/// The artifact that the encoder builds for a glyph set with a fallback
/// glyph opens, and every page of it loads.
pub proof fn lemma_encoded_font_sound(glyphs: Map<u32, Seq<u8>>)
    requires
        glyph_map_wf(glyphs),
        encoding_fits(glyphs),
        streams_decode(glyphs),
        glyphs.contains_key(FALLBACK_CODEPOINT),
    ensures
        sound_artifact(encoded_font(glyphs)),
        forall|p: int| 0 <= p < NUM_UNICODE_PAGES ==> #[trigger] page_sound(encoded_font(glyphs), p),
{
    let fb = FALLBACK_PAGE as int;
    lemma_artifact_pages(glyphs, fb);
    lemma_page_round_trip(glyphs, fb, FALLBACK_SLOT as int);
    assert(codepoint_at(fb, FALLBACK_SLOT as int) == FALLBACK_CODEPOINT);
    assert forall|p: int| 0 <= p < NUM_UNICODE_PAGES implies #[trigger] page_sound(encoded_font(glyphs), p) by {
        lemma_artifact_pages(glyphs, p);
    }
}

/// Round trip through the artifact: a well-formed cache over the artifact
/// that the encoder built for `glyphs` gives, once a codepoint's page is
/// loaded, the glyph that `glyphs` holds for it, or the fallback glyph of
/// `glyphs` where it holds none.
pub proof fn lemma_font_round_trip(cache: Unifont, glyphs: Map<u32, Seq<u8>>, codepoint: u32)
    requires
        cache.wf(),
        cache.data() == encoded_font(glyphs),
        glyph_map_wf(glyphs),
        encoding_fits(glyphs),
        streams_decode(glyphs),
        codepoint <= MAX_UNICODE_CODEPOINT,
        cache.page_loaded(codepoint as int / 256),
    ensures
        glyphs.contains_key(FALLBACK_CODEPOINT),
        cache.lookup(codepoint as int) == Some(
            if glyphs.contains_key(codepoint) {
                glyphs[codepoint]
            } else {
                glyphs[FALLBACK_CODEPOINT]
            },
        ),
{
    let page = codepoint as int / 256;
    let fb = FALLBACK_PAGE as int;
    Unifont::lemma_loaded_page_from_artifact(cache, page);
    Unifont::lemma_fallback_loaded(cache);
    Unifont::lemma_loaded_page_from_artifact(cache, fb);
    lemma_artifact_pages(glyphs, page);
    lemma_artifact_pages(glyphs, fb);
    lemma_page_round_trip(glyphs, fb, FALLBACK_SLOT as int);
    assert(codepoint_at(fb, FALLBACK_SLOT as int) == FALLBACK_CODEPOINT);
    lemma_lookup_round_trip(cache, glyphs, codepoint);
}

} // verus!
