//! The text form of a glyph: one line `CCCC:HHHH...`, a codepoint of 4 to 6
//! upper-case hex digits, a colon, and 32 or 64 upper-case hex digits of
//! bitmap (16 or 32 bytes), optionally ended by a carriage return.
use vstd::prelude::*;

verus! {

/// The value of an upper-case hex digit.
pub open spec fn hex_value(b: u8) -> Option<int> {
    if 48 <= b <= 57 {
        Some(b - 48)
    } else if 65 <= b <= 70 {
        Some(b - 55)
    } else {
        None
    }
}

pub open spec fn all_hex(s: Seq<u8>) -> bool {
    forall|i: int| 0 <= i < s.len() ==> #[trigger] hex_value(s[i]) is Some
}

/// The number that the hex digits `s` spell, most significant first.
pub open spec fn hex_number(s: Seq<u8>) -> int
    decreases s.len(),
{
    if s.len() == 0 {
        0
    } else {
        hex_number(s.drop_last()) * 16 + hex_value(s.last())->Some_0
    }
}

/// The bytes that pairs of hex digits spell.
pub open spec fn hex_bytes(s: Seq<u8>) -> Seq<u8> {
    Seq::new(
        (s.len() / 2) as nat,
        |i: int| (hex_value(s[2 * i])->Some_0 * 16 + hex_value(s[2 * i + 1])->Some_0) as u8,
    )
}

/// A line without its final carriage return, if it has one.
pub open spec fn strip_cr(line: Seq<u8>) -> Seq<u8> {
    if line.len() > 0 && line.last() == 13 {
        line.drop_last()
    } else {
        line
    }
}

/// Where the colon of a record stands: the first of positions 4, 5 and 6
/// that holds one (6 where none does).
pub open spec fn colon_index(body: Seq<u8>) -> int {
    if body.len() > 4 && body[4] == 58 {
        4
    } else if body.len() > 5 && body[5] == 58 {
        5
    } else {
        6
    }
}

/// The codepoint and bitmap bytes of a glyph line, or `None` for a line of
/// any other shape.
pub open spec fn hex_record(line: Seq<u8>) -> Option<(u32, Seq<u8>)> {
    let body = strip_cr(line);
    let k = colon_index(body);
    if body.len() > k && body[k] == 58 {
        let digits = body.subrange(0, k);
        let bitmap = body.subrange(k + 1, body.len() as int);
        if all_hex(digits) && all_hex(bitmap) && (bitmap.len() == 32 || bitmap.len() == 64) {
            Some((hex_number(digits) as u32, hex_bytes(bitmap)))
        } else {
            None
        }
    } else {
        None
    }
}

fn hex_digit(b: u8) -> (r: Option<u8>)
    ensures
        r matches Some(v) ==> hex_value(b) == Some(v as int) && v < 16,
        r is None <==> hex_value(b) is None,
{
    if 48 <= b && b <= 57 {
        Some(b - 48)
    } else if 65 <= b && b <= 70 {
        Some(b - 55)
    } else {
        None
    }
}

/// Parses one line of the glyph source text into a codepoint and its bitmap
/// bytes; any other line gives `None`.
pub fn parse_hex_line(line: &[u8]) -> (r: Option<(u32, Vec<u8>)>)
    ensures
        r is Some <==> hex_record(line@) is Some,
        r matches Some((c, b)) ==> hex_record(line@) == Some((c, b@)),
{
    let mut end = line.len();
    if end > 0 && line[end - 1] == 13 {
        end = end - 1;
    }
    let ghost body = strip_cr(line@);
    assert(body == line@.subrange(0, end as int));
    let k: usize = if end > 4 && line[4] == 58 {
        4
    } else if end > 5 && line[5] == 58 {
        5
    } else {
        6
    };
    if !(end > k && line[k] == 58) {
        return None;
    }
    assert(colon_index(body) == k as int);
    assert(body.len() > k && body[k as int] == 58);
    let ghost digits = body.subrange(0, k as int);
    let mut codepoint: u32 = 0;
    let mut i: usize = 0;
    while i < k
        invariant
            k <= 6,
            i <= k,
            k < end <= line@.len(),
            body == line@.subrange(0, end as int),
            body == strip_cr(line@),
            colon_index(body) == k,
            body[k as int] == 58,
            digits == body.subrange(0, k as int),
            all_hex(digits.subrange(0, i as int)),
            codepoint == hex_number(digits.subrange(0, i as int)),
            codepoint < pow16(i as nat),
        decreases k - i,
    {
        match hex_digit(line[i]) {
            Some(v) => {
                proof {
                    lemma_pow16_bound(i as nat);
                }
                assert(digits.subrange(0, i as int + 1).drop_last() =~= digits.subrange(0, i as int));
                assert(pow16((i + 1) as nat) == pow16(i as nat) * 16);
                codepoint = codepoint * 16 + v as u32;
            },
            None => {
                assert(digits[i as int] == line@[i as int]);
                assert(hex_value(digits[i as int]) is None);
                assert(!all_hex(digits));
                return None;
            },
        }
        i = i + 1;
    }
    assert(digits.subrange(0, k as int) =~= digits);
    let n = end - (k + 1);
    if n != 32 && n != 64 {
        return None;
    }
    let ghost bitmap = body.subrange(k + 1, end as int);
    let mut bytes: Vec<u8> = Vec::new();
    let mut j: usize = 0;
    while j < n / 2
        invariant
            n == 32 || n == 64,
            j <= n / 2,
            k + 1 + n == end <= line@.len(),
            body == line@.subrange(0, end as int),
            body == strip_cr(line@),
            colon_index(body) == k,
            body[k as int] == 58,
            all_hex(body.subrange(0, k as int)),
            bitmap == body.subrange(k + 1, end as int),
            all_hex(bitmap.subrange(0, 2 * j as int)),
            bytes@ == hex_bytes(bitmap.subrange(0, 2 * j as int)),
        decreases n / 2 - j,
    {
        let hi = hex_digit(line[k + 1 + 2 * j]);
        let lo = hex_digit(line[k + 2 + 2 * j]);
        match (hi, lo) {
            (Some(h), Some(l)) => {
                bytes.push(h * 16 + l);
                assert(bytes@ =~= hex_bytes(bitmap.subrange(0, 2 * j + 2)));
            },
            _ => {
                assert(bitmap[2 * j as int] == line@[k + 1 + 2 * j]);
                assert(bitmap[2 * j + 1] == line@[k + 2 + 2 * j]);
                proof {
                    if hi is None {
                        assert(hex_value(bitmap[2 * j as int]) is None);
                    } else {
                        assert(hex_value(bitmap[2 * j + 1]) is None);
                    }
                }
                assert(!all_hex(bitmap));
                return None;
            },
        }
        j = j + 1;
    }
    assert(bitmap.subrange(0, n as int) =~= bitmap);
    Some((codepoint, bytes))
}

proof fn lemma_pow16_bound(n: nat)
    requires
        n <= 5,
    ensures
        pow16(n) <= 0x100000,
{
    reveal_with_fuel(pow16, 6);
}

/// Sixteen to the power `n`.
pub open spec fn pow16(n: nat) -> int
    decreases n,
{
    if n == 0 {
        1
    } else {
        16 * pow16((n - 1) as nat)
    }
}

} // verus!
