//! Consensus byte encodings used by the template-hash preimages: little-endian
//! fixed-width integers, the compact-size variable-length integer, and the
//! lowercase hex rendering of digests.

use vstd::prelude::*;
use vstd::bytes::*;

verus! {

/// Canonical compact-size encoding of `n`: one byte below `0xfd`, otherwise a
/// one-byte marker followed by the little-endian value in the smallest width
/// among 2, 4 and 8 bytes that holds it.
pub open spec fn spec_compact_size(n: u64) -> Seq<u8> {
    if n < 0xfd {
        seq![n as u8]
    } else if n <= 0xffff {
        seq![0xfdu8] + spec_u16_to_le_bytes(n as u16)
    } else if n <= 0xffffffff {
        seq![0xfeu8] + spec_u32_to_le_bytes(n as u32)
    } else {
        seq![0xffu8] + spec_u64_to_le_bytes(n)
    }
}

/// Canonical decoding of a compact-size prefix: the value and the number of
/// bytes it occupies, or `None` when the bytes are too short or the value is
/// not in its smallest encoding.
pub open spec fn spec_decode_compact_size(b: Seq<u8>) -> Option<(u64, int)> {
    if b.len() == 0 {
        None
    } else if b[0] < 0xfd {
        Some((b[0] as u64, 1int))
    } else if b[0] == 0xfd {
        if b.len() >= 3 {
            let v = spec_u16_from_le_bytes(b.subrange(1, 3)) as u64;
            if v >= 0xfd {
                Some((v, 3int))
            } else {
                None
            }
        } else {
            None
        }
    } else if b[0] == 0xfe {
        if b.len() >= 5 {
            let v = spec_u32_from_le_bytes(b.subrange(1, 5)) as u64;
            if v > 0xffff {
                Some((v, 5int))
            } else {
                None
            }
        } else {
            None
        }
    } else {
        if b.len() >= 9 {
            let v = spec_u64_from_le_bytes(b.subrange(1, 9));
            if v > 0xffffffff {
                Some((v, 9int))
            } else {
                None
            }
        } else {
            None
        }
    }
}

/// Appends the bytes of `src` to `dst`.
pub(crate) fn push_bytes(dst: &mut Vec<u8>, src: &[u8])
    ensures
        final(dst)@ == old(dst)@ + src@,
{
    let mut i: usize = 0;
    while i < src.len()
        invariant
            i <= src@.len(),
            dst@ == old(dst)@ + src@.take(i as int),
        decreases src@.len() - i,
    {
        let b = *vstd::slice::slice_index_get(src, i);
        dst.push(b);
        proof {
            assert(old(dst)@ + src@.take(i + 1 as int) =~= (old(dst)@ + src@.take(
                i as int,
            )).push(src@[i as int]));
        }
        i = i + 1;
    }
    proof {
        assert(src@.take(src@.len() as int) =~= src@);
    }
}

/// Appends the compact-size encoding of `n` to `buf`.
pub(crate) fn push_compact_size(buf: &mut Vec<u8>, n: u64)
    ensures
        final(buf)@ == old(buf)@ + spec_compact_size(n),
{
    if n < 0xfd {
        buf.push(n as u8);
        proof {
            assert(buf@ =~= old(buf)@ + spec_compact_size(n));
        }
    } else if n <= 0xffff {
        buf.push(0xfd);
        let bs = u16_to_le_bytes(n as u16);
        push_bytes(buf, bs.as_slice());
        proof {
            assert(buf@ =~= old(buf)@ + spec_compact_size(n));
        }
    } else if n <= 0xffffffff {
        buf.push(0xfe);
        let bs = u32_to_le_bytes(n as u32);
        push_bytes(buf, bs.as_slice());
        proof {
            assert(buf@ =~= old(buf)@ + spec_compact_size(n));
        }
    } else {
        buf.push(0xff);
        let bs = u64_to_le_bytes(n);
        push_bytes(buf, bs.as_slice());
        proof {
            assert(buf@ =~= old(buf)@ + spec_compact_size(n));
        }
    }
}

/// The compact-size encoding of `n` as an owned byte vector.
pub fn encode_compact_size(n: u64) -> (r: Vec<u8>)
    ensures
        r@ == spec_compact_size(n),
{
    let mut r: Vec<u8> = Vec::new();
    push_compact_size(&mut r, n);
    proof {
        assert(r@ =~= spec_compact_size(n));
    }
    r
}

/// Decodes a compact-size prefix from the front of `bytes`, returning the
/// value and the number of bytes consumed; `None` on a short or non-minimal
/// encoding.
pub fn decode_compact_size(bytes: &[u8]) -> (r: Option<(u64, usize)>)
    ensures
        r is Some <==> spec_decode_compact_size(bytes@) is Some,
        r is Some ==> spec_decode_compact_size(bytes@) == Some(
            (r.unwrap().0, r.unwrap().1 as int),
        ),
{
    if bytes.len() == 0 {
        return None;
    }
    let tag = *vstd::slice::slice_index_get(bytes, 0);
    if tag < 0xfd {
        Some((tag as u64, 1))
    } else if tag == 0xfd {
        if bytes.len() < 3 {
            None
        } else {
            let v = u16_from_le_bytes(vstd::slice::slice_subrange(bytes, 1, 3)) as u64;
            if v >= 0xfd {
                Some((v, 3))
            } else {
                None
            }
        }
    } else if tag == 0xfe {
        if bytes.len() < 5 {
            None
        } else {
            let v = u32_from_le_bytes(vstd::slice::slice_subrange(bytes, 1, 5)) as u64;
            if v > 0xffff {
                Some((v, 5))
            } else {
                None
            }
        }
    } else {
        if bytes.len() < 9 {
            None
        } else {
            let v = u64_from_le_bytes(vstd::slice::slice_subrange(bytes, 1, 9));
            if v > 0xffffffff {
                Some((v, 9))
            } else {
                None
            }
        }
    }
}

/// Law: decoding a compact-size encoding gives back the encoded value and
/// consumes exactly the encoding's length, for every `n`.
pub proof fn lemma_compact_size_round_trip(n: u64)
    ensures
        spec_decode_compact_size(spec_compact_size(n)) == Some(
            (n, spec_compact_size(n).len() as int),
        ),
{
    let e = spec_compact_size(n);
    if n < 0xfd {
        assert(e[0] == n as u8);
        assert(e[0] < 0xfd);
        assert(e[0] as u64 == n);
    } else if n <= 0xffff {
        lemma_auto_spec_u16_to_from_le_bytes();
        assert(e.subrange(1, 3) =~= spec_u16_to_le_bytes(n as u16));
        assert(spec_u16_from_le_bytes(e.subrange(1, 3)) == n as u16);
        assert((n as u16) as u64 == n);
    } else if n <= 0xffffffff {
        lemma_auto_spec_u32_to_from_le_bytes();
        assert(e.subrange(1, 5) =~= spec_u32_to_le_bytes(n as u32));
        assert(spec_u32_from_le_bytes(e.subrange(1, 5)) == n as u32);
        assert((n as u32) as u64 == n);
    } else {
        lemma_auto_spec_u64_to_from_le_bytes();
        assert(e.subrange(1, 9) =~= spec_u64_to_le_bytes(n));
        assert(spec_u64_from_le_bytes(e.subrange(1, 9)) == n);
    }
}

/// The lowercase hex character for a value below 16.
pub open spec fn hex_digit(n: u8) -> char
    recommends
        n < 16,
{
    if n == 0 {
        '0'
    } else if n == 1 {
        '1'
    } else if n == 2 {
        '2'
    } else if n == 3 {
        '3'
    } else if n == 4 {
        '4'
    } else if n == 5 {
        '5'
    } else if n == 6 {
        '6'
    } else if n == 7 {
        '7'
    } else if n == 8 {
        '8'
    } else if n == 9 {
        '9'
    } else if n == 10 {
        'a'
    } else if n == 11 {
        'b'
    } else if n == 12 {
        'c'
    } else if n == 13 {
        'd'
    } else if n == 14 {
        'e'
    } else {
        'f'
    }
}

/// The lowercase hex rendering of a byte sequence: two characters per byte,
/// high nibble first.
pub open spec fn spec_hex(b: Seq<u8>) -> Seq<char>
    decreases b.len(),
{
    if b.len() == 0 {
        Seq::empty()
    } else {
        seq![hex_digit(b[0] / 16), hex_digit(b[0] % 16)] + spec_hex(b.skip(1))
    }
}

/// The value of a lowercase hex character, `None` for any other character.
pub open spec fn spec_hex_value(c: char) -> Option<u8> {
    if c == '0' {
        Some(0u8)
    } else if c == '1' {
        Some(1u8)
    } else if c == '2' {
        Some(2u8)
    } else if c == '3' {
        Some(3u8)
    } else if c == '4' {
        Some(4u8)
    } else if c == '5' {
        Some(5u8)
    } else if c == '6' {
        Some(6u8)
    } else if c == '7' {
        Some(7u8)
    } else if c == '8' {
        Some(8u8)
    } else if c == '9' {
        Some(9u8)
    } else if c == 'a' {
        Some(10u8)
    } else if c == 'b' {
        Some(11u8)
    } else if c == 'c' {
        Some(12u8)
    } else if c == 'd' {
        Some(13u8)
    } else if c == 'e' {
        Some(14u8)
    } else if c == 'f' {
        Some(15u8)
    } else {
        None
    }
}

/// Parsing of a lowercase hex string: the bytes it encodes, or `None` when
/// its length is odd or a character is no lowercase hex digit.
pub open spec fn spec_parse_hex(s: Seq<char>) -> Option<Seq<u8>>
    decreases s.len(),
{
    if s.len() == 0 {
        Some(Seq::empty())
    } else if s.len() == 1 {
        None
    } else {
        match (spec_hex_value(s[0]), spec_hex_value(s[1])) {
            (Some(h), Some(l)) => match spec_parse_hex(s.skip(2)) {
                Some(rest) => Some(seq![(h * 16 + l) as u8] + rest),
                None => None,
            },
            _ => None,
        }
    }
}

/// The value of a lowercase hex character, `None` for any other character.
pub(crate) fn hex_value(c: char) -> (r: Option<u8>)
    ensures
        r == spec_hex_value(c),
{
    if c == '0' {
        Some(0)
    } else if c == '1' {
        Some(1)
    } else if c == '2' {
        Some(2)
    } else if c == '3' {
        Some(3)
    } else if c == '4' {
        Some(4)
    } else if c == '5' {
        Some(5)
    } else if c == '6' {
        Some(6)
    } else if c == '7' {
        Some(7)
    } else if c == '8' {
        Some(8)
    } else if c == '9' {
        Some(9)
    } else if c == 'a' {
        Some(10)
    } else if c == 'b' {
        Some(11)
    } else if c == 'c' {
        Some(12)
    } else if c == 'd' {
        Some(13)
    } else if c == 'e' {
        Some(14)
    } else if c == 'f' {
        Some(15)
    } else {
        None
    }
}

/// Appends the hex character for a value below 16 to `s`.
pub(crate) fn append_hex_digit(s: &mut String, n: u8)
    requires
        n < 16,
    ensures
        final(s)@ == old(s)@ + seq![hex_digit(n)],
{
    proof {
        reveal_strlit("0");
        reveal_strlit("1");
        reveal_strlit("2");
        reveal_strlit("3");
        reveal_strlit("4");
        reveal_strlit("5");
        reveal_strlit("6");
        reveal_strlit("7");
        reveal_strlit("8");
        reveal_strlit("9");
        reveal_strlit("a");
        reveal_strlit("b");
        reveal_strlit("c");
        reveal_strlit("d");
        reveal_strlit("e");
        reveal_strlit("f");
    }
    let d: &str = if n == 0 {
        "0"
    } else if n == 1 {
        "1"
    } else if n == 2 {
        "2"
    } else if n == 3 {
        "3"
    } else if n == 4 {
        "4"
    } else if n == 5 {
        "5"
    } else if n == 6 {
        "6"
    } else if n == 7 {
        "7"
    } else if n == 8 {
        "8"
    } else if n == 9 {
        "9"
    } else if n == 10 {
        "a"
    } else if n == 11 {
        "b"
    } else if n == 12 {
        "c"
    } else if n == 13 {
        "d"
    } else if n == 14 {
        "e"
    } else {
        "f"
    };
    assert(d@ =~= seq![hex_digit(n)]);
    s.append(d);
}

/// Appends the two hex characters of one byte to `s`.
pub(crate) fn append_hex_byte(s: &mut String, b: u8)
    ensures
        final(s)@ == old(s)@ + seq![hex_digit(b / 16), hex_digit(b % 16)],
{
    append_hex_digit(s, b / 16);
    append_hex_digit(s, b % 16);
    proof {
        assert(s@ =~= old(s)@ + seq![hex_digit(b / 16), hex_digit(b % 16)]);
    }
}

/// Law: parsing the hex rendering of any byte sequence gives the bytes back.
pub proof fn lemma_hex_round_trip(b: Seq<u8>)
    ensures
        spec_parse_hex(spec_hex(b)) == Some(b),
    decreases b.len(),
{
    if b.len() == 0 {
        assert(spec_hex(b) == Seq::<char>::empty());
        assert(spec_parse_hex(spec_hex(b)) =~= Some(Seq::<u8>::empty()));
        assert(Seq::<u8>::empty() =~= b);
    } else {
        lemma_hex_round_trip(b.skip(1));
        let s = spec_hex(b);
        let h = b[0] / 16;
        let l = b[0] % 16;
        assert(h < 16 && l < 16);
        assert(spec_hex_value(hex_digit(h)) == Some(h));
        assert(spec_hex_value(hex_digit(l)) == Some(l));
        assert(s[0] == hex_digit(h) && s[1] == hex_digit(l));
        assert(s.skip(2) =~= spec_hex(b.skip(1)));
        assert((h * 16 + l) as u8 == b[0]);
        assert(spec_parse_hex(s).unwrap() =~= b);
    }
}

/// Law: rendering one more byte appends exactly its two hex characters.
pub proof fn lemma_spec_hex_push(b: Seq<u8>, x: u8)
    ensures
        spec_hex(b.push(x)) == spec_hex(b) + seq![hex_digit(x / 16), hex_digit(x % 16)],
    decreases b.len(),
{
    if b.len() == 0 {
        assert(b.push(x)[0] == x);
        assert(b.push(x).skip(1) =~= Seq::<u8>::empty());
        assert(spec_hex(b.push(x).skip(1)) == Seq::<char>::empty());
        assert(spec_hex(b) == Seq::<char>::empty());
        assert(spec_hex(b.push(x)) =~= spec_hex(b) + seq![hex_digit(x / 16), hex_digit(x % 16)]);
    } else {
        lemma_spec_hex_push(b.skip(1), x);
        assert(b.push(x).skip(1) =~= b.skip(1).push(x));
        assert(b.push(x)[0] == b[0]);
        assert(spec_hex(b.push(x)) =~= spec_hex(b) + seq![hex_digit(x / 16), hex_digit(x % 16)]);
    }
}

} // verus!
