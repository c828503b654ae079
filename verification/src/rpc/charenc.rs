//! Characters as four byte UTF-8 frames: the encoding, padded with zeros.
use vstd::prelude::*;
use vstd::utf8::{
    decode_utf8, encode_scalar, is_scalar, valid_first_scalar, valid_utf8, decode_first_scalar,
    length_of_first_scalar, pop_first_scalar,
};

verus! {

/// A four byte frame that is not valid UTF-8: the bytes before `valid_up_to` are.
#[derive(Debug, Clone, Copy, PartialEq, Eq, Structural)]
pub struct Utf8DecodeError {
    pub valid_up_to: usize,
}

/// The frame of a character: its UTF-8 encoding followed by zeros.
pub open spec fn char_frame(c: char) -> Seq<u8> {
    let enc = encode_scalar(c as u32);
    enc + Seq::new((4 - enc.len()) as nat, |i: int| 0u8)
}

/// A character's frame is four bytes long.
pub proof fn lemma_char_frame_len(c: char)
    ensures
        char_frame(c).len() == 4,
{
    let enc = encode_scalar(c as u32);
    assert(1 <= enc.len() <= 4);
}

/// Encodes a character as its UTF-8 bytes, padded with zeros to four bytes.
pub fn char_to_bytes(c: char) -> (r: [u8; 4])
    ensures
        r@ == char_frame(c),
{
    let v = c as u32;
    proof {
        vstd::utf8::char_is_scalar(c);
    }
    let r: [u8; 4] = if v <= 0x7F {
        [(v & 0x7F) as u8, 0, 0, 0]
    } else if v <= 0x7FF {
        [0xC0 | ((v >> 6) & 0x1F) as u8, 0x80 | (v & 0x3F) as u8, 0, 0]
    } else if v <= 0xFFFF {
        [
            0xE0 | ((v >> 12) & 0x0F) as u8,
            0x80 | ((v >> 6) & 0x3F) as u8,
            0x80 | (v & 0x3F) as u8,
            0,
        ]
    } else {
        [
            0xF0 | ((v >> 18) & 0x7) as u8,
            0x80 | ((v >> 12) & 0x3F) as u8,
            0x80 | ((v >> 6) & 0x3F) as u8,
            0x80 | (v & 0x3F) as u8,
        ]
    };
    assert(r@ =~= char_frame(c));
    r
}

/// Wraps `char::from_u32`, which by its documentation returns the char with the
/// given value exactly when the value is a Unicode scalar value (at most
/// 0x10FFFF and not a surrogate), and `None` otherwise.
#[verifier::external_body]
fn char_from_u32(v: u32) -> (r: Option<char>)
    ensures
        is_scalar(v) ==> r == Some(v as char),
        !is_scalar(v) ==> r is None,
{
    char::from_u32(v)
}

/// Checks whether `bytes[i..]` starts with a valid UTF-8 scalar; if so, its
/// value and length.
fn first_scalar_at(bytes: &[u8; 4], i: usize) -> (r: Option<(u32, usize)>)
    requires
        i < 4,
    ensures
        ({
            let s = bytes@.subrange(i as int, 4);
            &&& r is Some <==> valid_first_scalar(s)
            &&& r is Some ==> r.unwrap().0 == decode_first_scalar(s) && r.unwrap().1
                == length_of_first_scalar(s) && is_scalar(r.unwrap().0)
        }),
{
    let ghost s = bytes@.subrange(i as int, 4);
    let b0 = bytes[i];
    let n: usize = 4 - i;
    assert(s.len() == n && s[0] == b0);
    if b0 <= 0x7F {
        let cp = (b0 & 0x7F) as u32;
        assert(cp <= 0x7F) by (bit_vector)
            requires
                cp == (b0 & 0x7F) as u32,
        ;
        return Some((cp, 1));
    }
    if 0xC0 <= b0 && b0 <= 0xDF {
        if n < 2 {
            return None;
        }
        let b1 = bytes[i + 1];
        assert(s[1] == b1);
        if !(0x80 <= b1 && b1 <= 0xBF) {
            return None;
        }
        let cp = (((b0 & 0x1F) as u32) << 6) | (b1 & 0x3f) as u32;
        assert(cp <= 0x7FF) by (bit_vector)
            requires
                cp == (((b0 & 0x1F) as u32) << 6) | (b1 & 0x3f) as u32,
        ;
        if cp < 0x80 {
            return None;
        }
        return Some((cp, 2));
    }
    if 0xE0 <= b0 && b0 <= 0xEF {
        if n < 3 {
            return None;
        }
        let b1 = bytes[i + 1];
        let b2 = bytes[i + 2];
        assert(s[1] == b1 && s[2] == b2);
        if !(0x80 <= b1 && b1 <= 0xBF) || !(0x80 <= b2 && b2 <= 0xBF) {
            return None;
        }
        let cp = (((b0 & 0x0F) as u32) << 12) | (((b1 & 0x3f) as u32) << 6) | (b2 & 0x3f) as u32;
        assert(cp <= 0xFFFF) by (bit_vector)
            requires
                cp == (((b0 & 0x0F) as u32) << 12) | (((b1 & 0x3f) as u32) << 6) | (b2
                    & 0x3f) as u32,
        ;
        if cp < 0x800 || (0xD800 <= cp && cp <= 0xDFFF) {
            return None;
        }
        return Some((cp, 3));
    }
    if 0xF0 <= b0 && b0 <= 0xF7 {
        if n < 4 {
            return None;
        }
        let b1 = bytes[i + 1];
        let b2 = bytes[i + 2];
        let b3 = bytes[i + 3];
        assert(s[1] == b1 && s[2] == b2 && s[3] == b3);
        if !(0x80 <= b1 && b1 <= 0xBF) || !(0x80 <= b2 && b2 <= 0xBF) || !(0x80 <= b3 && b3
            <= 0xBF) {
            return None;
        }
        let cp = (((b0 & 0x07) as u32) << 18) | (((b1 & 0x3f) as u32) << 12) | (((b2 & 0x3f) as u32)
            << 6) | (b3 & 0x3f) as u32;
        if cp < 0x10000 || cp > 0x10ffff {
            return None;
        }
        return Some((cp, 4));
    }
    None
}

/// Decodes a four byte frame: the first character, when all four bytes are
/// valid UTF-8; otherwise the point up to which they are.
pub fn char_from_bytes(bytes: &[u8; 4]) -> (r: Result<char, Option<Utf8DecodeError>>)
    ensures
        r is Ok <==> valid_utf8(bytes@),
        r is Ok ==> r.unwrap() == decode_utf8(bytes@)[0],
        r is Err ==> (match r {
            Err(Some(e)) => e.valid_up_to < 4 && valid_utf8(bytes@.subrange(0, e.valid_up_to as int))
                && !valid_first_scalar(bytes@.subrange(e.valid_up_to as int, 4)),
            _ => false,
        }),
{
    let mut i: usize = 0;
    let mut first: u32 = 0;
    proof {
        assert(bytes@.subrange(0, 4) =~= bytes@);
        assert(bytes@.subrange(0, 0) =~= Seq::<u8>::empty());
    }
    while i < 4
        invariant
            0 <= i <= 4,
            valid_utf8(bytes@) <==> valid_utf8(bytes@.subrange(i as int, 4)),
            valid_utf8(bytes@.subrange(0, i as int)),
            i > 0 ==> valid_first_scalar(bytes@) && first == decode_first_scalar(bytes@) && is_scalar(first),
        decreases 4 - i,
    {
        let ghost s = bytes@.subrange(i as int, 4);
        match first_scalar_at(bytes, i) {
            None => {
                return Err(Some(Utf8DecodeError { valid_up_to: i }));
            },
            Some((cp, len)) => {
                proof {
                    assert(pop_first_scalar(s) =~= bytes@.subrange(i + len, 4));
                    assert(bytes@.subrange(0, i as int) + s.subrange(0, len as int) =~= bytes@.subrange(0, i + len));
                    lemma_valid_concat(bytes@.subrange(0, i as int), s.subrange(0, len as int));
                    if i == 0 {
                        assert(s =~= bytes@);
                    }
                }
                if i == 0 {
                    first = cp;
                }
                i = i + len;
            },
        }
    }
    proof {
        assert(bytes@.subrange(4, 4) =~= Seq::<u8>::empty());
        assert(bytes@.subrange(0, 4) =~= bytes@);
    }
    proof {
        reveal_with_fuel(decode_utf8, 2);
    }
    match char_from_u32(first) {
        Some(c) => Ok(c),
        None => Err(None),
    }
}

/// Appending a single valid scalar to valid UTF-8 keeps it valid.
proof fn lemma_valid_concat(a: Seq<u8>, b: Seq<u8>)
    requires
        valid_utf8(a),
        valid_first_scalar(b),
        b.len() == length_of_first_scalar(b),
    ensures
        valid_utf8(a + b),
{
    assert(pop_first_scalar(b) =~= Seq::<u8>::empty());
    reveal_with_fuel(valid_utf8, 2);
    assert(valid_utf8(b));
    vstd::utf8::valid_utf8_concat(a, b);
}

/// Null characters encode to zero bytes.
proof fn lemma_encode_nuls(n: nat)
    ensures
        vstd::utf8::encode_utf8(Seq::new(n, |i: int| '\0')) == Seq::new(n, |i: int| 0u8),
    decreases n,
{
    if n > 0 {
        let s = Seq::new(n, |i: int| '\0');
        assert(s.drop_first() =~= Seq::new((n - 1) as nat, |i: int| '\0'));
        lemma_encode_nuls((n - 1) as nat);
        assert(('\0' as u32) == 0u32);
        assert(encode_scalar(0u32) =~= seq![0u8]) by {
            assert((0u32 & 0x7F) as u8 == 0u8) by (bit_vector);
        }
        assert(vstd::utf8::encode_utf8(s) =~= Seq::new(n, |i: int| 0u8));
    }
}

/// Decoding the frame of a character gives back the character.
pub proof fn law_char_frame_roundtrip(c: char)
    ensures
        valid_utf8(char_frame(c)),
        decode_utf8(char_frame(c))[0] == c,
{
    let k = (4 - encode_scalar(c as u32).len()) as nat;
    let zeros = Seq::new(k, |i: int| '\0');
    let chars = seq![c] + zeros;
    vstd::utf8::char_is_scalar(c);
    assert(vstd::utf8::encode_utf8(chars) == char_frame(c)) by {
        assert(chars.drop_first() =~= zeros);
        lemma_encode_nuls(k);
        assert(chars[0] == c);
    }
    vstd::utf8::encode_utf8_valid_utf8(chars);
    vstd::utf8::encode_utf8_decode_utf8(chars);
}

} // verus!
