//! Facts about the UTF-8 encoding of texts.

use vstd::prelude::*;
use vstd::utf8::{encode_scalar, encode_utf8};

verus! {

/// The encoding of two texts in a row is the one encoding after the other.
pub proof fn lemma_encode_concat(a: Seq<char>, b: Seq<char>)
    ensures
        encode_utf8(a + b) == encode_utf8(a) + encode_utf8(b),
    decreases a.len(),
{
    if a.len() == 0 {
        assert(a + b == b);
        assert(encode_utf8(a) + encode_utf8(b) == encode_utf8(b));
    } else {
        lemma_encode_concat(a.drop_first(), b);
        assert((a + b).drop_first() == a.drop_first() + b);
        assert(encode_scalar(a[0] as u32) + (encode_utf8(a.drop_first()) + encode_utf8(b))
            == encode_utf8(a) + encode_utf8(b));
    }
}

proof fn lemma_encode_scalar_bytes(c: char)
    ensures
        c as u32 <= 0x7f ==> encode_scalar(c as u32) == seq![c as u8],
        c as u32 > 0x7f ==> forall|i: int|
            0 <= i < encode_scalar(c as u32).len() ==> #[trigger] encode_scalar(c as u32)[i] >= 0x80,
{
    let u = c as u32;
    vstd::utf8::char_is_scalar(c);
    if u <= 0x7f {
        assert((u & 0x7f) as u8 == u as u8) by (bit_vector)
            requires
                u <= 0x7f,
        ;
    } else {
        assert(forall|x: u8| #[trigger] (0x80u8 | x) >= 0x80) by (bit_vector);
        assert(forall|x: u8| #[trigger] (0xc0u8 | x) >= 0x80) by (bit_vector);
        assert(forall|x: u8| #[trigger] (0xe0u8 | x) >= 0x80) by (bit_vector);
        assert(forall|x: u8| #[trigger] (0xf0u8 | x) >= 0x80) by (bit_vector);
    }
}

proof fn lemma_ascii_char(c: char)
    requires
        c as u32 <= 0x7f,
    ensures
        (c as u8) as char == c,
{
}

/// The encoding of one ASCII character is that character's number.
pub proof fn lemma_encode_ascii(c: char)
    requires
        c as u32 <= 0x7f,
    ensures
        encode_utf8(seq![c]) == seq![c as u8],
{
    lemma_encode_scalar_bytes(c);
    reveal_with_fuel(encode_utf8, 2);
    assert(seq![c].drop_first() == Seq::<char>::empty());
    assert(seq![c as u8] + Seq::<u8>::empty() == seq![c as u8]);
}

/// An ASCII byte in the encoding of a text is a character of the text.
pub proof fn lemma_encoded_ascii_byte(s: Seq<char>, i: int)
    requires
        0 <= i < encode_utf8(s).len(),
        encode_utf8(s)[i] < 0x80,
    ensures
        s.contains(encode_utf8(s)[i] as char),
    decreases s.len(),
{
    if s.len() > 0 {
        let head = encode_scalar(s[0] as u32);
        let b = encode_utf8(s)[i];
        lemma_encode_scalar_bytes(s[0]);
        if i < head.len() {
            assert(b == head[i]);
            assert(s[0] as u32 <= 0x7f);
            lemma_ascii_char(s[0]);
            assert(s[0] == b as char);
        } else {
            let t = s.drop_first();
            lemma_encoded_ascii_byte(t, i - head.len());
            let k = choose|k: int| 0 <= k < t.len() && t[k] == b as char;
            assert(s[k + 1] == b as char);
        }
    }
}

/// Only the empty text has an empty encoding.
pub proof fn lemma_encoded_empty(s: Seq<char>)
    ensures
        encode_utf8(s).len() >= s.len(),
        encode_utf8(s).len() == 0 <==> s.len() == 0,
    decreases s.len(),
{
    if s.len() > 0 {
        lemma_encoded_empty(s.drop_first());
        vstd::utf8::char_is_scalar(s[0]);
    }
}

} // verus!
