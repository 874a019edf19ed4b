//! Facts about the UTF-8 encoding of text that byte-indexed slicing needs.
use vstd::prelude::*;
use vstd::string::*;
use vstd::utf8::*;

verus! {

broadcast use {encode_utf8_valid_utf8, encode_utf8_decode_utf8};

/// The encoding of a concatenation is the concatenation of the encodings.
pub proof fn lemma_encode_concat(a: Seq<char>, b: Seq<char>)
    ensures
        encode_utf8(a + b) == encode_utf8(a) + encode_utf8(b),
    decreases a.len(),
{
    if a.len() == 0 {
        assert(a + b =~= b);
        assert(encode_utf8(a) + encode_utf8(b) =~= encode_utf8(b));
    } else {
        lemma_encode_concat(a.drop_first(), b);
        assert((a + b).drop_first() =~= a.drop_first() + b);
        assert((a + b)[0] == a[0]);
        assert(encode_utf8(a + b) =~= encode_scalar(a[0] as u32) + encode_utf8(a.drop_first() + b));
    }
}

/// The byte offset of every character of a text is a character boundary of
/// its encoding.
pub proof fn lemma_char_offset_is_boundary(s: Seq<char>, k: int)
    requires
        0 <= k <= s.len(),
    ensures
        encode_utf8(s.take(k)).len() <= encode_utf8(s).len(),
        is_char_boundary(encode_utf8(s), encode_utf8(s.take(k)).len() as int),
{
    let a = s.take(k);
    let b = s.skip(k);
    assert(s =~= a + b);
    lemma_encode_concat(a, b);
    let bytes = encode_utf8(s);
    let i = encode_utf8(a).len() as int;
    if b.len() == 0 {
        assert(bytes =~= encode_utf8(a));
        is_char_boundary_start_end_of_seq(bytes);
    } else {
        encode_utf8_first_scalar(b);
        assert(bytes[i] == encode_utf8(b)[0]);
        assert(!is_continuation_byte(bytes[i]));
        is_char_boundary_iff_not_is_continuation_byte(bytes, i);
    }
}

/// Inside a prefix that ends at a character boundary, the boundaries are
/// those of the whole.
pub proof fn lemma_boundary_in_prefix(bytes: Seq<u8>, end: int, j: int)
    requires
        valid_utf8(bytes),
        is_char_boundary(bytes, end),
        0 <= j <= end,
    ensures
        valid_utf8(bytes.subrange(0, end)),
        is_char_boundary(bytes.subrange(0, end), j) <==> is_char_boundary(bytes, j),
{
    valid_utf8_split(bytes, end);
    let pre = bytes.subrange(0, end);
    if j == end {
        is_char_boundary_start_end_of_seq(pre);
    } else {
        is_char_boundary_iff_not_is_continuation_byte(pre, j);
        is_char_boundary_iff_not_is_continuation_byte(bytes, j);
    }
}

/// Inside a suffix that starts at a character boundary, the boundaries are
/// those of the whole, shifted.
pub proof fn lemma_boundary_in_suffix(bytes: Seq<u8>, start: int, j: int)
    requires
        valid_utf8(bytes),
        is_char_boundary(bytes, start),
        0 <= j <= bytes.len() - start,
    ensures
        valid_utf8(bytes.subrange(start, bytes.len() as int)),
        is_char_boundary(bytes.subrange(start, bytes.len() as int), j) <==> is_char_boundary(
            bytes,
            start + j,
        ),
{
    valid_utf8_split(bytes, start);
    let suf = bytes.subrange(start, bytes.len() as int);
    if j == bytes.len() - start {
        is_char_boundary_start_end_of_seq(suf);
        is_char_boundary_start_end_of_seq(bytes);
    } else {
        is_char_boundary_iff_not_is_continuation_byte(suf, j);
        is_char_boundary_iff_not_is_continuation_byte(bytes, start + j);
    }
}

/// A text is the decoding of its bytes.
pub proof fn lemma_text_is_decoded_bytes(s: &str)
    ensures
        s@ == decode_utf8(s.spec_bytes()),
        valid_utf8(s.spec_bytes()),
{
}

} // verus!
