//! The program image: a sequence of 32-bit words stored as big-endian bytes,
//! with no header.

use vstd::prelude::*;
use byteorder::{BigEndian, ByteOrder};

verus! {

/// The big-endian word formed by four bytes.
pub open spec fn be_word(b0: u8, b1: u8, b2: u8, b3: u8) -> u32 {
    ((b0 as u32) << 24u32) | ((b1 as u32) << 16u32) | ((b2 as u32) << 8u32) | (b3 as u32)
}

/// The words of a program image: each run of four bytes, most significant first.
pub open spec fn words_of(bytes: Seq<u8>) -> Seq<u32> {
    Seq::new(
        bytes.len() / 4,
        |k: int| be_word(bytes[4 * k], bytes[4 * k + 1], bytes[4 * k + 2], bytes[4 * k + 3]),
    )
}

/// Byte `j` (0 is the most significant) of a word.
pub open spec fn byte_of(w: u32, j: int) -> u8 {
    if j == 0 {
        (w >> 24u32) as u8
    } else if j == 1 {
        (w >> 16u32) as u8
    } else if j == 2 {
        (w >> 8u32) as u8
    } else {
        w as u8
    }
}

/// The image of a sequence of words: four bytes per word, most significant first.
pub open spec fn image_of(ws: Seq<u32>) -> Seq<u8> {
    Seq::new(4 * ws.len(), |k: int| byte_of(ws[k / 4], k % 4))
}

/// Relies on byteorder's `BigEndian::read_u32_into`: when `src` holds exactly
/// four bytes per word of `dst`, each word of `dst` becomes the big-endian value
/// of its four bytes (it panics on any other length).
#[verifier::external_body]
pub(crate) fn read_words_into(src: &[u8], dst: &mut Vec<u32>)
    requires
        src@.len() == 4 * old(dst)@.len(),
    ensures
        final(dst)@ == words_of(src@),
{
    BigEndian::read_u32_into(src, dst.as_mut_slice());
}

/// Relies on byteorder's `BigEndian::write_u32_into`: when `dst` holds exactly
/// four bytes per word of `src`, it receives each word's bytes, most significant
/// first (it panics on any other length).
#[verifier::external_body]
pub(crate) fn write_words_into(src: &[u32], dst: &mut Vec<u8>)
    requires
        old(dst)@.len() == 4 * src@.len(),
    ensures
        final(dst)@ == image_of(src@),
{
    BigEndian::write_u32_into(src, dst.as_mut_slice());
}

proof fn lemma_word_bytes(w: u32)
    ensures
        be_word(byte_of(w, 0), byte_of(w, 1), byte_of(w, 2), byte_of(w, 3)) == w,
{
    assert(((((w >> 24u32) as u8) as u32) << 24u32) | ((((w >> 16u32) as u8) as u32) << 16u32)
        | ((((w >> 8u32) as u8) as u32) << 8u32) | ((w as u8) as u32) == w) by (bit_vector);
}

/// Reading the image of a sequence of words gives those words back.
pub proof fn lemma_image_round_trip(ws: Seq<u32>)
    ensures
        words_of(image_of(ws)) == ws,
{
    let b = image_of(ws);
    assert forall|k: int| 0 <= k < ws.len() implies #[trigger] words_of(b)[k] == ws[k] by {
        assert((4 * k) / 4 == k && (4 * k + 1) / 4 == k && (4 * k + 2) / 4 == k && (4 * k + 3) / 4 == k);
        assert((4 * k) % 4 == 0 && (4 * k + 1) % 4 == 1 && (4 * k + 2) % 4 == 2 && (4 * k + 3) % 4 == 3);
        lemma_word_bytes(ws[k]);
    }
    assert(words_of(b) =~= ws);
}

} // verus!
