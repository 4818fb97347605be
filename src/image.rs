//! Program images: a byte string read as big-endian 32-bit words.
use vstd::prelude::*;

verus! {

/// The big-endian word formed by four bytes.
pub open spec fn be_word(b0: u8, b1: u8, b2: u8, b3: u8) -> nat {
    b0 as nat * 0x100_0000 + b1 as nat * 0x1_0000 + b2 as nat * 0x100 + b3 as nat
}

/// The words of an image: one per full group of four bytes, in order; a
/// trailing group of fewer than four bytes is dropped.
pub open spec fn image_words(bytes: Seq<u8>) -> Seq<u32> {
    Seq::new(
        bytes.len() / 4,
        |k: int| be_word(bytes[4 * k], bytes[4 * k + 1], bytes[4 * k + 2], bytes[4 * k + 3]) as u32,
    )
}

fn word_at(b0: u8, b1: u8, b2: u8, b3: u8) -> (r: u32)
    ensures
        r as nat == be_word(b0, b1, b2, b3),
{
    assert(be_word(b0, b1, b2, b3) < 0x1_0000_0000) by (nonlinear_arith)
        requires
            (b0 as nat) < 256,
            (b1 as nat) < 256,
            (b2 as nat) < 256,
            (b3 as nat) < 256,
    ;
    (b0 as u32) * 0x100_0000 + (b1 as u32) * 0x1_0000 + (b2 as u32) * 0x100 + (b3 as u32)
}

/// Reads a program image: each full group of four bytes, most significant
/// byte first, gives one word.
pub fn program_from_bytes(bytes: &Vec<u8>) -> (r: Vec<u32>)
    ensures
        r@ == image_words(bytes@),
{
    let n = bytes.len() / 4;
    let mut words: Vec<u32> = Vec::new();
    let mut k: usize = 0;
    while k < n
        invariant
            n == bytes.len() / 4,
            k <= n,
            words@ =~= image_words(bytes@).subrange(0, k as int),
        decreases n - k,
    {
        let w = word_at(bytes[4 * k], bytes[4 * k + 1], bytes[4 * k + 2], bytes[4 * k + 3]);
        words.push(w);
        k = k + 1;
    }
    assert(image_words(bytes@).subrange(0, n as int) =~= image_words(bytes@));
    words
}

} // verus!
