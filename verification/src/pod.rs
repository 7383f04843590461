//! Values with a fixed byte layout.

use vstd::prelude::*;

verus! {

/// The four bytes of a word, least significant first.
pub open spec fn word_bytes(x: u32) -> Seq<u8> {
    seq![
        (x % 256) as u8,
        (x / 256 % 256) as u8,
        (x / 65536 % 256) as u8,
        (x / 16777216) as u8,
    ]
}

/// The word that four bytes stand for, least significant first.
pub open spec fn bytes_word(bytes: Seq<u8>) -> int {
    bytes[0] + 256 * bytes[1] + 65536 * bytes[2] + 16777216 * bytes[3]
}

/// A word can be read back from its four bytes.
pub proof fn lemma_word_round_trip(x: u32)
    ensures
        word_bytes(x).len() == 4,
        bytes_word(word_bytes(x)) == x,
{
}

/// The bytes of a run of words, each word least significant byte first.
pub open spec fn words_bytes(words: Seq<u32>) -> Seq<u8> {
    Seq::new(4 * words.len(), |i: int| word_bytes(words[i / 4])[i % 4])
}

/// `bytes` followed by as many zero bytes as it takes to reach `len`.
pub open spec fn zero_padded(bytes: Seq<u8>, len: nat) -> Seq<u8> {
    Seq::new(len, |i: int| if i < bytes.len() { bytes[i] } else { 0u8 })
}

/// A value that is handed to the graphics device as a run of bytes.
///
/// `size_spec` and `align_spec` are the size and the alignment of one value in
/// a buffer, in bytes; as for any laid-out type, the size is a whole number of
/// alignments. `bytes` is the encoding, `size_spec` bytes long.
pub trait Pod: Sized {
    /// Size of one encoded value, in bytes.
    spec fn size_spec() -> nat;

    /// Alignment that a value needs inside a buffer, in bytes.
    spec fn align_spec() -> nat;

    /// The encoding of this value.
    spec fn bytes(&self) -> Seq<u8>;

    /// The alignment is positive and the size is a multiple of it.
    proof fn lemma_layout()
        ensures
            Self::align_spec() > 0,
            Self::size_spec() % Self::align_spec() == 0,
    ;

    /// Every value is encoded in exactly `size_spec` bytes.
    proof fn lemma_bytes_len(&self)
        ensures
            self.bytes().len() == Self::size_spec(),
    ;

    /// Size of one encoded value, in bytes.
    fn size() -> (n: usize)
        ensures
            n == Self::size_spec(),
    ;

    /// Alignment that a value needs inside a buffer, in bytes.
    fn align() -> (n: usize)
        ensures
            n == Self::align_spec(),
    ;

    /// Encodes this value.
    fn to_bytes(&self) -> (b: Vec<u8>)
        ensures
            b@ == self.bytes(),
    ;
}

/// Appends the four bytes of `x` to `out`, least significant first.
pub fn push_word(out: &mut Vec<u8>, x: u32)
    ensures
        final(out)@ == old(out)@ + word_bytes(x),
{
    out.push((x % 256) as u8);
    out.push((x / 256 % 256) as u8);
    out.push((x / 65536 % 256) as u8);
    out.push((x / 16777216) as u8);
}

/// Encodes a run of words, each least significant byte first.
pub fn encode_words(words: &Vec<u32>) -> (b: Vec<u8>)
    ensures
        b@ == words_bytes(words@),
{
    let mut b: Vec<u8> = Vec::new();
    let mut k: usize = 0;
    while k < words.len()
        invariant
            k <= words.len(),
            b@ == words_bytes(words@.subrange(0, k as int)),
        decreases words.len() - k,
    {
        push_word(&mut b, words[k]);
        assert(b@ == words_bytes(words@.subrange(0, k + 1))) by {
            let next = words_bytes(words@.subrange(0, k + 1));
            assert(b@.len() == next.len());
            assert forall|i: int| 0 <= i < b@.len() implies b@[i] == next[i] by {
                if i < 4 * k {
                    assert(words@.subrange(0, k as int)[i / 4] == words@.subrange(0, k + 1)[i / 4]);
                } else {
                    assert(i / 4 == k);
                    assert(b@[i] == word_bytes(words@[k as int])[i - 4 * k]);
                }
            }
        }
        k += 1;
    }
    assert(words@.subrange(0, words.len() as int) == words@);
    b
}

/// Appends zero bytes to `bytes` until it is `len` long; leaves it as it is
/// where it is that long already, or longer.
pub fn pad_with_zeros(bytes: &mut Vec<u8>, len: usize)
    ensures
        old(bytes)@.len() <= len ==> final(bytes)@ == zero_padded(old(bytes)@, len as nat),
        old(bytes)@.len() > len ==> final(bytes)@ == old(bytes)@,
{
    while bytes.len() < len
        invariant
            old(bytes)@.len() <= bytes@.len(),
            bytes@.len() <= len || bytes@ == old(bytes)@,
            bytes@ == zero_padded(old(bytes)@, bytes@.len()),
        decreases len - bytes.len(),
    {
        bytes.push(0u8);
    }
}

} // verus!
