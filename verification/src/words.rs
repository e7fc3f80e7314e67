//! Eight-byte words: big-endian packing, the three-bit rotation, wrapping
//! byte subtraction, and the nibble-swapped magic word.

use vstd::prelude::*;

verus! {

/// The value of the first eight bytes of `s`, read as one big-endian number.
pub open spec fn be_value(s: Seq<u8>) -> int {
    s[0] as int * 0x100_0000_0000_0000 + s[1] as int * 0x1_0000_0000_0000 + s[2] as int
        * 0x100_0000_0000 + s[3] as int * 0x1_0000_0000 + s[4] as int * 0x100_0000 + s[5] as int
        * 0x1_0000 + s[6] as int * 0x100 + s[7] as int
}

/// The eight bytes of `x`, most significant first.
pub open spec fn be_bytes(x: u64) -> Seq<u8> {
    seq![
        (x as int / 0x100_0000_0000_0000 % 256) as u8,
        (x as int / 0x1_0000_0000_0000 % 256) as u8,
        (x as int / 0x100_0000_0000 % 256) as u8,
        (x as int / 0x1_0000_0000 % 256) as u8,
        (x as int / 0x100_0000 % 256) as u8,
        (x as int / 0x1_0000 % 256) as u8,
        (x as int / 0x100 % 256) as u8,
        (x as int % 256) as u8,
    ]
}

/// `x` rotated right by three bits within 64 bits: the low three bits move
/// to the top, the rest moves down.
pub open spec fn rotate_right_3(x: u64) -> u64 {
    (x as int / 8 + (x as int % 8) * 0x2000_0000_0000_0000) as u64
}

/// A byte with its high and low nibble exchanged.
pub open spec fn nibble_swap(b: u8) -> u8 {
    ((b as int % 16) * 16 + b as int / 16) as u8
}

/// `a - b` modulo 256.
pub open spec fn sub_mod_256(a: u8, b: u8) -> u8 {
    ((a as int - b as int + 256) % 256) as u8
}

/// The ASCII bytes of the seed word `Htemp99e`.
pub open spec fn magic_seed() -> Seq<u8> {
    seq![0x48u8, 0x74u8, 0x65u8, 0x6du8, 0x70u8, 0x39u8, 0x39u8, 0x65u8]
}

/// The magic word: every byte of the seed with its nibbles exchanged.
pub open spec fn magic_word() -> Seq<u8> {
    Seq::new(8, |i: int| nibble_swap(magic_seed()[i]))
}

/// A big-endian value of eight bytes fits in 64 bits.
pub proof fn lemma_be_value_bounds(s: Seq<u8>)
    ensures
        0 <= be_value(s) <= u64::MAX,
{
}

/// Splitting a word into bytes and packing them again gives the word back.
pub proof fn lemma_pack_unpack(x: u64)
    ensures
        be_bytes(x).len() == 8,
        be_value(be_bytes(x)) == x,
{
    assert(x == (x / 0x100_0000_0000_0000 % 256) * 0x100_0000_0000_0000 + (x / 0x1_0000_0000_0000
        % 256) * 0x1_0000_0000_0000 + (x / 0x100_0000_0000 % 256) * 0x100_0000_0000 + (x
        / 0x1_0000_0000 % 256) * 0x1_0000_0000 + (x / 0x100_0000 % 256) * 0x100_0000 + (x / 0x1_0000
        % 256) * 0x1_0000 + (x / 0x100 % 256) * 0x100 + x % 256) by (bit_vector);
}

/// Packing eight bytes into a word and splitting it again gives the bytes
/// back.
pub proof fn lemma_unpack_pack(s: Seq<u8>)
    requires
        s.len() == 8,
    ensures
        be_bytes(be_value(s) as u64) =~= s,
{
    let (b0, b1, b2, b3, b4, b5, b6, b7) = (s[0], s[1], s[2], s[3], s[4], s[5], s[6], s[7]);
    let x = be_value(s) as u64;
    assert(x == b0 * 0x100_0000_0000_0000 + b1 * 0x1_0000_0000_0000 + b2 * 0x100_0000_0000 + b3
        * 0x1_0000_0000 + b4 * 0x100_0000 + b5 * 0x1_0000 + b6 * 0x100 + b7);
    assert(x / 0x100_0000_0000_0000 % 256 == b0 && x / 0x1_0000_0000_0000 % 256 == b1 && x
        / 0x100_0000_0000 % 256 == b2 && x / 0x1_0000_0000 % 256 == b3 && x / 0x100_0000 % 256 == b4
        && x / 0x1_0000 % 256 == b5 && x / 0x100 % 256 == b6 && x % 256 == b7) by (bit_vector)
        requires
            x == b0 * 0x100_0000_0000_0000 + b1 * 0x1_0000_0000_0000 + b2 * 0x100_0000_0000 + b3
                * 0x1_0000_0000 + b4 * 0x100_0000 + b5 * 0x1_0000 + b6 * 0x100 + b7,
    ;
}

/// The magic word, byte by byte.
pub proof fn lemma_magic_word_bytes()
    ensures
        magic_word() =~= seq![0x84u8, 0x47u8, 0x56u8, 0xd6u8, 0x07u8, 0x93u8, 0x93u8, 0x56u8],
{
}

/// Packs the first eight bytes of `x` into one word, `x[0]` most
/// significant.
pub fn list_to_u64(x: &[u8]) -> (word: u64)
    requires
        x@.len() >= 8,
    ensures
        word == be_value(x@),
{
    let (b0, b1, b2, b3, b4, b5, b6, b7) = (x[0], x[1], x[2], x[3], x[4], x[5], x[6], x[7]);
    assert(((b6 as u64) << 8) == b6 * 0x100 && ((b5 as u64) << 16) == b5 * 0x1_0000 && ((b4 as u64)
        << 24) == b4 * 0x100_0000 && ((b3 as u64) << 32) == b3 * 0x1_0000_0000 && ((b2 as u64)
        << 40) == b2 * 0x100_0000_0000 && ((b1 as u64) << 48) == b1 * 0x1_0000_0000_0000 && ((
    b0 as u64) << 56) == b0 * 0x100_0000_0000_0000) by (bit_vector);
    b7 as u64 + ((b6 as u64) << 8) + ((b5 as u64) << 16) + ((b4 as u64) << 24) + ((b3 as u64)
        << 32) + ((b2 as u64) << 40) + ((b1 as u64) << 48) + ((b0 as u64) << 56)
}

/// Splits a word into its eight bytes, most significant first.
pub fn u64_to_list(x: u64) -> (list: [u8; 8])
    ensures
        list@ == be_bytes(x),
        be_value(list@) == x,
{
    let mut list = [0u8;8];
    assert(((x >> 56) & 0xFF) as u8 == (x / 0x100_0000_0000_0000 % 256) as u8 && ((x >> 48)
        & 0xFF) as u8 == (x / 0x1_0000_0000_0000 % 256) as u8 && ((x >> 40) & 0xFF) as u8 == (x
        / 0x100_0000_0000 % 256) as u8 && ((x >> 32) & 0xFF) as u8 == (x / 0x1_0000_0000
        % 256) as u8 && ((x >> 24) & 0xFF) as u8 == (x / 0x100_0000 % 256) as u8 && ((x >> 16)
        & 0xFF) as u8 == (x / 0x1_0000 % 256) as u8 && ((x >> 8) & 0xFF) as u8 == (x / 0x100
        % 256) as u8 && (x & 0xFF) as u8 == (x % 256) as u8) by (bit_vector);
    list[0] = ((x >> 56) & 0xFF) as u8;
    list[1] = ((x >> 48) & 0xFF) as u8;
    list[2] = ((x >> 40) & 0xFF) as u8;
    list[3] = ((x >> 32) & 0xFF) as u8;
    list[4] = ((x >> 24) & 0xFF) as u8;
    list[5] = ((x >> 16) & 0xFF) as u8;
    list[6] = ((x >> 8) & 0xFF) as u8;
    list[7] = (x & 0xFF) as u8;
    proof {
        assert(list@ =~= be_bytes(x));
        lemma_pack_unpack(x);
    }
    list
}

/// Rotates a word right by three bits.
pub fn rotate_word(x: u64) -> (rotated: u64)
    ensures
        rotated == rotate_right_3(x),
{
    assert((x >> 3) | (x << 61) == (x / 8 + (x % 8) * 0x2000_0000_0000_0000) as u64)
        by (bit_vector);
    (x >> 3) | (x << 61)
}

/// Exchanges the two nibbles of a byte.
pub fn swap_nibbles(byte: u8) -> (swapped: u8)
    ensures
        swapped == nibble_swap(byte),
{
    assert((byte << 4) | (byte >> 4) == ((byte % 16) * 16 + byte / 16) as u8) by (bit_vector);
    (byte << 4) | (byte >> 4)
}

/// The seed word as bytes.
fn seed_bytes() -> (seed: [u8; 8])
    ensures
        seed@ == magic_seed(),
{
    let seed: [u8; 8] = [0x48, 0x74, 0x65, 0x6d, 0x70, 0x39, 0x39, 0x65];
    assert(seed@ =~= magic_seed());
    seed
}

/// The magic word: the seed word with the nibbles of every byte exchanged.
pub fn get_magic_word() -> (list: [u8; 8])
    ensures
        list@ == magic_word(),
{
    let mut list = [0u8;8];
    let seed = seed_bytes();
    let mut i: usize = 0;
    while i < 8
        invariant
            i <= 8,
            seed@ == magic_seed(),
            forall|j: int| 0 <= j < i ==> list@[j] == nibble_swap(magic_seed()[j]),
        decreases 8 - i,
    {
        list[i] = swap_nibbles(seed[i]);
        i += 1;
    }
    assert(list@ =~= magic_word());
    list
}

} // verus!
