//! The cipher that turns a raw report into a frame.

use vstd::prelude::*;
use crate::words::{
    be_bytes, be_value, get_magic_word, list_to_u64, magic_word, rotate_right_3, rotate_word,
    sub_mod_256, u64_to_list,
};

verus! {

/// For each position of the reordered report, the position of the raw
/// report that it is read from.
pub open spec fn byte_order() -> Seq<int> {
    seq![2, 4, 0, 7, 1, 6, 5, 3]
}

/// The raw report in the order in which the cipher reads it.
pub open spec fn reorder(raw: Seq<u8>) -> Seq<u8> {
    Seq::new(8, |i: int| raw[byte_order()[i]])
}

/// The word that the cipher works on: the reordered report, combined with
/// the key by exclusive or, then rotated right by three bits.
pub open spec fn mixed_word(raw: Seq<u8>, key: Seq<u8>) -> u64 {
    rotate_right_3((be_value(reorder(raw)) as u64) ^ (be_value(key) as u64))
}

/// The frame that an eight-byte raw report stands for under an eight-byte
/// key. With `bypass` the report is the frame. Otherwise the bytes of the
/// mixed word each have the byte of the magic word at the same position
/// subtracted modulo 256.
pub open spec fn decipher(raw: Seq<u8>, key: Seq<u8>, bypass: bool) -> Seq<u8> {
    if bypass {
        raw
    } else {
        Seq::new(8, |i: int| sub_mod_256(be_bytes(mixed_word(raw, key))[i], magic_word()[i]))
    }
}

/// The cipher settings of one session.
#[derive(Clone, Copy, Debug)]
pub struct Cipher {
    /// Whether reports arrive in clear and are passed through unchanged.
    pub bypass_decrypt: bool,
    /// The session key.
    pub magic_table: [u8; 8],
}

/// The reading order of the cipher as a table.
fn order_table() -> (table: [usize; 8])
    ensures
        table@.len() == 8,
        forall|i: int| 0 <= i < 8 ==> table@[i] == byte_order()[i],
{
    [2, 4, 0, 7, 1, 6, 5, 3]
}

impl Cipher {
    /// The frame that a raw report stands for under these settings.
    pub open spec fn frame_of(self, raw: Seq<u8>) -> Seq<u8> {
        decipher(raw, self.magic_table@, self.bypass_decrypt)
    }

    /// The settings of a session: the key is the magic word.
    pub fn new(bypass_decrypt: bool) -> (cipher: Cipher)
        ensures
            cipher.bypass_decrypt == bypass_decrypt,
            cipher.magic_table@ == magic_word(),
    {
        Cipher { bypass_decrypt, magic_table: get_magic_word() }
    }

    /// Deciphers one raw report.
    pub fn decrypt(&self, data: [u8; 8]) -> (frame: [u8; 8])
        ensures
            frame@ == self.frame_of(data@),
            self.bypass_decrypt ==> frame@ == data@,
    {
        if self.bypass_decrypt {
            return data;
        }
        let order = order_table();
        let mut rearranged_data = [0u8;8];
        let mut i: usize = 0;
        while i < 8
            invariant
                i <= 8,
                order@.len() == 8,
                forall|j: int| 0 <= j < 8 ==> order@[j] == byte_order()[j],
                forall|j: int| 0 <= j < i ==> rearranged_data@[j] == data@[byte_order()[j]],
            decreases 8 - i,
        {
            rearranged_data[i] = data[order[i]];
            i += 1;
        }
        assert(rearranged_data@ =~= reorder(data@));
        let message = list_to_u64(rearranged_data.as_slice());
        let key = list_to_u64(self.magic_table.as_slice());
        let result = rotate_word(message ^ key);
        let result_list = u64_to_list(result);
        let magic = get_magic_word();
        let mut frame = [0u8;8];
        let mut k: usize = 0;
        while k < 8
            invariant
                k <= 8,
                magic@ == magic_word(),
                result_list@ == be_bytes(result),
                forall|j: int|
                    0 <= j < k ==> frame@[j] == sub_mod_256(be_bytes(result)[j], magic_word()[j]),
            decreases 8 - k,
        {
            frame[k] = result_list[k].wrapping_sub(magic[k]);
            k += 1;
        }
        assert(frame@ =~= decipher(data@, self.magic_table@, self.bypass_decrypt));
        frame
    }
}

} // verus!
