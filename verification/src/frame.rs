//! Validation and classification of a deciphered frame.

use vstd::prelude::*;

verus! {

/// The byte that ends the payload of every frame.
pub const CODE_END_MESSAGE: u8 = 0x0D;

/// The type code of a CO2 sample.
pub const CODE_CO2: u8 = 0x50;

/// The type code of a temperature sample.
pub const CODE_TEMPERATURE: u8 = 0x42;

/// A temperature as the monitor reports it, in sixteenths of a kelvin.
#[derive(Clone, Copy, Debug, PartialEq, Eq, Structural)]
pub struct Temperature {
    /// The reported count of sixteenths of a kelvin.
    pub sixteenths_kelvin: u16,
}

impl Temperature {
    /// The temperature in ten-thousandths of a degree Celsius. A sixteenth
    /// of a kelvin is 625 ten-thousandths, and zero degrees Celsius is
    /// 273.15 kelvin.
    pub open spec fn celsius_e4(self) -> int {
        self.sixteenths_kelvin as int * 625 - 2_731_500
    }

    /// The temperature in ten-thousandths of a degree Celsius.
    pub fn to_celsius_e4(&self) -> (t: i32)
        ensures
            t == self.celsius_e4(),
    {
        let scaled: i32 = self.sixteenths_kelvin as i32 * 625;
        scaled - 2_731_500
    }
}

/// Whether the tail of the frame is intact: the terminator at position
/// four and zeros after it.
pub open spec fn tail_intact(f: Seq<u8>) -> bool {
    f[4] == CODE_END_MESSAGE && f[5] == 0 && f[6] == 0 && f[7] == 0
}

/// Whether the fourth byte is the sum of the first three modulo 256.
pub open spec fn checksum_ok(f: Seq<u8>) -> bool {
    (f[0] as int + f[1] as int + f[2] as int) % 256 == f[3] as int
}

/// The 16-bit value of the frame: byte one is the high half, byte two the
/// low half.
pub open spec fn frame_value(f: Seq<u8>) -> int {
    f[1] as int * 256 + f[2] as int
}

/// What an eight-byte frame says: a CO2 concentration in parts per million,
/// a temperature, or nothing. A frame says nothing unless its tail is
/// intact, its checksum is right and its type code is known.
pub open spec fn decode(f: Seq<u8>) -> (Option<u32>, Option<Temperature>) {
    if !tail_intact(f) || !checksum_ok(f) {
        (None, None)
    } else if f[0] == CODE_CO2 {
        (Some(frame_value(f) as u32), None)
    } else if f[0] == CODE_TEMPERATURE {
        (None, Some(Temperature { sixteenths_kelvin: frame_value(f) as u16 }))
    } else {
        (None, None)
    }
}

/// Validates a frame and classifies it as a CO2 sample or a temperature
/// sample. A frame with a wrong terminator, a nonzero tail, a wrong checksum
/// or an unknown type code gives neither.
pub fn decode_message(msg: [u8; 8]) -> (sample: (Option<u32>, Option<Temperature>))
    ensures
        sample == decode(msg@),
        msg@[4] != 0x0D ==> sample == (None::<u32>, None::<Temperature>),
        (msg@[0] as int + msg@[1] as int + msg@[2] as int) % 256 != msg@[3] as int ==> sample == (
            None::<u32>,
            None::<Temperature>,
        ),
        sample.0.is_none() || sample.1.is_none(),
{
    if msg[5] != 0 || msg[6] != 0 || msg[7] != 0 || msg[4] != CODE_END_MESSAGE {
        return (None, None);
    }
    if msg[0].wrapping_add(msg[1]).wrapping_add(msg[2]) != msg[3] {
        return (None, None);
    }
    let high: u16 = msg[1] as u16;
    let low: u16 = msg[2] as u16;
    assert((high << 8) | low == high * 256 + low) by (bit_vector)
        requires
            high < 256,
            low < 256,
    ;
    let value: u16 = (high << 8) | low;
    if msg[0] == CODE_CO2 {
        (Some(value as u32), None)
    } else if msg[0] == CODE_TEMPERATURE {
        (None, Some(Temperature { sixteenths_kelvin: value }))
    } else {
        (None, None)
    }
}

} // verus!
