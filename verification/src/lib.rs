//! Protocol engine for a USB CO2 and temperature monitor.
//!
//! The monitor emits eight-byte reports. Each report is deciphered into a
//! frame, the frame is validated and classified as a CO2 or a temperature
//! sample, and samples are accumulated until one of each is known or the
//! request budget is used up.
//!
//! The engine does no input or output of its own. A caller that owns the
//! device asks [`Acquisition::wants_frame`], reads a report, deciphers it
//! with [`Cipher::decrypt`], hands the frame to [`Acquisition::record`], and
//! ends with [`Acquisition::finish`]. [`read_recorded`] does the same on
//! reports that were read earlier.

pub mod words;
pub mod cipher;
pub mod frame;
pub mod clock;
pub mod acquire;
pub mod device;

pub use acquire::{conclude, read_recorded, Acquisition, CO2Reading, ErrorKind};
pub use cipher::Cipher;
pub use clock::CaptureTime;
pub use device::{
    find_device, CO2MonitorInfo, Candidate, CO2MON_HID_PRODUCT_ID, CO2MON_HID_VENDOR_ID,
};
pub use frame::{decode_message, Temperature, CODE_CO2, CODE_END_MESSAGE, CODE_TEMPERATURE};
pub use words::{get_magic_word, list_to_u64, rotate_word, swap_nibbles, u64_to_list};
