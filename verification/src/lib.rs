//! A verified binary codec for a small payment record.
//!
//! A record holds two UTF-8 text fields (`from` and `to`) and an unsigned
//! 64-bit `amount`. Its wire form is two length-prefixed byte strings
//! followed by the amount, all integers big-endian:
//!
//! `[u32 from_len][from bytes][u32 to_len][to bytes][u64 amount]`
//!
//! Encoding never fails; decoding validates each declared length against
//! [`codec::MAX_LEN`] before touching the field body, rejects invalid
//! UTF-8, and demands that the buffer holds exactly one record.

pub mod codec;
pub mod endian;
pub mod laws;

pub use codec::BitError;
pub use codec::ErrorKind;
pub use codec::SimplePayment;
pub use codec::MAX_LEN;
pub use codec::read_string_from_cursor;
