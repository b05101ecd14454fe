//! A fixed-capacity ring buffer of `u32` values.
//!
//! [`cursor::RingPtr`] manages the two positions of a circular index space;
//! [`buffer::RingBuff`] applies them to a backing array.

pub mod buffer;
pub mod cursor;
