//! What holds of the codec as a whole: decoding undoes encoding, a cut
//! buffer is refused, an unknown tag is reported, what is decoded can be
//! encoded again, and every encoding is aligned.

pub mod alignment;
pub mod fields;
pub mod framing;
pub mod round_trip;
pub mod sound;
pub mod tags;
pub mod truncation;
