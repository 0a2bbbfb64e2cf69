//! The names and numbers that the format fixes by convention. They are data
//! for the users of a decoded file; the decoder itself does not look at them.
pub mod hard;
pub mod soft;
