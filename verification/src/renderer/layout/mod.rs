//! Text measurement: the character classes it decides by.

pub mod text_measurement;
