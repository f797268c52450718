//! Line composition: the line-breaking rules.

pub mod line_breaking;
