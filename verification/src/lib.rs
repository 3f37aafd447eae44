//! Longest-match recognition of unit designator labels such as `years`,
//! `yr`, `mo`, `ms` or `µs`.
//!
//! A [`table::LabelTable`] holds a dictionary of labels and their units.
//! [`order::normalize`] puts it into search order, in which a label always
//! comes before its prefixes, and refuses a dictionary that repeats a label.
//! A [`matcher::DecisionProcedure`] built from the ordered table answers
//! `find`: which label stands at the start of a byte buffer, and how many
//! bytes it takes up. [`emit::render`] writes the same procedure out as Rust
//! source. [`dictionary`] holds the standard dictionary, and [`laws`] states
//! what holds of every dictionary.

pub mod unit;
pub mod table;
pub mod order;
pub mod matcher;
pub mod dictionary;
pub mod laws;
pub mod emit;
pub mod config;
