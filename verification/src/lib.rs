//! Small building blocks with contracts that Verus proves: selection over
//! ordered values, the order of a sample, keys that are identified by one of
//! their fields, a request that is built in stages, and helpers for text,
//! numbers and small records.

pub mod accounts;
pub mod closures;
pub mod coins;
pub mod conversion;
pub mod cursor;
pub mod drawing;
pub mod excerpt;
pub mod holders;
pub mod identity;
pub mod key_table;
pub mod math;
pub mod numerals;
pub mod order;
pub mod parsing;
pub mod restaurant;
pub mod selection;
pub mod shapes;
pub mod statistics;
pub mod summary;
pub mod text;
pub mod workflow;
