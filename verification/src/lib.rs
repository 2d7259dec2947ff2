//! Cycle counts of transactions, and the JSON file in which they are reported.
//!
//! - [`measurements`]: the cycle counts of one transaction and the JSON object that reports them.
//! - [`note_cycles`]: the cycle counts of the notes that a transaction executes.
//! - [`note_id`]: note identifiers and their hexadecimal form.
//! - [`results`]: the file that holds the reports of several benchmarks.
//! - [`json`]: what JSON values hold, and the operations on them.
pub mod json;
pub mod measurements;
pub mod note_cycles;
pub mod note_id;
pub mod results;
