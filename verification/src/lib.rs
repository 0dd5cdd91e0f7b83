//! seqguard: a verified quality-control validator for FASTQ-format sequence
//! files.
//!
//! The library takes the text lines of a file, groups the non-blank ones into
//! four-line records, applies the per-record rule set (header format,
//! duplicate header, sequence/quality length parity, quality-character range,
//! and a non-canonical-base tally), and reduces the outcomes into one overall
//! verdict together with the full list of diagnostics. Reading the file,
//! decompression and printing live outside the library; it consumes and
//! produces plain values only.
pub mod chars;
pub mod cli;
pub mod errors;
pub mod laws;
pub mod record;
pub mod report;
pub mod rules;
pub mod tally;
pub mod validate;

pub use chars::is_blank_line;
pub use chars::is_canonical_base;
pub use chars::is_quality_char;
pub use chars::upper_char;
pub use cli::Args;
pub use errors::RecordError;
pub use record::extract_records;
pub use record::Record;
pub use record::StructuralError;
pub use report::render_record_error;
pub use report::render_structural_error;
pub use report::render_summary;
pub use report::render_tally_report;
pub use rules::check_duplicate_header;
pub use rules::check_header;
pub use rules::check_quality_value;
pub use rules::check_sequence_length;
pub use rules::HeaderSet;
pub use tally::check_non_atgc;
pub use tally::Tally;
pub use validate::validate_lines;
pub use validate::QcReport;
pub use validate::Verdict;
