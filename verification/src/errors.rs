//! Per-record diagnostics, their mathematical views, and the specification
//! of exactly which diagnostics a validation run must produce.
use vstd::prelude::*;
use crate::chars::is_quality_char;
use crate::record::header_at;
use crate::record::num_records;
use crate::record::quality_at;
use crate::record::sequence_at;
use crate::rules::header_ok;
use crate::rules::is_duplicate;

verus! {

/// A defect of one record. `index` is the record's 1-based position among
/// the four-line groups of the file; `position` in `InvalidQualityChar` is
/// the 1-based character position within the quality string. A record error
/// fails the file but never stops the other records from being checked.
#[derive(Debug)]
pub enum RecordError {
    InvalidHeader { index: usize, header: String },
    DuplicateHeader { index: usize, header: String },
    LengthMismatch { index: usize, seq_len: usize, qual_len: usize },
    InvalidQualityChar { index: usize, position: usize, ch: char },
}

/// The mathematical view of a `RecordError`: the same data over `nat` and
/// `Seq<char>`. The offending quality character is carried as its code
/// point.
#[verifier::ext_equal]
pub enum ErrorView {
    InvalidHeader { index: nat, header: Seq<char> },
    DuplicateHeader { index: nat, header: Seq<char> },
    LengthMismatch { index: nat, seq_len: nat, qual_len: nat },
    InvalidQualityChar { index: nat, position: nat, ch: u32 },
}

impl View for RecordError {
    type V = ErrorView;

    open spec fn view(&self) -> ErrorView {
        match self {
            RecordError::InvalidHeader { index, header } => ErrorView::InvalidHeader {
                index: *index as nat,
                header: header@,
            },
            RecordError::DuplicateHeader { index, header } => ErrorView::DuplicateHeader {
                index: *index as nat,
                header: header@,
            },
            RecordError::LengthMismatch { index, seq_len, qual_len } => ErrorView::LengthMismatch {
                index: *index as nat,
                seq_len: *seq_len as nat,
                qual_len: *qual_len as nat,
            },
            RecordError::InvalidQualityChar { index, position, ch } => (
            ErrorView::InvalidQualityChar {
                index: *index as nat,
                position: *position as nat,
                ch: *ch as u32,
            }),
        }
    }
}

/// The views of a sequence of record errors.
pub open spec fn error_views(errors: Seq<RecordError>) -> Seq<ErrorView> {
    errors.map_values(|e: RecordError| e@)
}

/// The quality-range diagnostic owed for position `k` (0-based) of quality
/// string `q` of the record at 1-based index `rec_index`: one
/// `InvalidQualityChar` when the character there is out of range, nothing
/// otherwise.
pub open spec fn quality_error_at(rec_index: nat, q: Seq<char>, k: int) -> Seq<ErrorView> {
    if !is_quality_char(q[k]) {
        seq![
            (ErrorView::InvalidQualityChar {
                index: rec_index,
                position: (k + 1) as nat,
                ch: q[k] as u32,
            }),
        ]
    } else {
        Seq::empty()
    }
}

/// The quality-range diagnostics for the first `n` characters of quality
/// string `q`: one `InvalidQualityChar` per out-of-range character, in
/// position order.
pub open spec fn quality_errors_up_to(index: nat, q: Seq<char>, n: int) -> Seq<ErrorView>
    decreases n,
{
    if n <= 0 {
        Seq::empty()
    } else {
        quality_errors_up_to(index, q, n - 1) + quality_error_at(index, q, n - 1)
    }
}

/// All quality-range diagnostics of one record.
pub open spec fn quality_errors(index: nat, q: Seq<char>) -> Seq<ErrorView> {
    quality_errors_up_to(index, q, q.len() as int)
}

/// The diagnostics owed to the record at 0-based index `i`, in rule order:
/// header format, duplicate header, length parity, then the quality-range
/// diagnostics in position order.
pub open spec fn expected_record_errors(retained: Seq<Seq<char>>, i: int) -> Seq<ErrorView> {
    let idx = (i + 1) as nat;
    let h = header_at(retained, i);
    let s = sequence_at(retained, i);
    let q = quality_at(retained, i);
    (if !header_ok(h) {
        seq![ErrorView::InvalidHeader { index: idx, header: h }]
    } else {
        Seq::empty()
    }) + (if is_duplicate(retained, i) {
        seq![ErrorView::DuplicateHeader { index: idx, header: h }]
    } else {
        Seq::empty()
    }) + (if s.len() != q.len() {
        seq![ErrorView::LengthMismatch { index: idx, seq_len: s.len(), qual_len: q.len() }]
    } else {
        Seq::empty()
    }) + quality_errors(idx, q)
}

/// The diagnostics owed to the first `n` records, in record order.
pub open spec fn expected_errors_up_to(retained: Seq<Seq<char>>, n: int) -> Seq<ErrorView>
    decreases n,
{
    if n <= 0 {
        Seq::empty()
    } else {
        expected_errors_up_to(retained, n - 1) + expected_record_errors(retained, n - 1)
    }
}

/// Every diagnostic a structurally well-formed file is owed.
pub open spec fn expected_errors(retained: Seq<Seq<char>>) -> Seq<ErrorView> {
    expected_errors_up_to(retained, num_records(retained))
}

} // verus!
