//! File-level guarantees of the validator, proved once and for all: a clean
//! file passes; duplicate headers, length mismatches and out-of-range
//! quality characters each fail the file and are each reported; the verdict
//! never depends on which bases a sequence holds; and a run is a function of
//! the input alone.
use vstd::prelude::*;
use crate::chars::is_quality_char;
use crate::errors::error_views;
use crate::errors::expected_errors;
use crate::errors::expected_errors_up_to;
use crate::errors::expected_record_errors;
use crate::errors::quality_error_at;
use crate::errors::quality_errors_up_to;
use crate::errors::ErrorView;
use crate::record::header_at;
use crate::record::num_records;
use crate::record::quality_at;
use crate::record::retained_lines;
use crate::record::sequence_at;
use crate::record::structure_ok;
use crate::rules::header_ok;
use crate::rules::is_duplicate;
use crate::rules::quality_ok;
use crate::validate::all_records_pass;
use crate::validate::file_passes;
use crate::validate::record_passes;
use crate::validate::report_conforms;
use crate::validate::QcReport;

verus! {

proof fn lemma_concat_contains_left(a: Seq<ErrorView>, b: Seq<ErrorView>, e: ErrorView)
    requires
        a.contains(e),
    ensures
        (a + b).contains(e),
{
    let k = choose|k: int| 0 <= k < a.len() && a[k] == e;
    assert((a + b)[k] == e);
}

proof fn lemma_concat_contains_right(a: Seq<ErrorView>, b: Seq<ErrorView>, e: ErrorView)
    requires
        b.contains(e),
    ensures
        (a + b).contains(e),
{
    let k = choose|k: int| 0 <= k < b.len() && b[k] == e;
    assert((a + b)[a.len() + k] == e);
}

/// A diagnostic owed to one record is among the diagnostics owed to the
/// file.
proof fn lemma_expected_up_to_contains(retained: Seq<Seq<char>>, n: int, i: int, e: ErrorView)
    requires
        0 <= i < n,
        expected_record_errors(retained, i).contains(e),
    ensures
        expected_errors_up_to(retained, n).contains(e),
    decreases n,
{
    if i == n - 1 {
        lemma_concat_contains_right(
            expected_errors_up_to(retained, n - 1),
            expected_record_errors(retained, n - 1),
            e,
        );
    } else {
        lemma_expected_up_to_contains(retained, n - 1, i, e);
        lemma_concat_contains_left(
            expected_errors_up_to(retained, n - 1),
            expected_record_errors(retained, n - 1),
            e,
        );
    }
}

/// A structurally well-formed file whose headers are all well-formed and
/// pairwise distinct, whose sequence and quality strings agree in length,
/// and whose quality characters are all in range, passes.
pub proof fn lemma_clean_file_passes(file: Seq<Seq<char>>)
    requires
        structure_ok(retained_lines(file)),
        forall|i: int|
            0 <= i < num_records(retained_lines(file)) ==> header_ok(
                #[trigger] header_at(retained_lines(file), i),
            ),
        forall|i: int, j: int|
            0 <= i < j < num_records(retained_lines(file)) ==> header_at(retained_lines(file), i)
                != header_at(retained_lines(file), j),
        forall|i: int|
            0 <= i < num_records(retained_lines(file)) ==> (#[trigger] sequence_at(
                retained_lines(file),
                i,
            )).len() == quality_at(retained_lines(file), i).len(),
        forall|i: int|
            0 <= i < num_records(retained_lines(file)) ==> quality_ok(
                #[trigger] quality_at(retained_lines(file), i),
            ),
    ensures
        file_passes(file),
{
    let retained = retained_lines(file);
    assert forall|i: int| 0 <= i < num_records(retained) implies record_passes(retained, i) by {
        if is_duplicate(retained, i) {
            let j = choose|j: int|
                0 <= j < i && header_at(retained, j) == header_at(retained, i);
            assert(header_at(retained, j) != header_at(retained, i));
        }
    }
}

/// Two records sharing a header fail the file, and a `DuplicateHeader`
/// diagnostic naming that header and the later record is owed.
pub proof fn lemma_duplicate_header_reported(file: Seq<Seq<char>>, i: int, j: int)
    requires
        structure_ok(retained_lines(file)),
        0 <= i < j < num_records(retained_lines(file)),
        header_at(retained_lines(file), i) == header_at(retained_lines(file), j),
    ensures
        !file_passes(file),
        expected_errors(retained_lines(file)).contains(
            (ErrorView::DuplicateHeader {
                index: (j + 1) as nat,
                header: header_at(retained_lines(file), j),
            }),
        ),
{
    let retained = retained_lines(file);
    assert(is_duplicate(retained, j));
    assert(!record_passes(retained, j));
    let e = (ErrorView::DuplicateHeader {
        index: (j + 1) as nat,
        header: header_at(retained, j),
    });
    let s = expected_record_errors(retained, j);
    let p1: Seq<ErrorView> = if !header_ok(header_at(retained, j)) {
        seq![
            (ErrorView::InvalidHeader { index: (j + 1) as nat, header: header_at(retained, j) }),
        ]
    } else {
        Seq::empty()
    };
    assert(s[p1.len() as int] == e);
    assert(s.contains(e));
    lemma_expected_up_to_contains(retained, num_records(retained), j, e);
}

/// A record whose sequence and quality strings differ in length fails the
/// file, and a `LengthMismatch` diagnostic citing both lengths is owed.
pub proof fn lemma_length_mismatch_reported(file: Seq<Seq<char>>, i: int)
    requires
        structure_ok(retained_lines(file)),
        0 <= i < num_records(retained_lines(file)),
        sequence_at(retained_lines(file), i).len() != quality_at(retained_lines(file), i).len(),
    ensures
        !file_passes(file),
        expected_errors(retained_lines(file)).contains(
            (ErrorView::LengthMismatch {
                index: (i + 1) as nat,
                seq_len: sequence_at(retained_lines(file), i).len(),
                qual_len: quality_at(retained_lines(file), i).len(),
            }),
        ),
{
    let retained = retained_lines(file);
    assert(!record_passes(retained, i));
    let e = (ErrorView::LengthMismatch {
        index: (i + 1) as nat,
        seq_len: sequence_at(retained, i).len(),
        qual_len: quality_at(retained, i).len(),
    });
    let s = expected_record_errors(retained, i);
    let idx = (i + 1) as nat;
    let h = header_at(retained, i);
    let p1: Seq<ErrorView> = if !header_ok(h) {
        seq![(ErrorView::InvalidHeader { index: idx, header: h })]
    } else {
        Seq::empty()
    };
    let p2: Seq<ErrorView> = if is_duplicate(retained, i) {
        seq![(ErrorView::DuplicateHeader { index: idx, header: h })]
    } else {
        Seq::empty()
    };
    assert(s[p1.len() + p2.len() as int] == e);
    assert(s.contains(e));
    lemma_expected_up_to_contains(retained, num_records(retained), i, e);
}

/// An out-of-range quality character is among the quality diagnostics of its
/// record, under its 1-based position.
proof fn lemma_quality_error_in_up_to(index: nat, q: Seq<char>, n: int, p: int)
    requires
        0 <= p < n <= q.len(),
        !is_quality_char(q[p]),
    ensures
        quality_errors_up_to(index, q, n).contains(
            (ErrorView::InvalidQualityChar { index, position: (p + 1) as nat, ch: q[p] as u32 }),
        ),
    decreases n,
{
    let e = (ErrorView::InvalidQualityChar { index, position: (p + 1) as nat, ch: q[p] as u32 });
    if p == n - 1 {
        let a = quality_errors_up_to(index, q, n - 1);
        let piece = quality_error_at(index, q, n - 1);
        assert(piece.len() == 1);
        assert(piece[0] == e);
        assert(quality_errors_up_to(index, q, n)[a.len() as int] == e);
    } else {
        lemma_quality_error_in_up_to(index, q, n - 1, p);
        lemma_concat_contains_left(
            quality_errors_up_to(index, q, n - 1),
            quality_error_at(index, q, n - 1),
            e,
        );
    }
}

/// A quality character outside the accepted range fails the file, and an
/// `InvalidQualityChar` diagnostic citing its 1-based position is owed.
pub proof fn lemma_invalid_quality_reported(file: Seq<Seq<char>>, i: int, p: int)
    requires
        structure_ok(retained_lines(file)),
        0 <= i < num_records(retained_lines(file)),
        0 <= p < quality_at(retained_lines(file), i).len(),
        !is_quality_char(quality_at(retained_lines(file), i)[p]),
    ensures
        !file_passes(file),
        expected_errors(retained_lines(file)).contains(
            (ErrorView::InvalidQualityChar {
                index: (i + 1) as nat,
                position: (p + 1) as nat,
                ch: quality_at(retained_lines(file), i)[p] as u32,
            }),
        ),
{
    let retained = retained_lines(file);
    assert(!quality_ok(quality_at(retained, i)));
    assert(!record_passes(retained, i));
    let idx = (i + 1) as nat;
    let q = quality_at(retained, i);
    let e = (ErrorView::InvalidQualityChar {
        index: idx,
        position: (p + 1) as nat,
        ch: q[p] as u32,
    });
    lemma_quality_error_in_up_to(idx, q, q.len() as int, p);
    let s = expected_record_errors(retained, i);
    let h = header_at(retained, i);
    let p1: Seq<ErrorView> = if !header_ok(h) {
        seq![(ErrorView::InvalidHeader { index: idx, header: h })]
    } else {
        Seq::empty()
    };
    let p2: Seq<ErrorView> = if is_duplicate(retained, i) {
        seq![(ErrorView::DuplicateHeader { index: idx, header: h })]
    } else {
        Seq::empty()
    };
    let p3: Seq<ErrorView> = if sequence_at(retained, i).len() != q.len() {
        seq![
            (ErrorView::LengthMismatch {
                index: idx,
                seq_len: sequence_at(retained, i).len(),
                qual_len: q.len(),
            }),
        ]
    } else {
        Seq::empty()
    };
    lemma_concat_contains_right(p1 + p2 + p3, quality_errors_up_to(idx, q, q.len() as int), e);
    assert(s == p1 + p2 + p3 + quality_errors_up_to(idx, q, q.len() as int));
    lemma_expected_up_to_contains(retained, num_records(retained), i, e);
}

/// The verdict is blind to the letters inside a sequence line. Take two
/// retained line sequences that differ at most in their sequence lines,
/// with equal lengths there: one passes exactly when the other does. (Those
/// letters feed only the tally, and the tally feeds no rule.)
pub proof fn lemma_bases_never_affect_verdict(r1: Seq<Seq<char>>, r2: Seq<Seq<char>>)
    requires
        r1.len() == r2.len(),
        forall|k: int| 0 <= k < r1.len() && k % 4 != 1 ==> r1[k] == r2[k],
        forall|k: int| 0 <= k < r1.len() && k % 4 == 1 ==> r1[k].len() == r2[k].len(),
    ensures
        structure_ok(r1) == structure_ok(r2),
        all_records_pass(r1) == all_records_pass(r2),
{
    assert forall|i: int|
        0 <= i < num_records(r1) implies record_passes(r1, i) == record_passes(r2, i) by {
        assert((4 * i) % 4 == 0 && (4 * i + 1) % 4 == 1 && (4 * i + 3) % 4 == 3) by (nonlinear_arith)
            requires 0 <= i;
        assert(4 * i + 3 < r1.len());
        assert(header_at(r1, i) == header_at(r2, i));
        assert(quality_at(r1, i) == quality_at(r2, i));
        assert(sequence_at(r1, i).len() == sequence_at(r2, i).len());
        assert forall|j: int| 0 <= j < i implies header_at(r1, j) == header_at(r2, j) by {
            assert((4 * j) % 4 == 0) by (nonlinear_arith)
                requires 0 <= j;
            assert(4 * j < r1.len());
        }
        assert(is_duplicate(r1, i) == is_duplicate(r2, i)) by {
            if is_duplicate(r1, i) {
                let j = choose|j: int| 0 <= j < i && header_at(r1, j) == header_at(r1, i);
                assert(header_at(r2, j) == header_at(r2, i));
            }
            if is_duplicate(r2, i) {
                let j = choose|j: int| 0 <= j < i && header_at(r2, j) == header_at(r2, i);
                assert(header_at(r1, j) == header_at(r1, i));
            }
        }
    }
    assert(num_records(r1) == num_records(r2));
}

/// Validation is a function of the file alone: any two conforming reports
/// for the same lines agree on the verdict, on every tally count, and on the
/// diagnostics.
pub proof fn lemma_validation_deterministic(
    report1: QcReport,
    report2: QcReport,
    file: Seq<Seq<char>>,
)
    requires
        report_conforms(report1, file),
        report_conforms(report2, file),
    ensures
        report1.verdict == report2.verdict,
        forall|c: char| report1.tally.spec_count(c) == report2.tally.spec_count(c),
        error_views(report1.record_errors@) == error_views(report2.record_errors@),
{
    let retained = retained_lines(file);
    if structure_ok(retained) {
        assert forall|c: char|
            report1.tally.spec_count(c) == report2.tally.spec_count(c) by {
            assert(report1.tally.spec_count(c) == crate::tally::tally_count(retained, c));
            assert(report2.tally.spec_count(c) == crate::tally::tally_count(retained, c));
        }
    } else {
        assert forall|c: char|
            report1.tally.spec_count(c) == report2.tally.spec_count(c) by {
            assert(report1.tally.spec_count(c) == 0);
            assert(report2.tally.spec_count(c) == 0);
        }
        assert(error_views(report1.record_errors@) =~= error_views(report2.record_errors@));
    }
}

} // verus!
