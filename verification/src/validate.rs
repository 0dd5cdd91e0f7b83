//! The aggregator: runs every rule on every record, reduces the outcomes to
//! one overall verdict, and collects every diagnostic. Evaluation is
//! exhaustive by design — all records are checked and all defects reported,
//! rather than stopping at the first failure — so the diagnostics are
//! complete; a fail-fast consumer would agree on the verdict.
use vstd::prelude::*;
use crate::errors::error_views;
use crate::errors::expected_errors;
use crate::errors::expected_errors_up_to;
use crate::errors::expected_record_errors;
use crate::errors::RecordError;
use crate::record::extract_records;
use crate::record::header_at;
use crate::record::line_views;
use crate::record::num_records;
use crate::record::quality_at;
use crate::record::retained_lines;
use crate::record::sequence_at;
use crate::record::structure_ok;
use crate::record::StructuralError;
use crate::rules::check_duplicate_header;
use crate::rules::check_header;
use crate::rules::check_quality_value;
use crate::rules::check_sequence_length;
use crate::rules::header_ok;
use crate::rules::is_duplicate;
use crate::rules::quality_ok;
use crate::rules::HeaderSet;
use crate::tally::check_non_atgc;
use crate::tally::count_noncanon;
use crate::tally::lemma_count_noncanon_le;
use crate::tally::tally_count;
use crate::tally::tally_count_up_to;
use crate::tally::Tally;

verus! {

use vstd::string::StrSliceExecFns;
use vstd::arithmetic::mul::lemma_mul_inequality;
use vstd::arithmetic::mul::lemma_mul_upper_bound;
use vstd::arithmetic::mul::lemma_mul_is_distributive_add_other_way;

/// The overall outcome of a run: `Pass` only for a structurally well-formed
/// file all of whose records pass every failing rule.
#[derive(Clone, Copy, Debug, PartialEq, Eq, Structural)]
pub enum Verdict {
    Pass,
    Fail,
}

/// A record passes when its header is well-formed, no earlier record had
/// the same header, its sequence and quality strings are equally long, and
/// every quality character is in range. The non-canonical-base tally takes
/// no part in this.
pub open spec fn record_passes(retained: Seq<Seq<char>>, i: int) -> bool {
    &&& header_ok(header_at(retained, i))
    &&& !is_duplicate(retained, i)
    &&& sequence_at(retained, i).len() == quality_at(retained, i).len()
    &&& quality_ok(quality_at(retained, i))
}

/// Every record of the file passes.
pub open spec fn all_records_pass(retained: Seq<Seq<char>>) -> bool {
    forall|i: int| 0 <= i < num_records(retained) ==> record_passes(retained, i)
}

/// The file as a whole passes: structurally well-formed and every record
/// passes.
pub open spec fn file_passes(file: Seq<Seq<char>>) -> bool {
    let retained = retained_lines(file);
    structure_ok(retained) && all_records_pass(retained)
}

/// Everything one validation run produces.
pub struct QcReport {
    pub verdict: Verdict,
    pub structural: Option<StructuralError>,
    pub record_errors: Vec<RecordError>,
    pub tally: Tally,
}

/// What a report must say about the file it was computed from: the verdict
/// is `Pass` exactly when the file passes; the structural error is present
/// and correct exactly when the structure is broken, and then no record was
/// evaluated (no record diagnostics, an empty tally); otherwise the
/// diagnostics are exactly the expected ones and the tally holds the exact
/// occurrence counts.
pub open spec fn report_conforms(report: QcReport, file: Seq<Seq<char>>) -> bool {
    let retained = retained_lines(file);
    &&& report.tally.wf()
    &&& (report.verdict == Verdict::Pass <==> file_passes(file))
    &&& match report.structural {
        Some(StructuralError::EmptyFile) => retained.len() == 0,
        Some(StructuralError::NotMultipleOfFour { retained: n }) => retained.len() > 0
            && retained.len() % 4 != 0 && n == retained.len(),
        Some(StructuralError::TruncatedRecord { .. }) => false,
        None => structure_ok(retained),
    }
    &&& !structure_ok(retained) ==> report.record_errors@.len() == 0 && (forall|c: char|
        report.tally.spec_count(c) == 0)
    &&& structure_ok(retained) ==> {
        &&& forall|c: char| report.tally.spec_count(c) == tally_count(retained, c)
        &&& error_views(report.record_errors@) == expected_errors(retained)
    }
}

/// Validates a whole file, given as its text lines. Exhaustive: every record
/// is checked and every diagnostic collected, whatever came before.
pub fn validate_lines(lines: &Vec<String>) -> (report: QcReport)
    ensures
        report_conforms(report, line_views(lines@)),
{
    let ghost file = line_views(lines@);
    let ghost retained = retained_lines(file);
    let tally = Tally::new();
    let records = match extract_records(lines) {
        Err(e) => {
            return QcReport {
                verdict: Verdict::Fail,
                structural: Some(e),
                record_errors: Vec::new(),
                tally,
            };
        },
        Ok(records) => records,
    };
    let mut tally = tally;
    let mut seen = HeaderSet::new();
    let mut errors: Vec<RecordError> = Vec::new();
    let mut all_ok: bool = true;
    let n: usize = records.len();
    let ghost m = usize::MAX as nat;
    let mut i: usize = 0;
    proof {
        assert(error_views(errors@) =~= expected_errors_up_to(retained, 0));
    }
    while i < n
        invariant
            n == records@.len(),
            crate::record::records_match(records@, retained),
            structure_ok(retained),
            m == usize::MAX as nat,
            0 <= i <= n,
            tally.wf(),
            forall|c: char| tally.spec_count(c) == tally_count_up_to(retained, i as int, c),
            forall|c: char| tally_count_up_to(retained, i as int, c) <= (i as nat) * m,
            error_views(errors@) =~= expected_errors_up_to(retained, i as int),
            all_ok <==> (forall|j: int| 0 <= j < i ==> record_passes(retained, j)),
            forall|h: Seq<char>|
                seen.contains_header(h) <==> (exists|j: int|
                    0 <= j < i && header_at(retained, j) == h),
        decreases n - i,
    {
        let idx: usize = i + 1;
        let rec = &records[i];
        let h_ok = check_header(&rec.header);
        proof {
            assert(rec.header@ == header_at(retained, i as int));
            assert(h_ok == header_ok(header_at(retained, i as int)));
        }
        let fresh = check_duplicate_header(&rec.header, &mut seen);
        proof {
            assert(fresh == !is_duplicate(retained, i as int));
            assert forall|h: Seq<char>|
                seen.contains_header(h) <==> (exists|j: int|
                    0 <= j < i + 1 && header_at(retained, j) == h) by {
                if seen.contains_header(h) {
                    if h == header_at(retained, i as int) {
                        assert(header_at(retained, i as int) == h);
                    }
                }
                if exists|j: int| 0 <= j < i + 1 && header_at(retained, j) == h {
                    let j = choose|j: int| 0 <= j < i + 1 && header_at(retained, j) == h;
                    if j < i {
                        assert(seen.contains_header(h));
                    }
                }
            }
        }
        let len_ok = check_sequence_length(&rec.sequence, &rec.quality);
        let seq_len: usize = rec.sequence.as_str().unicode_len();
        proof {
            assert(rec.sequence@ == sequence_at(retained, i as int));
            assert forall|c: char| tally.spec_count(c) + rec.sequence@.len() <= u128::MAX by {
                assert(tally.spec_count(c) <= (i as nat) * m);
                lemma_mul_is_distributive_add_other_way(m as int, i as int, 1);
                lemma_mul_inequality(i + 1, n as int, m as int);
                lemma_mul_inequality(n as int, m as int, m as int);
                assert((m as int) * (m as int) <= (u64::MAX as int) * (u64::MAX as int)) by {
                    lemma_mul_upper_bound(m as int, u64::MAX as int, m as int, u64::MAX as int);
                }
            }
        }
        check_non_atgc(&rec.sequence, &mut tally);
        proof {
            assert forall|c: char|
                tally.spec_count(c) == #[trigger] tally_count_up_to(retained, i + 1, c) by {
                assert(tally_count_up_to(retained, i + 1, c) == tally_count_up_to(
                    retained,
                    i as int,
                    c,
                ) + count_noncanon(sequence_at(retained, i as int), c));
            }
            assert forall|c: char|
                #[trigger] tally_count_up_to(retained, i + 1, c) <= ((i + 1) as nat) * m by {
                assert(tally_count_up_to(retained, i + 1, c) == tally_count_up_to(
                    retained,
                    i as int,
                    c,
                ) + count_noncanon(sequence_at(retained, i as int), c));
                lemma_count_noncanon_le(rec.sequence@, rec.sequence@.len() as int, c);
                assert(count_noncanon(sequence_at(retained, i as int), c) <= m);
                lemma_mul_is_distributive_add_other_way(m as int, i as int, 1);
                assert(((i + 1) as nat) * m == (i as nat) * m + m);
            }
        }
        let ghost errors_before = errors@;
        if !h_ok {
            errors.push(RecordError::InvalidHeader { index: idx, header: rec.header.clone() });
        }
        if !fresh {
            errors.push(RecordError::DuplicateHeader { index: idx, header: rec.header.clone() });
        }
        let qual_len: usize = rec.quality.as_str().unicode_len();
        if seq_len != qual_len {
            errors.push(RecordError::LengthMismatch { index: idx, seq_len, qual_len });
        }
        let mut qerrs = check_quality_value(idx, &rec.quality);
        let q_ok = qerrs.len() == 0;
        errors.append(&mut qerrs);
        proof {
            assert(rec.quality@ == quality_at(retained, i as int));
            assert(error_views(errors@) =~= expected_errors_up_to(retained, i as int)
                + expected_record_errors(retained, i as int));
            assert(error_views(errors@) =~= expected_errors_up_to(retained, i + 1));
            assert(record_passes(retained, i as int) == (h_ok && fresh && len_ok && q_ok));
        }
        all_ok = all_ok && h_ok && fresh && len_ok && q_ok;
        proof {
            assert(all_ok <==> (forall|j: int| 0 <= j < i + 1 ==> record_passes(retained, j)));
        }
        i += 1;
    }
    let verdict = if all_ok {
        Verdict::Pass
    } else {
        Verdict::Fail
    };
    proof {
        assert(num_records(retained) == n as int);
        assert(all_ok <==> all_records_pass(retained));
    }
    QcReport { verdict, structural: None, record_errors: errors, tally }
}

} // verus!
