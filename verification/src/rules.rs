//! The per-record rule set: header format, duplicate header, length parity
//! and quality-character range. The non-canonical-base tally, the fifth
//! rule, lives with its data structure in the tally module.
use vstd::prelude::*;
use crate::chars::exec_is_quality_char;
use crate::chars::is_quality_char;
use crate::errors::error_views;
use crate::errors::quality_errors;
use crate::errors::quality_errors_up_to;
use crate::errors::ErrorView;
use crate::errors::RecordError;
use crate::record::header_at;

verus! {

use vstd::string::StrSliceExecFns;

/// A header line is well-formed when its first character is `@` or `>`.
pub open spec fn header_ok(h: Seq<char>) -> bool {
    h.len() > 0 && (h[0] == '@' || h[0] == '>')
}

/// The record at 0-based index `i` repeats the header of an earlier record.
/// Under sequential evaluation the later of two equal headers is the one
/// flagged; that at least one of them is flagged does not depend on order.
pub open spec fn is_duplicate(retained: Seq<Seq<char>>, i: int) -> bool {
    exists|j: int| 0 <= j < i && header_at(retained, j) == header_at(retained, i)
}

/// Every character of a quality string lies in the accepted ASCII range.
pub open spec fn quality_ok(q: Seq<char>) -> bool {
    forall|p: int| 0 <= p < q.len() ==> is_quality_char(#[trigger] q[p])
}

/// Header-format rule: passes iff the header starts with `@` or `>`.
pub fn check_header(header: &String) -> (r: bool)
    ensures
        r == header_ok(header@),
{
    let s = header.as_str();
    if s.unicode_len() == 0 {
        return false;
    }
    let c = s.get_char(0);
    c == '@' || c == '>'
}

/// The set of header strings already seen during a run.
pub struct HeaderSet {
    items: Vec<String>,
}

impl HeaderSet {
    /// Whether a header with these characters has been recorded.
    pub closed spec fn contains_header(&self, h: Seq<char>) -> bool {
        exists|i: int| 0 <= i < self.items@.len() && self.items@[i]@ == h
    }

    /// An empty set: no header seen yet.
    pub fn new() -> (r: HeaderSet)
        ensures
            forall|h: Seq<char>| !r.contains_header(h),
    {
        HeaderSet { items: Vec::new() }
    }

    fn contains(&self, header: &String) -> (r: bool)
        ensures
            r == self.contains_header(header@),
    {
        let mut i: usize = 0;
        while i < self.items.len()
            invariant
                0 <= i <= self.items@.len(),
                forall|j: int| 0 <= j < i ==> self.items@[j]@ != header@,
            decreases self.items@.len() - i,
        {
            if self.items[i] == *header {
                return true;
            }
            i += 1;
        }
        false
    }
}

/// Duplicate-header rule: records the header in the seen-set and passes iff
/// it was not there before. The set is extended even when other rules on the
/// same record fail.
pub fn check_duplicate_header(header: &String, headers_seen: &mut HeaderSet) -> (fresh: bool)
    ensures
        fresh == !old(headers_seen).contains_header(header@),
        forall|h: Seq<char>|
            final(headers_seen).contains_header(h) == (old(headers_seen).contains_header(h) || h
                == header@),
{
    let fresh = !headers_seen.contains(header);
    if fresh {
        let ghost before = headers_seen.items@;
        headers_seen.items.push(header.clone());
        proof {
            let after = headers_seen.items@;
            assert(after == before.push(*header));
            assert forall|h: Seq<char>|
                headers_seen.contains_header(h) implies (old(headers_seen).contains_header(h) || h
                == header@) by {
                let i = choose|i: int| 0 <= i < after.len() && after[i]@ == h;
                if i < before.len() {
                    assert(before[i]@ == h);
                } else {
                    assert(after[i] == *header);
                }
            }
            assert forall|h: Seq<char>|
                old(headers_seen).contains_header(h) || h == header@ implies headers_seen
                .contains_header(h) by {
                if old(headers_seen).contains_header(h) {
                    let i = choose|i: int| 0 <= i < before.len() && before[i]@ == h;
                    assert(after[i]@ == h);
                } else {
                    assert(after[before.len() as int]@ == h);
                }
            }
        }
    }
    fresh
}

/// Length-parity rule: passes iff sequence and quality string have the same
/// number of characters.
pub fn check_sequence_length(seq: &String, qual: &String) -> (r: bool)
    ensures
        r == (seq@.len() == qual@.len()),
{
    seq.as_str().unicode_len() == qual.as_str().unicode_len()
}

/// Quality-range rule: returns one diagnostic per out-of-range character of
/// the quality string, in position order, scanning the whole string rather
/// than stopping at the first violation. `index` is the record's 1-based
/// position. The rule passes iff no diagnostic comes back.
pub fn check_quality_value(index: usize, qual: &String) -> (errs: Vec<RecordError>)
    ensures
        error_views(errs@) == quality_errors(index as nat, qual@),
        errs@.len() == 0 <==> quality_ok(qual@),
{
    let s = qual.as_str();
    let n: usize = s.unicode_len();
    let mut errs: Vec<RecordError> = Vec::new();
    let mut p: usize = 0;
    proof {
        assert(error_views(errs@) =~= quality_errors_up_to(index as nat, qual@, 0));
    }
    while p < n
        invariant
            n == qual@.len(),
            0 <= p <= n,
            s@ == qual@,
            error_views(errs@) =~= quality_errors_up_to(index as nat, qual@, p as int),
            errs@.len() == 0 <==> (forall|j: int| 0 <= j < p ==> is_quality_char(#[trigger] qual@[j])),
        decreases n - p,
    {
        let c = s.get_char(p);
        if !exec_is_quality_char(c) {
            let ghost before = errs@;
            errs.push(RecordError::InvalidQualityChar { index, position: p + 1, ch: c });
            proof {
                assert(error_views(errs@) =~= error_views(before).push(
                    (ErrorView::InvalidQualityChar {
                        index: index as nat,
                        position: (p + 1) as nat,
                        ch: c as u32,
                    }),
                ));
                assert(error_views(errs@) =~= quality_errors_up_to(
                    index as nat,
                    qual@,
                    p + 1,
                ));
            }
        } else {
            proof {
                assert(error_views(errs@) =~= quality_errors_up_to(index as nat, qual@, p + 1));
            }
        }
        p += 1;
    }
    errs
}

} // verus!
