//! The record extractor: turns the file's text lines into four-line records,
//! discarding blank lines and rejecting files whose retained line count is
//! zero or not a multiple of four.
use vstd::prelude::*;
use crate::chars::exec_is_space_char;
use crate::chars::is_blank_line;

verus! {

use vstd::string::StrSliceExecFns;

/// One FASTQ record: four consecutive non-blank lines in file order.
/// The separator line takes no part in any validation rule.
pub struct Record {
    pub header: String,
    pub sequence: String,
    pub separator: String,
    pub quality: String,
}

/// A defect of the file as a whole; no per-record rule runs when one occurs.
/// `TruncatedRecord` belongs to a streaming consumer that sees the line
/// stream end mid-group; the batch extractor here reports the total retained
/// line count through `NotMultipleOfFour` instead.
#[derive(Debug)]
pub enum StructuralError {
    EmptyFile,
    NotMultipleOfFour { retained: usize },
    TruncatedRecord { dangling: usize },
}

/// The views of a sequence of lines.
pub open spec fn line_views(lines: Seq<String>) -> Seq<Seq<char>> {
    lines.map_values(|l: String| l@)
}

/// The lines that count toward the record structure: everything not blank.
pub open spec fn retained_lines(file: Seq<Seq<char>>) -> Seq<Seq<char>> {
    file.filter(|l: Seq<char>| !is_blank_line(l))
}

/// A file is structurally well-formed when at least one line is retained and
/// the retained lines divide evenly into groups of four.
pub open spec fn structure_ok(retained: Seq<Seq<char>>) -> bool {
    retained.len() > 0 && retained.len() % 4 == 0
}

/// How many four-line records the retained lines form.
pub open spec fn num_records(retained: Seq<Seq<char>>) -> int {
    retained.len() as int / 4
}

/// The header line of the record at 0-based index `i`.
pub open spec fn header_at(retained: Seq<Seq<char>>, i: int) -> Seq<char> {
    retained[4 * i]
}

/// The sequence line of the record at 0-based index `i`.
pub open spec fn sequence_at(retained: Seq<Seq<char>>, i: int) -> Seq<char> {
    retained[4 * i + 1]
}

/// The quality line of the record at 0-based index `i`.
pub open spec fn quality_at(retained: Seq<Seq<char>>, i: int) -> Seq<char> {
    retained[4 * i + 3]
}

/// The extracted records match the retained lines positionally.
pub open spec fn records_match(records: Seq<Record>, retained: Seq<Seq<char>>) -> bool {
    &&& records.len() == num_records(retained)
    &&& forall|i: int|
        0 <= i < records.len() ==> {
            &&& (#[trigger] records[i]).header@ == header_at(retained, i)
            &&& records[i].sequence@ == sequence_at(retained, i)
            &&& records[i].separator@ == retained[4 * i + 2]
            &&& records[i].quality@ == quality_at(retained, i)
        }
}

fn is_blank_string(l: &String) -> (r: bool)
    ensures
        r == is_blank_line(l@),
{
    let s = l.as_str();
    let n: usize = s.unicode_len();
    let mut i: usize = 0;
    while i < n
        invariant
            n == l@.len(),
            0 <= i <= n,
            s@ == l@,
            forall|j: int| 0 <= j < i ==> crate::chars::is_space_char(#[trigger] l@[j]),
        decreases n - i,
    {
        if !exec_is_space_char(s.get_char(i)) {
            return false;
        }
        i += 1;
    }
    true
}

/// Filters out the blank lines, keeping file order.
fn keep_non_blank(lines: &Vec<String>) -> (kept: Vec<String>)
    ensures
        line_views(kept@) == retained_lines(line_views(lines@)),
{
    let mut kept: Vec<String> = Vec::new();
    let mut i: usize = 0;
    proof {
        assert(line_views(lines@).take(0) =~= Seq::<Seq<char>>::empty());
        assert(line_views(kept@) =~= retained_lines(line_views(lines@).take(0)));
    }
    while i < lines.len()
        invariant
            0 <= i <= lines@.len(),
            line_views(kept@) =~= retained_lines(line_views(lines@).take(i as int)),
        decreases lines@.len() - i,
    {
        let ghost pre = line_views(lines@).take(i as int);
        let ghost post = line_views(lines@).take(i + 1);
        proof {
            assert(post.drop_last() =~= pre);
            assert(post.last() == lines@[i as int]@);
            reveal_with_fuel(Seq::filter, 2);
        }
        if !is_blank_string(&lines[i]) {
            let ghost old_kept = kept@;
            kept.push(lines[i].clone());
            proof {
                assert(line_views(kept@) =~= line_views(old_kept).push(lines@[i as int]@));
                assert(retained_lines(post) =~= retained_lines(pre).push(lines@[i as int]@));
            }
        } else {
            proof {
                assert(retained_lines(post) =~= retained_lines(pre));
            }
        }
        i += 1;
    }
    proof {
        assert(line_views(lines@).take(lines@.len() as int) =~= line_views(lines@));
    }
    kept
}

/// Groups the lines into records of four. Callers pass the retained
/// (non-blank) lines of the file; the length must divide evenly.
fn group_records(kept: &Vec<String>) -> (records: Vec<Record>)
    requires
        kept@.len() % 4 == 0,
    ensures
        records_match(records@, line_views(kept@)),
{
    let len: usize = kept.len();
    let n: usize = len / 4;
    let mut records: Vec<Record> = Vec::new();
    let mut g: usize = 0;
    while g < n
        invariant
            len == kept@.len(),
            n == kept@.len() / 4,
            kept@.len() % 4 == 0,
            0 <= g <= n,
            records@.len() == g,
            forall|i: int|
                0 <= i < g ==> {
                    &&& (#[trigger] records@[i]).header@ == kept@[4 * i]@
                    &&& records@[i].sequence@ == kept@[4 * i + 1]@
                    &&& records@[i].separator@ == kept@[4 * i + 2]@
                    &&& records@[i].quality@ == kept@[4 * i + 3]@
                },
        decreases n - g,
    {
        proof {
            assert(4 * (g as int) + 3 < kept@.len());
        }
        let base: usize = 4 * g;
        let rec = Record {
            header: kept[base].clone(),
            sequence: kept[base + 1].clone(),
            separator: kept[base + 2].clone(),
            quality: kept[base + 3].clone(),
        };
        records.push(rec);
        g += 1;
    }
    records
}

/// Turns the file's lines into four-line records, or reports the structural
/// defect: `EmptyFile` when no line is retained, `NotMultipleOfFour` (with
/// the retained line count) when the retained lines do not divide into
/// groups of four.
pub fn extract_records(lines: &Vec<String>) -> (r: Result<Vec<Record>, StructuralError>)
    ensures
        ({
            let retained = retained_lines(line_views(lines@));
            match r {
                Ok(records) => structure_ok(retained) && records_match(records@, retained),
                Err(StructuralError::EmptyFile) => retained.len() == 0,
                Err(StructuralError::NotMultipleOfFour { retained: n }) => retained.len() > 0
                    && retained.len() % 4 != 0 && n == retained.len(),
                Err(StructuralError::TruncatedRecord { .. }) => false,
            }
        }),
{
    let kept = keep_non_blank(lines);
    if kept.len() == 0 {
        return Err(StructuralError::EmptyFile);
    }
    if kept.len() % 4 != 0 {
        return Err(StructuralError::NotMultipleOfFour { retained: kept.len() });
    }
    let ghost retained = retained_lines(line_views(lines@));
    let records = group_records(&kept);
    proof {
        assert(records_match(records@, retained));
    }
    Ok(records)
}

} // verus!
