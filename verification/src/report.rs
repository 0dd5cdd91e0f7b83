//! The report formatter: the summary line, the non-canonical-base report
//! and the diagnostic message for each error, with their exact wording.
use vstd::prelude::*;
use crate::errors::ErrorView;
use crate::errors::RecordError;
use crate::record::StructuralError;
use crate::tally::Tally;
use crate::validate::Verdict;

verus! {

use vstd::string::StringExecFns;

/// The decimal digit characters.
pub open spec fn digit_char(d: nat) -> char {
    if d == 0 {
        '0'
    } else if d == 1 {
        '1'
    } else if d == 2 {
        '2'
    } else if d == 3 {
        '3'
    } else if d == 4 {
        '4'
    } else if d == 5 {
        '5'
    } else if d == 6 {
        '6'
    } else if d == 7 {
        '7'
    } else if d == 8 {
        '8'
    } else {
        '9'
    }
}

/// The decimal representation of `n`, most significant digit first, with no
/// leading zero except for zero itself.
pub open spec fn dec_rep(n: nat) -> Seq<char>
    decreases n,
{
    if n < 10 {
        seq![digit_char(n)]
    } else {
        dec_rep(n / 10).push(digit_char(n % 10))
    }
}

fn digit_str(d: u128) -> (s: &'static str)
    requires
        d < 10,
    ensures
        s@ == seq![digit_char(d as nat)],
{
    if d == 0 {
        proof {
            reveal_strlit("0");
            assert("0"@ =~= seq![digit_char(0)]);
        }
        "0"
    } else if d == 1 {
        proof {
            reveal_strlit("1");
            assert("1"@ =~= seq![digit_char(1)]);
        }
        "1"
    } else if d == 2 {
        proof {
            reveal_strlit("2");
            assert("2"@ =~= seq![digit_char(2)]);
        }
        "2"
    } else if d == 3 {
        proof {
            reveal_strlit("3");
            assert("3"@ =~= seq![digit_char(3)]);
        }
        "3"
    } else if d == 4 {
        proof {
            reveal_strlit("4");
            assert("4"@ =~= seq![digit_char(4)]);
        }
        "4"
    } else if d == 5 {
        proof {
            reveal_strlit("5");
            assert("5"@ =~= seq![digit_char(5)]);
        }
        "5"
    } else if d == 6 {
        proof {
            reveal_strlit("6");
            assert("6"@ =~= seq![digit_char(6)]);
        }
        "6"
    } else if d == 7 {
        proof {
            reveal_strlit("7");
            assert("7"@ =~= seq![digit_char(7)]);
        }
        "7"
    } else if d == 8 {
        proof {
            reveal_strlit("8");
            assert("8"@ =~= seq![digit_char(8)]);
        }
        "8"
    } else {
        proof {
            reveal_strlit("9");
            assert("9"@ =~= seq![digit_char(9)]);
        }
        "9"
    }
}

/// Renders `n` in decimal.
pub fn u128_to_string(n: u128) -> (s: String)
    ensures
        s@ == dec_rep(n as nat),
    decreases n,
{
    if n < 10 {
        String::from_str(digit_str(n))
    } else {
        let mut s = u128_to_string(n / 10);
        s.append(digit_str(n % 10));
        proof {
            assert(s@ =~= dec_rep(n as nat / 10).push(digit_char(n as nat % 10)));
        }
        s
    }
}

/// Renders `n` in decimal.
pub fn usize_to_string(n: usize) -> (s: String)
    ensures
        s@ == dec_rep(n as nat),
{
    u128_to_string(n as u128)
}

/// Relies on `String::push` of std: appends exactly the one character.
#[verifier::external_body]
fn push_char(s: &mut String, c: char)
    ensures
        final(s)@ == old(s)@.push(c),
{
    s.push(c);
}

/// The one summary line every run prints.
pub open spec fn summary_line(v: Verdict) -> Seq<char> {
    if v == Verdict::Pass {
        "QC Result: PASS"@
    } else {
        "QC Result: FAIL"@
    }
}

pub fn render_summary(v: &Verdict) -> (s: String)
    ensures
        s@ == summary_line(*v),
{
    match v {
        Verdict::Pass => String::from_str("QC Result: PASS"),
        Verdict::Fail => String::from_str("QC Result: FAIL"),
    }
}

/// The diagnostic message for one record error.
pub open spec fn record_error_message(e: ErrorView) -> Seq<char> {
    match e {
        ErrorView::InvalidHeader { index, header } => "Invalid header line (record "@ + dec_rep(
            index,
        ) + "): "@ + header,
        ErrorView::DuplicateHeader { index, header } => "Duplicate header found (record "@
            + dec_rep(index) + "): "@ + header,
        ErrorView::LengthMismatch { index, seq_len, qual_len } => "Length mismatch (record "@
            + dec_rep(index) + "): seq = "@ + dec_rep(seq_len) + ", qual = "@ + dec_rep(qual_len),
        ErrorView::InvalidQualityChar { index, position, ch } => (
        "Invalid character in quality string (record "@ + dec_rep(index) + ", position "@ + dec_rep(
            position,
        ) + "): '"@ + seq![(ch as char)] + "'"@),
    }
}

pub fn render_record_error(e: &RecordError) -> (s: String)
    ensures
        s@ == record_error_message(e@),
{
    match e {
        RecordError::InvalidHeader { index, header } => {
            let mut s = String::from_str("Invalid header line (record ");
            let num = usize_to_string(*index);
            s.append(num.as_str());
            s.append("): ");
            s.append(header.as_str());
            proof {
                assert(s@ =~= record_error_message(e@));
            }
            s
        },
        RecordError::DuplicateHeader { index, header } => {
            let mut s = String::from_str("Duplicate header found (record ");
            let num = usize_to_string(*index);
            s.append(num.as_str());
            s.append("): ");
            s.append(header.as_str());
            proof {
                assert(s@ =~= record_error_message(e@));
            }
            s
        },
        RecordError::LengthMismatch { index, seq_len, qual_len } => {
            let mut s = String::from_str("Length mismatch (record ");
            let num = usize_to_string(*index);
            s.append(num.as_str());
            s.append("): seq = ");
            let sl = usize_to_string(*seq_len);
            s.append(sl.as_str());
            s.append(", qual = ");
            let ql = usize_to_string(*qual_len);
            s.append(ql.as_str());
            proof {
                assert(s@ =~= record_error_message(e@));
            }
            s
        },
        RecordError::InvalidQualityChar { index, position, ch } => {
            let mut s = String::from_str("Invalid character in quality string (record ");
            let num = usize_to_string(*index);
            s.append(num.as_str());
            s.append(", position ");
            let pos = usize_to_string(*position);
            s.append(pos.as_str());
            s.append("): '");
            push_char(&mut s, *ch);
            s.append("'");
            proof {
                vstd::utf8::char_u32_cast(*ch, *ch as u32);
                assert(s@ =~= record_error_message(e@));
            }
            s
        },
    }
}

/// The diagnostic message for a structural error.
pub open spec fn structural_error_message(e: StructuralError) -> Seq<char> {
    match e {
        StructuralError::EmptyFile => "FASTQ format error: empty file (no non-blank lines)"@,
        StructuralError::NotMultipleOfFour { retained } => "FASTQ format error: line count "@
            + dec_rep(retained as nat) + " is not a multiple of 4"@,
        StructuralError::TruncatedRecord { dangling } => (
        "FASTQ format error: incomplete record at end of file ("@ + dec_rep(dangling as nat)
            + " extra lines)"@),
    }
}

pub fn render_structural_error(e: &StructuralError) -> (s: String)
    ensures
        s@ == structural_error_message(*e),
{
    match e {
        StructuralError::EmptyFile => String::from_str(
            "FASTQ format error: empty file (no non-blank lines)",
        ),
        StructuralError::NotMultipleOfFour { retained } => {
            let mut s = String::from_str("FASTQ format error: line count ");
            let num = usize_to_string(*retained);
            s.append(num.as_str());
            s.append(" is not a multiple of 4");
            proof {
                assert(s@ =~= structural_error_message(*e));
            }
            s
        },
        StructuralError::TruncatedRecord { dangling } => {
            let mut s = String::from_str("FASTQ format error: incomplete record at end of file (");
            let num = usize_to_string(*dangling);
            s.append(num.as_str());
            s.append(" extra lines)");
            proof {
                assert(s@ =~= structural_error_message(*e));
            }
            s
        },
    }
}

/// One line of the non-canonical-base report.
pub open spec fn tally_line(entry: (char, u128)) -> Seq<char> {
    "  "@ + seq![entry.0] + ": "@ + dec_rep(entry.1 as nat)
}

/// The detail block: a histogram header and one line per distinct
/// non-canonical character, or the all-canonical statement when the tally is
/// empty.
pub open spec fn tally_report_lines(entries: Seq<(char, u128)>) -> Seq<Seq<char>> {
    if entries.len() == 0 {
        seq!["All bases are A, T, G, or C."@]
    } else {
        seq!["Non-ATGC base report:"@] + entries.map_values(|e: (char, u128)| tally_line(e))
    }
}

pub fn render_tally_report(t: &Tally) -> (lines: Vec<String>)
    requires
        t.wf(),
    ensures
        lines@.map_values(|l: String| l@) == tally_report_lines(t.spec_entries()),
{
    let entries = t.entries();
    let mut lines: Vec<String> = Vec::new();
    if entries.len() == 0 {
        lines.push(String::from_str("All bases are A, T, G, or C."));
        proof {
            assert(lines@.map_values(|l: String| l@) =~= tally_report_lines(t.spec_entries()));
        }
        return lines;
    }
    lines.push(String::from_str("Non-ATGC base report:"));
    let n: usize = entries.len();
    let mut i: usize = 0;
    while i < n
        invariant
            n == entries@.len(),
            entries@ == t.spec_entries(),
            entries@.len() > 0,
            0 <= i <= n,
            lines@.len() == 1 + i,
            lines@[0]@ == "Non-ATGC base report:"@,
            forall|k: int| 1 <= k <= i ==> (#[trigger] lines@[k])@ == tally_line(entries@[k - 1]),
        decreases n - i,
    {
        let (c, count) = entries[i];
        let mut s = String::from_str("  ");
        push_char(&mut s, c);
        s.append(": ");
        let num = u128_to_string(count);
        s.append(num.as_str());
        proof {
            assert(s@ =~= tally_line(entries@[i as int]));
        }
        lines.push(s);
        i += 1;
    }
    proof {
        assert(lines@.map_values(|l: String| l@) =~= tally_report_lines(t.spec_entries()));
    }
    lines
}

} // verus!
