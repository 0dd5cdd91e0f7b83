use seqguard::RecordError;
use seqguard::StructuralError;
use seqguard::Verdict;
use seqguard::render_record_error;
use seqguard::render_structural_error;
use seqguard::render_summary;
use seqguard::render_tally_report;
use seqguard::validate_lines;

fn lines(v: &[&str]) -> Vec<String> {
    v.iter().map(|s| s.to_string()).collect()
}

#[test]
fn test_normal_fastq() {
    let input = lines(&["@r1", "ACGT", "+", "IIII", "@r2", "TTGCA", "+", "IIIII"]);
    let report = validate_lines(&input);
    assert_eq!(render_summary(&report.verdict), "QC Result: PASS");
    assert!(report.record_errors.is_empty());
}

#[test]
fn test_duplicate_header() {
    let input = lines(&["@r1", "ACGT", "+", "IIII", "@r1", "TTGC", "+", "IIII"]);
    let report = validate_lines(&input);
    assert_eq!(render_summary(&report.verdict), "QC Result: FAIL");
    assert_eq!(report.record_errors.len(), 1);
    let msg = render_record_error(&report.record_errors[0]);
    assert_eq!(msg, "Duplicate header found (record 2): @r1");
}

#[test]
fn test_invalid_format() {
    // Five non-blank lines: not a multiple of four.
    let input = lines(&["@r1", "ACGT", "+", "IIII", "@r2"]);
    let report = validate_lines(&input);
    assert_eq!(render_summary(&report.verdict), "QC Result: FAIL");
    assert!(matches!(
        report.structural,
        Some(StructuralError::NotMultipleOfFour { retained: 5 })
    ));
    // No record is evaluated against the rule set.
    assert!(report.record_errors.is_empty());
    assert!(report.tally.entries().is_empty());
}

#[test]
fn test_invalid_qv() {
    // A space (ASCII 32) lies below the accepted quality range.
    let input = lines(&["@r1", "ACGT", "+", "II I"]);
    let report = validate_lines(&input);
    assert_eq!(render_summary(&report.verdict), "QC Result: FAIL");
    assert_eq!(report.record_errors.len(), 1);
    let msg = render_record_error(&report.record_errors[0]);
    assert_eq!(
        msg,
        "Invalid character in quality string (record 1, position 3): ' '"
    );
}

#[test]
fn test_mismatch_len() {
    let input = lines(&["@r1", "ACGT", "+", "III"]);
    let report = validate_lines(&input);
    assert_eq!(render_summary(&report.verdict), "QC Result: FAIL");
    assert_eq!(report.record_errors.len(), 1);
    let msg = render_record_error(&report.record_errors[0]);
    assert_eq!(msg, "Length mismatch (record 1): seq = 4, qual = 3");
}

#[test]
fn test_non_atgc() {
    let input = lines(&["@r1", "ACGN", "+", "IIII"]);
    let report = validate_lines(&input);
    assert_eq!(render_summary(&report.verdict), "QC Result: PASS");
    let entries = report.tally.entries();
    assert_eq!(entries, vec![('N', 1u128)]);
}

#[test]
fn single_clean_record_passes_with_empty_tally() {
    let input = lines(&["@r1", "ACGT", "+", "IIII"]);
    let report = validate_lines(&input);
    assert_eq!(render_summary(&report.verdict), "QC Result: PASS");
    assert!(report.structural.is_none());
    assert!(report.record_errors.is_empty());
    let detail = render_tally_report(&report.tally);
    assert_eq!(detail, vec!["All bases are A, T, G, or C.".to_string()]);
}

#[test]
fn empty_file_fails() {
    let report = validate_lines(&Vec::new());
    assert_eq!(render_summary(&report.verdict), "QC Result: FAIL");
    assert!(matches!(&report.structural, Some(StructuralError::EmptyFile)));
    let msg = render_structural_error(report.structural.as_ref().unwrap());
    assert_eq!(msg, "FASTQ format error: empty file (no non-blank lines)");
}

#[test]
fn whitespace_only_lines_count_as_empty_file() {
    let input = lines(&["", "   ", "\t"]);
    let report = validate_lines(&input);
    assert_eq!(render_summary(&report.verdict), "QC Result: FAIL");
    assert!(matches!(report.structural, Some(StructuralError::EmptyFile)));
}

#[test]
fn blank_lines_between_records_are_ignored() {
    let input = lines(&["@r1", "ACGT", "+", "IIII", "", "  ", "@r2", "ACGT", "+", "IIII", ""]);
    let report = validate_lines(&input);
    assert_eq!(render_summary(&report.verdict), "QC Result: PASS");
}

#[test]
fn caret_header_is_accepted() {
    let input = lines(&[">r1", "ACGT", "+", "IIII"]);
    let report = validate_lines(&input);
    assert_eq!(render_summary(&report.verdict), "QC Result: PASS");
}

#[test]
fn invalid_header_is_reported() {
    let input = lines(&["r1", "ACGT", "+", "IIII"]);
    let report = validate_lines(&input);
    assert_eq!(render_summary(&report.verdict), "QC Result: FAIL");
    assert_eq!(report.record_errors.len(), 1);
    let msg = render_record_error(&report.record_errors[0]);
    assert_eq!(msg, "Invalid header line (record 1): r1");
}

#[test]
fn all_quality_violations_are_reported_with_positions() {
    // Positions 1 and 4 are out of range; both must be reported.
    let input = lines(&["@r1", "ACGT", "+", " II "]);
    let report = validate_lines(&input);
    assert_eq!(render_summary(&report.verdict), "QC Result: FAIL");
    assert_eq!(report.record_errors.len(), 2);
    let positions: Vec<usize> = report
        .record_errors
        .iter()
        .map(|e| match e {
            RecordError::InvalidQualityChar { position, .. } => *position,
            _ => panic!("expected a quality diagnostic"),
        })
        .collect();
    assert_eq!(positions, vec![1, 4]);
}

#[test]
fn quality_range_bounds_are_inclusive() {
    // '!' is 33 and '~' is 126: both ends of the range are accepted.
    let input = lines(&["@r1", "ACGT", "+", "!~!~"]);
    let report = validate_lines(&input);
    assert_eq!(render_summary(&report.verdict), "QC Result: PASS");
}

#[test]
fn tally_counts_are_case_insensitive_and_exact() {
    let input = lines(&[
        "@r1", "acgn", "+", "IIII", "@r2", "NnXa", "+", "IIII",
    ]);
    let report = validate_lines(&input);
    assert_eq!(render_summary(&report.verdict), "QC Result: PASS");
    let entries = report.tally.entries();
    assert_eq!(entries, vec![('N', 3u128), ('X', 1u128)]);
    let detail = render_tally_report(&report.tally);
    assert_eq!(detail[0], "Non-ATGC base report:");
    assert_eq!(detail[1], "  N: 3");
    assert_eq!(detail[2], "  X: 1");
}

#[test]
fn non_canonical_bases_never_affect_the_verdict() {
    let canonical = lines(&["@r1", "ACGT", "+", "IIII"]);
    let odd = lines(&["@r1", "NNNN", "+", "IIII"]);
    let report_canonical = validate_lines(&canonical);
    let report_odd = validate_lines(&odd);
    assert_eq!(report_canonical.verdict, report_odd.verdict);
    assert_eq!(report_odd.verdict, Verdict::Pass);
}

#[test]
fn validation_is_idempotent() {
    let input = lines(&["@r1", "ACGN", "+", "III", "@r1", "acgt", "+", "IIII"]);
    let first = validate_lines(&input);
    let second = validate_lines(&input);
    assert_eq!(first.verdict, second.verdict);
    assert_eq!(first.tally.entries(), second.tally.entries());
    let msgs1: Vec<String> = first.record_errors.iter().map(render_record_error).collect();
    let msgs2: Vec<String> = second.record_errors.iter().map(render_record_error).collect();
    assert_eq!(msgs1, msgs2);
}

#[test]
fn duplicate_is_flagged_even_after_failed_header_check() {
    // The second record's header is also duplicated by the third; the
    // duplicate check runs on every record whatever the other rules said.
    let input = lines(&[
        "@r1", "ACGT", "+", "IIII", "r2", "ACGT", "+", "IIII", "r2", "ACGT", "+", "IIII",
    ]);
    let report = validate_lines(&input);
    assert_eq!(render_summary(&report.verdict), "QC Result: FAIL");
    let msgs: Vec<String> = report.record_errors.iter().map(render_record_error).collect();
    assert_eq!(
        msgs,
        vec![
            "Invalid header line (record 2): r2".to_string(),
            "Invalid header line (record 3): r2".to_string(),
            "Duplicate header found (record 3): r2".to_string(),
        ]
    );
}

#[test]
fn multi_digit_record_indices_render_exactly() {
    let mut v: Vec<&str> = Vec::new();
    let mut owned: Vec<String> = Vec::new();
    for i in 0..12 {
        owned.push(format!("@r{}", i));
    }
    for i in 0..12 {
        v.push(&owned[i]);
        v.push("ACGT");
        v.push("+");
        if i == 11 {
            v.push("III");
        } else {
            v.push("IIII");
        }
    }
    let report = validate_lines(&lines(&v));
    assert_eq!(report.record_errors.len(), 1);
    let msg = render_record_error(&report.record_errors[0]);
    assert_eq!(msg, "Length mismatch (record 12): seq = 4, qual = 3");
}

#[test]
fn structural_error_messages_render_exactly() {
    let not_mult = StructuralError::NotMultipleOfFour { retained: 7 };
    assert_eq!(
        render_structural_error(&not_mult),
        "FASTQ format error: line count 7 is not a multiple of 4"
    );
    let truncated = StructuralError::TruncatedRecord { dangling: 3 };
    assert_eq!(
        render_structural_error(&truncated),
        "FASTQ format error: incomplete record at end of file (3 extra lines)"
    );
}

#[test]
fn extract_records_assigns_lines_positionally() {
    let input = lines(&["@r1", "ACGT", "+sep", "IIII"]);
    let records = seqguard::extract_records(&input).unwrap();
    assert_eq!(records.len(), 1);
    assert_eq!(records[0].header, "@r1");
    assert_eq!(records[0].sequence, "ACGT");
    assert_eq!(records[0].separator, "+sep");
    assert_eq!(records[0].quality, "IIII");
}

#[test]
fn check_non_atgc_counts_into_the_tally() {
    let mut tally = seqguard::Tally::new();
    let passed = seqguard::check_non_atgc(&"AcGnXn".to_string(), &mut tally);
    assert!(passed);
    assert_eq!(tally.entries(), vec![('N', 2u128), ('X', 1u128)]);
}

#[test]
fn check_header_accepts_only_marked_headers() {
    assert!(seqguard::check_header(&"@x".to_string()));
    assert!(seqguard::check_header(&">x".to_string()));
    assert!(!seqguard::check_header(&"x".to_string()));
    assert!(!seqguard::check_header(&"".to_string()));
}

#[test]
fn check_duplicate_header_tracks_seen_headers() {
    let mut seen = seqguard::HeaderSet::new();
    assert!(seqguard::check_duplicate_header(&"@a".to_string(), &mut seen));
    assert!(seqguard::check_duplicate_header(&"@b".to_string(), &mut seen));
    assert!(!seqguard::check_duplicate_header(&"@a".to_string(), &mut seen));
}

#[test]
fn check_sequence_length_compares_character_counts() {
    assert!(seqguard::check_sequence_length(
        &"ACGT".to_string(),
        &"IIII".to_string()
    ));
    assert!(!seqguard::check_sequence_length(
        &"ACGT".to_string(),
        &"III".to_string()
    ));
}

#[test]
fn check_quality_value_reports_every_violation() {
    let errs = seqguard::check_quality_value(1, &"I I".to_string());
    assert_eq!(errs.len(), 1);
    assert!(matches!(
        errs[0],
        RecordError::InvalidQualityChar { index: 1, position: 2, ch: ' ' }
    ));
    assert!(seqguard::check_quality_value(1, &"III".to_string()).is_empty());
}

#[test]
fn args_carry_the_input_path() {
    let args = seqguard::Args::new("reads.fastq.gz".to_string());
    assert_eq!(args.input, "reads.fastq.gz");
}
