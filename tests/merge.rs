use rustdown::merge::{diff_edits, edits_overlap, merge_edits, merge_three_way, Edit, MergeOutcome};

fn lines(v: &[&str]) -> Vec<String> {
    v.iter().map(|s| s.to_string()).collect()
}

#[test]
fn identical_ours_and_theirs_returns_clean() {
    let result = merge_three_way("a\n", "b\n", "b\n");
    assert_eq!(result, MergeOutcome::Clean("b\n".to_owned()));
}

#[test]
fn only_ours_changed_returns_ours() {
    let result = merge_three_way("a\n", "b\n", "a\n");
    assert_eq!(result, MergeOutcome::Clean("b\n".to_owned()));
}

#[test]
fn only_theirs_changed_returns_theirs() {
    let result = merge_three_way("a\n", "a\n", "c\n");
    assert_eq!(result, MergeOutcome::Clean("c\n".to_owned()));
}

#[test]
fn non_overlapping_edits_merge_cleanly() {
    let base = "line1\nline2\nline3\n";
    let ours = "LINE1\nline2\nline3\n";
    let theirs = "line1\nline2\nLINE3\n";
    let result = merge_three_way(base, ours, theirs);
    assert_eq!(result, MergeOutcome::Clean("LINE1\nline2\nLINE3\n".to_owned()));
}

#[test]
fn overlapping_edits_produce_conflict() {
    let base = "a\nb\n";
    let ours = "a\nO\n";
    let theirs = "a\nT\n";
    let result = merge_three_way(base, ours, theirs);
    match result {
        MergeOutcome::Conflicted { conflict_marked, ours_wins } => {
            assert!(conflict_marked.contains("<<<<<<< ours"));
            assert!(conflict_marked.contains("O\n"));
            assert!(conflict_marked.contains("T\n"));
            assert!(conflict_marked.contains(">>>>>>> theirs"));
            assert_eq!(ours_wins, "a\nO\n");
        }
        MergeOutcome::Clean(_) => panic!("Expected conflict"),
    }
}

#[test]
fn identical_overlapping_edits_are_not_conflicts() {
    let base = "a\nb\nc\n";
    let ours = "a\nX\nc\n";
    let theirs = "a\nX\nc\n";
    let result = merge_three_way(base, ours, theirs);
    assert_eq!(result, MergeOutcome::Clean("a\nX\nc\n".to_owned()));
}

#[test]
fn empty_base_with_different_additions_conflicts() {
    let result = merge_three_way("", "hello\n", "world\n");
    match result {
        MergeOutcome::Conflicted { conflict_marked, .. } => {
            assert!(conflict_marked.contains("<<<<<<< ours"));
        }
        MergeOutcome::Clean(_) => panic!("Expected conflict"),
    }
}

#[test]
fn all_identical_returns_clean() {
    let text = "same\n";
    let result = merge_three_way(text, text, text);
    assert_eq!(result, MergeOutcome::Clean(text.to_owned()));
}

#[test]
fn multi_line_non_overlapping_merge() {
    let base = "a\nb\nc\nd\ne\n";
    let ours = "A\nb\nc\nd\ne\n";
    let theirs = "a\nb\nc\nd\nE\n";
    let result = merge_three_way(base, ours, theirs);
    assert_eq!(result, MergeOutcome::Clean("A\nb\nc\nd\nE\n".to_owned()));
}

#[test]
fn diff_edits_detects_single_line_change() {
    let edits = diff_edits("a\nb\nc\n", "a\nX\nc\n");
    assert_eq!(edits.len(), 1);
    assert_eq!(edits[0].base_start, 1);
    assert_eq!(edits[0].base_end, 2);
    assert_eq!(edits[0].replacement, vec!["X\n"]);
}

#[test]
fn diff_edits_detects_insertion() {
    let edits = diff_edits("a\nc\n", "a\nb\nc\n");
    assert_eq!(edits.len(), 1);
    assert_eq!(edits[0].base_start, 1);
    assert_eq!(edits[0].base_end, 1);
    assert_eq!(edits[0].replacement, vec!["b\n"]);
}

#[test]
fn diff_edits_detects_deletion() {
    let edits = diff_edits("a\nb\nc\n", "a\nc\n");
    assert_eq!(edits.len(), 1);
    assert_eq!(edits[0].base_start, 1);
    assert_eq!(edits[0].base_end, 2);
    assert!(edits[0].replacement.is_empty());
}

#[test]
fn edits_overlap_pure_insertions_at_same_point() {
    let a = Edit { base_start: 2, base_end: 2, replacement: lines(&["x\n"]) };
    let b = Edit { base_start: 2, base_end: 2, replacement: lines(&["y\n"]) };
    assert!(edits_overlap(&a, &b));
}

#[test]
fn edits_overlap_non_overlapping_ranges() {
    let a = Edit { base_start: 0, base_end: 1, replacement: lines(&["x\n"]) };
    let b = Edit { base_start: 2, base_end: 3, replacement: lines(&["y\n"]) };
    assert!(!edits_overlap(&a, &b));
}

#[test]
fn edits_overlap_adjacent_ranges_do_not_overlap() {
    let a = Edit { base_start: 0, base_end: 2, replacement: lines(&["x\n"]) };
    let b = Edit { base_start: 2, base_end: 4, replacement: lines(&["y\n"]) };
    assert!(!edits_overlap(&a, &b));
}

#[test]
fn edits_overlap_partial_overlap() {
    let a = Edit { base_start: 0, base_end: 3, replacement: lines(&["x\n"]) };
    let b = Edit { base_start: 2, base_end: 5, replacement: lines(&["y\n"]) };
    assert!(edits_overlap(&a, &b));
}

#[test]
fn merge_of_equal_sides_ignores_the_base() {
    assert_eq!(
        merge_three_way("anything\n", "x\ny\n", "x\ny\n"),
        MergeOutcome::Clean("x\ny\n".to_owned())
    );
}

#[test]
fn overlapping_conflict_marks_exact_block() {
    let result = merge_three_way("a\nb\n", "a\nO\n", "a\nT\n");
    assert_eq!(
        result,
        MergeOutcome::Conflicted {
            conflict_marked: "a\n<<<<<<< ours\nO\n=======\nT\n>>>>>>> theirs\n".to_owned(),
            ours_wins: "a\nO\n".to_owned(),
        }
    );
}

#[test]
fn conflict_block_adds_missing_newlines() {
    let result = merge_three_way("a\nb", "a\nO", "a\nT");
    assert_eq!(
        result,
        MergeOutcome::Conflicted {
            conflict_marked: "a\n<<<<<<< ours\nO\n=======\nT\n>>>>>>> theirs\n".to_owned(),
            ours_wins: "a\nO".to_owned(),
        }
    );
}

#[test]
fn empty_base_conflict_has_exact_markers() {
    let result = merge_three_way("", "hello\n", "world\n");
    assert_eq!(
        result,
        MergeOutcome::Conflicted {
            conflict_marked: "<<<<<<< ours\nhello\n=======\nworld\n>>>>>>> theirs\n".to_owned(),
            ours_wins: "hello\n".to_owned(),
        }
    );
}

#[test]
fn too_many_lines_gives_whole_file_conflict() {
    let base: String = "x\n".repeat(20_001);
    let ours = format!("{base}ours");
    let theirs = format!("{base}theirs");
    match merge_three_way(&base, &ours, &theirs) {
        MergeOutcome::Conflicted { conflict_marked, ours_wins } => {
            assert_eq!(ours_wins, ours);
            assert_eq!(
                conflict_marked,
                format!("<<<<<<< ours\n{ours}\n=======\n{theirs}\n>>>>>>> theirs\n")
            );
        }
        MergeOutcome::Clean(_) => panic!("Expected conflict"),
    }
}

#[test]
fn merge_edits_applies_both_sides_in_order() {
    let base = lines(&["a\n", "b\n", "c\n"]);
    let ours = vec![Edit { base_start: 0, base_end: 1, replacement: lines(&["A\n"]) }];
    let theirs = vec![Edit { base_start: 3, base_end: 3, replacement: lines(&["d\n"]) }];
    assert_eq!(
        merge_edits(&base, &ours, &theirs),
        MergeOutcome::Clean("A\nb\nc\nd\n".to_owned())
    );
}

#[test]
fn merge_edits_groups_chained_overlaps() {
    let base = lines(&["1\n", "2\n", "3\n", "4\n"]);
    let ours = vec![
        Edit { base_start: 0, base_end: 2, replacement: lines(&["o\n"]) },
        Edit { base_start: 2, base_end: 4, replacement: lines(&["p\n"]) },
    ];
    let theirs = vec![Edit { base_start: 1, base_end: 3, replacement: lines(&["t\n"]) }];
    assert_eq!(
        merge_edits(&base, &ours, &theirs),
        MergeOutcome::Conflicted {
            conflict_marked: "<<<<<<< ours\no\np\n=======\n1\nt\n4\n>>>>>>> theirs\n".to_owned(),
            ours_wins: "o\np\n".to_owned(),
        }
    );
}

#[test]
fn diff_edits_rebuild_the_other_text() {
    let base = "a\nb\nc\nd\n";
    let other = "a\nB\nc\nd\ne\n";
    let edits = diff_edits(base, other);
    let base_lines = lines(&["a\n", "b\n", "c\n", "d\n"]);
    let rebuilt = rustdown::merge::render_range_with_edits(&base_lines, 0, 4, &edits, 0, edits.len());
    assert_eq!(rebuilt, other);
    assert!(diff_edits(base, base).is_empty());
}
