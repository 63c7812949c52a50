use mirror_blame::{count_lines, expand_hunks, BlameHunk, EngineError};

fn hunk(commit: &str, path: Option<&str>, orig: usize, fin: usize, n: usize) -> BlameHunk {
    BlameHunk {
        orig_commit_id: commit.to_string(),
        path: path.map(|p| p.to_string()),
        orig_start_line: orig,
        final_start_line: fin,
        lines_in_hunk: n,
    }
}

#[test]
fn counts_lines_of_content() {
    assert_eq!(count_lines(&b"".to_vec()), 0);
    assert_eq!(count_lines(&b"\n".to_vec()), 1);
    assert_eq!(count_lines(&b"a\nb\nc\n".to_vec()), 3);
    assert_eq!(count_lines(&b"a\nb\nc".to_vec()), 3);
    assert_eq!(count_lines(&b"a\n\nb".to_vec()), 3);
}

#[test]
fn expands_hunks_in_order() {
    let hunks = vec![hunk("c1", Some("old.txt"), 10, 1, 2), hunk("c2", Some("new.txt"), 3, 3, 1)];
    let lines = expand_hunks(&hunks, 3).ok().unwrap();
    assert_eq!(lines.len(), 3);
    assert_eq!(lines[0].original_commit, "c1");
    assert_eq!(lines[0].original_file_path, "old.txt");
    assert_eq!(lines[0].original_line_number, 10);
    assert_eq!(lines[1].original_line_number, 11);
    assert_eq!(lines[2].original_commit, "c2");
    assert_eq!(lines[2].original_file_path, "new.txt");
    assert_eq!(lines[2].original_line_number, 3);
}

#[test]
fn line_count_mismatch_fails() {
    let hunks = vec![hunk("c1", Some("f"), 1, 1, 2)];
    assert!(matches!(expand_hunks(&hunks, 3), Err(EngineError::BlameFailed)));
    assert!(matches!(expand_hunks(&hunks, 1), Err(EngineError::BlameFailed)));
    assert_eq!(expand_hunks(&hunks, 2).ok().unwrap().len(), 2);
}

#[test]
fn missing_path_fails() {
    let hunks = vec![hunk("c1", Some("f"), 1, 1, 1), hunk("c2", None, 2, 2, 1)];
    assert!(matches!(expand_hunks(&hunks, 2), Err(EngineError::BlameFailed)));
}

#[test]
fn gap_or_overlap_fails() {
    let gap = vec![hunk("c1", Some("f"), 1, 1, 1), hunk("c2", Some("f"), 2, 3, 1)];
    assert!(matches!(expand_hunks(&gap, 2), Err(EngineError::BlameFailed)));
    let overlap = vec![hunk("c1", Some("f"), 1, 1, 2), hunk("c2", Some("f"), 2, 2, 1)];
    assert!(matches!(expand_hunks(&overlap, 2), Err(EngineError::BlameFailed)));
}

#[test]
fn empty_file_has_no_lines() {
    assert_eq!(expand_hunks(&Vec::new(), 0).ok().unwrap().len(), 0);
}

#[test]
fn line_number_beyond_i32_fails() {
    let hunks = vec![hunk("c1", Some("f"), 2147483647, 1, 2)];
    assert!(matches!(expand_hunks(&hunks, 2), Err(EngineError::BlameFailed)));
    let last = vec![hunk("c1", Some("f"), 2147483647, 1, 1)];
    assert_eq!(expand_hunks(&last, 1).ok().unwrap()[0].original_line_number, 2147483647);
}

#[test]
fn original_line_zero_fails() {
    let hunks = vec![hunk("c1", Some("f"), 0, 1, 1)];
    assert!(matches!(expand_hunks(&hunks, 1), Err(EngineError::BlameFailed)));
    let lines = expand_hunks(&vec![hunk("c1", Some("f"), 1, 1, 1)], 1).ok().unwrap();
    assert_eq!(lines[0].original_line_number, 1);
}
