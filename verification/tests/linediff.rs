use gmap::linediff::{compute_line_diff, line_diff};

fn lines(items: &[&str]) -> Vec<Vec<u8>> {
    items.iter().map(|l| l.as_bytes().to_vec()).collect()
}

#[test]
fn equal_sequences_have_no_changes() {
    assert_eq!(line_diff(&lines(&["a", "b", "c"]), &lines(&["a", "b", "c"])), (0, 0));
    assert_eq!(line_diff(&lines(&[]), &lines(&[])), (0, 0));
}

#[test]
fn changed_line_counts_as_substitution() {
    assert_eq!(line_diff(&lines(&["a", "b", "c"]), &lines(&["a", "x", "c"])), (1, 1));
}

#[test]
fn lookahead_finds_deleted_line() {
    assert_eq!(line_diff(&lines(&["a", "b", "c"]), &lines(&["a", "c"])), (0, 1));
}

#[test]
fn lookahead_finds_inserted_line() {
    assert_eq!(line_diff(&lines(&["a", "c"]), &lines(&["a", "b", "c"])), (1, 0));
}

#[test]
fn exhausted_side_counts_the_rest_of_the_other() {
    assert_eq!(line_diff(&lines(&[]), &lines(&["x", "y"])), (2, 0));
    assert_eq!(line_diff(&lines(&["x", "y"]), &lines(&[])), (0, 2));
    assert_eq!(line_diff(&lines(&["a"]), &lines(&["a", "x", "y"])), (2, 0));
}

#[test]
fn lookahead_reaches_three_lines_and_no_further() {
    assert_eq!(
        line_diff(&lines(&["a", "1", "2", "3", "z"]), &lines(&["a", "z"])),
        (0, 3)
    );
    // Four lines are out of reach: one substitution, then "z" is found two ahead.
    assert_eq!(
        line_diff(&lines(&["a", "1", "2", "3", "4", "z"]), &lines(&["a", "z"])),
        (1, 5)
    );
}

#[test]
fn deletion_is_looked_for_before_insertion() {
    // "a" against "b": "b" stands two old lines ahead, and "a" one new line
    // ahead. The deletion is taken: "a" and "x" are deleted, "b" matches, and
    // the three new lines that are left are added.
    assert_eq!(line_diff(&lines(&["a", "x", "b"]), &lines(&["b", "a", "x", "b"])), (3, 2));
    assert_eq!(line_diff(&lines(&["a", "x", "b"]), &lines(&["b", "a"])), (1, 2));
}

#[test]
fn insertion_is_found_when_no_deletion_matches() {
    assert_eq!(line_diff(&lines(&["a", "b"]), &lines(&["x", "y", "a", "b"])), (2, 0));
    assert_eq!(line_diff(&lines(&["a", "b"]), &lines(&["1", "2", "3", "a", "b"])), (3, 0));
    // Four new lines are out of reach: "a" and "b" are substituted, and the
    // four new lines that are left are added.
    assert_eq!(line_diff(&lines(&["a", "b"]), &lines(&["1", "2", "3", "4", "a", "b"])), (6, 2));
}

#[test]
fn deletion_wins_over_insertion_at_the_same_distance() {
    // "p" against "q": old[1] is "q" (deletion at 1) and new[1] is "p" (insertion at 1).
    assert_eq!(line_diff(&lines(&["p", "q"]), &lines(&["q", "p"])), (1, 1));
    // With the insertion taken first the result would be (2, 1).
    assert_eq!(line_diff(&lines(&["p", "q", "s"]), &lines(&["q", "p", "t"])), (2, 2));
}

#[test]
fn blobs_are_diffed_by_their_lines() {
    assert_eq!(compute_line_diff(b"a\nb\nc\n", b"a\nx\nc\n"), (1, 1));
    assert_eq!(compute_line_diff(b"a\nb\nc\n", b"a\nc\n"), (0, 1));
    assert_eq!(compute_line_diff(b"", b"x\ny\n"), (2, 0));
    assert_eq!(compute_line_diff(b"x\ny", b""), (0, 2));
    assert_eq!(compute_line_diff(b"a\r\nb\r\n", b"a\nb\n"), (0, 0));
}

#[test]
fn invalid_utf8_is_diffed_as_empty_text() {
    assert_eq!(compute_line_diff(&[0xff, b'\n'], b"a\nb\n"), (2, 0));
    assert_eq!(compute_line_diff(b"a\nb\n", &[0xff, b'\n']), (0, 2));
    assert_eq!(compute_line_diff(&[0xff], &[0xfe]), (0, 0));
}
