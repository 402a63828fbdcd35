use gmap::diffstats::{compute_commit_stats, handle_change, Change};
use gmap::model::FileStats;

fn entry(f: &FileStats) -> (String, u32, u32, bool) {
    (f.path.clone(), f.added_lines, f.deleted_lines, f.is_binary)
}

fn resolve(change: Change, binary: bool) -> Vec<(String, u32, u32, bool)> {
    let mut files = Vec::new();
    handle_change(&change, binary, &mut files);
    files.iter().map(entry).collect()
}

fn addition(path: &str, blob: &[u8]) -> Change {
    Change::Addition { location: path.to_string(), blob: blob.to_vec() }
}

fn deletion(path: &str, blob: &[u8]) -> Change {
    Change::Deletion { location: path.to_string(), blob: blob.to_vec() }
}

fn modification(path: &str, old: &[u8], new: &[u8]) -> Change {
    Change::Modification {
        location: path.to_string(),
        previous_blob: old.to_vec(),
        blob: new.to_vec(),
    }
}

fn rewrite(from: &str, to: &str, old: &[u8], new: &[u8], copy: bool) -> Change {
    Change::Rewrite {
        source_location: from.to_string(),
        location: to.to_string(),
        source_blob: old.to_vec(),
        blob: new.to_vec(),
        copy,
    }
}

#[test]
fn addition_counts_lines_as_added() {
    assert_eq!(
        resolve(addition("src/a.rs", b"fn a(){}\n"), false),
        vec![("src/a.rs".to_string(), 1, 0, false)]
    );
    assert_eq!(resolve(addition("empty", b""), false), vec![("empty".to_string(), 0, 0, false)]);
}

#[test]
fn deletion_counts_lines_as_deleted() {
    assert_eq!(
        resolve(deletion("old.txt", b"a\nb\nc"), false),
        vec![("old.txt".to_string(), 0, 3, false)]
    );
}

#[test]
fn modification_counts_the_line_diff() {
    assert_eq!(
        resolve(modification("lib.rs", b"a\nb\nc\n", b"a\nx\nc\nd\n"), false),
        vec![("lib.rs".to_string(), 2, 1, false)]
    );
    assert_eq!(
        resolve(modification("lib.rs", b"a\nb\nc\n", b"a\nc\n"), true),
        vec![("lib.rs".to_string(), 0, 1, false)]
    );
}

#[test]
fn binary_changes_are_dropped_unless_asked_for() {
    assert_eq!(resolve(addition("img.png", b"\x89PNG\0\n"), false), vec![]);
    assert_eq!(resolve(deletion("img.png", b"\0"), false), vec![]);
    assert_eq!(resolve(modification("img.png", b"a\n", b"\0\n"), false), vec![]);
    assert_eq!(resolve(modification("img.png", b"\0\n", b"a\n"), false), vec![]);
    assert_eq!(resolve(rewrite("a", "b", b"\0", b"x\n", false), false), vec![]);
}

#[test]
fn binary_changes_asked_for_count_no_lines() {
    assert_eq!(
        resolve(addition("img.png", b"\x89PNG\0\nmore\n"), true),
        vec![("img.png".to_string(), 0, 0, true)]
    );
    assert_eq!(resolve(deletion("img.png", b"a\n\0"), true), vec![("img.png".to_string(), 0, 0, true)]);
    assert_eq!(
        resolve(modification("img.png", b"a\nb\n", b"\0\n"), true),
        vec![("img.png".to_string(), 0, 0, true)]
    );
    assert_eq!(
        resolve(rewrite("a", "b", b"x\ny\n", b"\0", true), true),
        vec![("a".to_string(), 0, 0, true), ("b".to_string(), 0, 0, true)]
    );
}

#[test]
fn rename_counts_deleted_lines_at_the_source() {
    // The diff of the two blobs is (2 added, 1 deleted).
    assert_eq!(
        resolve(rewrite("old.rs", "new.rs", b"a\nb\nc\n", b"a\nx\nc\nd\n", false), false),
        vec![("old.rs".to_string(), 0, 1, false), ("new.rs".to_string(), 0, 0, false)]
    );
}

#[test]
fn copy_counts_added_lines_at_the_destination() {
    assert_eq!(
        resolve(rewrite("old.rs", "new.rs", b"a\nb\nc\n", b"a\nx\nc\nd\n", true), false),
        vec![("old.rs".to_string(), 0, 0, false), ("new.rs".to_string(), 2, 0, false)]
    );
}

#[test]
fn handle_change_appends_to_the_entries_already_there() {
    let mut files = Vec::new();
    handle_change(&addition("one", b"1\n"), false, &mut files);
    handle_change(&addition("bin", b"\0"), false, &mut files);
    handle_change(&deletion("two", b"1\n2\n"), false, &mut files);
    let got: Vec<_> = files.iter().map(entry).collect();
    assert_eq!(got, vec![("one".to_string(), 1, 0, false), ("two".to_string(), 0, 2, false)]);
}

#[test]
fn commit_stats_keep_the_order_of_the_changes() {
    let changes = vec![
        addition("z.txt", b"z\n"),
        addition("bin", b"\0"),
        rewrite("m.txt", "a.txt", b"1\n2\n", b"1\n", false),
        deletion("b.txt", b"b\n"),
    ];
    let stats = compute_commit_stats(&"abc123".to_string(), &changes, false);
    assert_eq!(stats.commit_id, "abc123");
    let got: Vec<_> = stats.files.iter().map(entry).collect();
    assert_eq!(
        got,
        vec![
            ("z.txt".to_string(), 1, 0, false),
            ("m.txt".to_string(), 0, 1, false),
            ("a.txt".to_string(), 0, 0, false),
            ("b.txt".to_string(), 0, 1, false),
        ]
    );
    let with_binary = compute_commit_stats(&"abc123".to_string(), &changes, true);
    assert_eq!(with_binary.files.len(), 5);
    assert_eq!(entry(&with_binary.files[1]), ("bin".to_string(), 0, 0, true));
}

#[test]
fn commit_without_changes_has_no_files() {
    let stats = compute_commit_stats(&"merge".to_string(), &Vec::new(), true);
    assert_eq!(stats.commit_id, "merge");
    assert!(stats.files.is_empty());
}
