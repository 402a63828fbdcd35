use gmap::churn::{aggregate_path, ChurnEntry};
use gmap::cli::{choose_output, Cli, Commands, CommonArgs, Output, Run};
use gmap::idset::StringSet;
use gmap::model::FileStats;
use gmap::order::string_before;
use gmap::util::{files_matching, matches_prefix, path_excluded};

fn file(path: &str, added: u32, deleted: u32) -> FileStats {
    FileStats { path: path.to_string(), added_lines: added, deleted_lines: deleted, is_binary: false }
}

fn common() -> CommonArgs {
    CommonArgs {
        repo: Some("/tmp/repo".to_string()),
        cache: None,
        include_merges: true,
        binary: false,
        since: Some("2024-01-01".to_string()),
        until: None,
    }
}

#[test]
fn files_matching_keeps_paths_with_the_prefix() {
    let files = vec![file("src/a.rs", 1, 0), file("docs/b.md", 2, 0), file("src/c.rs", 3, 0)];
    let found: Vec<&str> =
        files_matching(&files, Some("src/")).iter().map(|f| f.path.as_str()).collect();
    assert_eq!(found, vec!["src/a.rs", "src/c.rs"]);
    let all = files_matching(&files, None);
    assert_eq!(all.len(), 3);
    assert_eq!(all[1].path, "docs/b.md");
    assert!(files_matching(&files, Some("lib/")).is_empty());
    assert_eq!(files_matching(&files, Some("")).len(), 3);
    assert!(files_matching(&[], Some("src/")).is_empty());
}

#[test]
fn prefix_match_is_case_sensitive() {
    assert!(matches_prefix(&file("src/a.rs", 0, 0), Some("src")));
    assert!(!matches_prefix(&file("src/a.rs", 0, 0), Some("SRC")));
    assert!(!matches_prefix(&file("src/a.rs", 0, 0), Some("rc/")));
    assert!(matches_prefix(&file("src/a.rs", 0, 0), None));
}

#[test]
fn path_excluded_ignores_letter_case() {
    let excludes = vec!["Vendor".to_string(), ".LOCK".to_string()];
    assert!(path_excluded("third_party/vendor/lib.rs", &excludes));
    assert!(path_excluded("VENDOR/x", &excludes));
    assert!(path_excluded("Cargo.lock", &excludes));
    assert!(!path_excluded("src/main.rs", &excludes));
    assert!(!path_excluded("src/main.rs", &[]));
    assert!(path_excluded("anything", &["".to_string()]));
}

#[test]
fn aggregate_path_cuts_at_the_depth() {
    assert_eq!(aggregate_path("src/tui/views/help.rs", 1), "src");
    assert_eq!(aggregate_path("src/tui/views/help.rs", 2), "src/tui");
    assert_eq!(aggregate_path("src/tui/views/help.rs", 3), "src/tui/views");
    assert_eq!(aggregate_path("src/tui/views/help.rs", 4), "src/tui/views/help.rs");
    assert_eq!(aggregate_path("src/tui/views/help.rs", 9), "src/tui/views/help.rs");
    assert_eq!(aggregate_path("src/tui/views/help.rs", 0), "src/tui/views/help.rs");
    assert_eq!(aggregate_path("README.md", 1), "README.md");
    assert_eq!(aggregate_path("", 1), "");
}

#[test]
fn aggregate_path_counts_empty_parts() {
    assert_eq!(aggregate_path("/abs/path", 1), "");
    assert_eq!(aggregate_path("/abs/path", 2), "/abs");
    assert_eq!(aggregate_path("a//b", 2), "a/");
    assert_eq!(aggregate_path("dir/", 1), "dir");
    assert_eq!(aggregate_path("dir/", 2), "dir/");
    assert_eq!(aggregate_path("größe/straße/x", 2), "größe/straße");
}

#[test]
fn churn_entry_starts_empty() {
    let entry = ChurnEntry::new("src/lib.rs".to_string());
    assert_eq!(entry.path, "src/lib.rs");
    assert_eq!(entry.added_lines, 0);
    assert_eq!(entry.deleted_lines, 0);
    assert_eq!(entry.total_lines, 0);
    assert_eq!(entry.commit_count, 0);
    assert_eq!(entry.authors.len(), 0);
}

#[test]
fn churn_entry_sums_stats() {
    let mut entry = ChurnEntry::new("lib.rs".to_string());
    entry.add_stats(&file("lib.rs", 3, 1), "alice");
    entry.add_stats(&file("lib.rs", 10, 20), "bob");
    entry.add_stats(&file("lib.rs", 0, 0), "alice");
    assert_eq!(entry.added_lines, 13);
    assert_eq!(entry.deleted_lines, 21);
    assert_eq!(entry.total_lines, 34);
    assert_eq!(entry.commit_count, 3);
    assert_eq!(entry.authors.len(), 2);
    assert!(entry.authors.contains(&"alice".to_string()));
    assert!(entry.authors.contains(&"bob".to_string()));
    assert!(!entry.authors.contains(&"carol".to_string()));
}

#[test]
fn churn_entry_keeps_at_most_100_authors() {
    let mut entry = ChurnEntry::new("lib.rs".to_string());
    for i in 0..150 {
        entry.add_stats(&file("lib.rs", 1, 0), &format!("author{i}"));
    }
    assert_eq!(entry.commit_count, 150);
    assert_eq!(entry.added_lines, 150);
    assert_eq!(entry.authors.len(), 100);
    assert!(entry.authors.contains(&"author99".to_string()));
    assert!(!entry.authors.contains(&"author100".to_string()));
}

#[test]
fn string_set_holds_each_string_once() {
    let mut set = StringSet::new();
    assert_eq!(set.len(), 0);
    assert!(set.insert("a".to_string()));
    assert!(set.insert("b".to_string()));
    assert!(!set.insert("a".to_string()));
    assert_eq!(set.len(), 2);
    assert!(set.contains(&"a".to_string()));
    assert!(!set.contains(&"c".to_string()));
}

#[test]
fn strings_are_ordered_by_their_bytes() {
    let before = |a: &str, b: &str| string_before(&a.to_string(), &b.to_string());
    assert!(before("a", "b"));
    assert!(!before("b", "a"));
    assert!(!before("a", "a"));
    assert!(before("", "a"));
    assert!(!before("a", ""));
    assert!(!before("", ""));
    assert!(before("ab", "abc"));
    assert!(before("Z", "a"));
    assert!(before("a", "é"));
    assert!(before("10", "9"));
    for (a, b) in [("abc", "abd"), ("x", "xy"), ("é", "z"), ("z", "é"), ("same", "same")] {
        assert_eq!(before(a, b), a < b, "{a} {b}");
        assert_eq!(before(b, a), b < a, "{b} {a}");
    }
}

#[test]
fn output_flags_prefer_json() {
    assert_eq!(choose_output(true, false), Output::Json);
    assert_eq!(choose_output(true, true), Output::Json);
    assert_eq!(choose_output(false, true), Output::Ndjson);
    assert_eq!(choose_output(false, false), Output::Text);
}

#[test]
fn churn_command_runs_churn() {
    let cli = Cli {
        common: common(),
        command: Commands::Churn {
            json: false,
            ndjson: true,
            depth: Some(2),
            path: Some("src".to_string()),
        },
    };
    match cli.execute() {
        Run::Churn { common, depth, output, path } => {
            assert_eq!(common.repo.as_deref(), Some("/tmp/repo"));
            assert_eq!(common.since.as_deref(), Some("2024-01-01"));
            assert!(common.include_merges);
            assert_eq!(depth, Some(2));
            assert_eq!(output, Output::Ndjson);
            assert_eq!(path.as_deref(), Some("src"));
        }
        other => panic!("unexpected run {:?}", other),
    }
}

#[test]
fn heat_command_opens_the_dashboard_when_interactive() {
    let cli = Cli {
        common: common(),
        command: Commands::Heat { json: true, ndjson: false, interactive: true, path: None },
    };
    assert!(matches!(cli.execute(), Run::Dashboard { path: None, .. }));
    let cli = Cli {
        common: common(),
        command: Commands::Heat {
            json: true,
            ndjson: false,
            interactive: false,
            path: Some("docs".to_string()),
        },
    };
    match cli.execute() {
        Run::Heat { output, path, .. } => {
            assert_eq!(output, Output::Json);
            assert_eq!(path.as_deref(), Some("docs"));
        }
        other => panic!("unexpected run {:?}", other),
    }
}

#[test]
fn export_command_runs_export() {
    let cli = Cli { common: common(), command: Commands::Export { json: false, ndjson: false } };
    assert!(matches!(cli.execute(), Run::Export { output: Output::Text, .. }));
}
