use gmap::aggregate::{aggregate_weeks, top_by_count};
use gmap::details::{
    first_line_of, get_commits_for_period, sort_latest_first, take_chars,
};
use gmap::model::{CommitInfo, CommitStats, FileStats, Timestamp};
use gmap::tui::data::load_commit_details;
use gmap::tui::state::{CommitDetail, FileExtensionStats, TuiState, WeekStats};

const JAN_1_2024: i64 = 1_704_067_200;
const DAY: i64 = 86_400;

fn file(path: &str, added: u32, deleted: u32) -> FileStats {
    FileStats { path: path.to_string(), added_lines: added, deleted_lines: deleted, is_binary: false }
}

fn stats(id: &str, files: Vec<FileStats>) -> CommitStats {
    CommitStats { commit_id: id.to_string(), files }
}

fn info(id: &str, secs: i64, author: &str, message: &str) -> CommitInfo {
    CommitInfo {
        id: id.to_string(),
        author_name: author.to_string(),
        author_email: format!("{}@example.com", author.to_lowercase()),
        message: message.to_string(),
        timestamp: Timestamp::from_secs(secs),
        parent_ids: vec![],
    }
}

fn history() -> (Vec<CommitStats>, Vec<CommitInfo>) {
    let commits = vec![
        stats("0123456789abcdef", vec![file("src/a.rs", 1, 0), file("README.md", 5, 5)]),
        stats("c2", vec![file("src/a.rs", 2, 3), file("src/B.RS", 10, 0), file("Makefile", 1, 1)]),
        stats("c3", vec![]),
        stats("c4", vec![file("src/a.rs", 0, 4)]),
        stats("c5", vec![file("docs/x.md", 7, 0)]),
        stats("unknown", vec![file("src/a.rs", 100, 100)]),
    ];
    let infos = vec![
        info("0123456789abcdef", JAN_1_2024, "Alice", "first line\nsecond line"),
        info("c2", JAN_1_2024 + DAY, "Bob", "subject\r\n\r\nbody"),
        info("c3", JAN_1_2024 + 2 * DAY, "Alice", ""),
        info("c4", JAN_1_2024 + 8 * DAY, "Carol", "one line"),
        info("c5", JAN_1_2024 + 2 * DAY, "Alice", "docs"),
    ];
    (commits, infos)
}

fn ext(commits: usize, added: usize, deleted: usize, files: usize) -> FileExtensionStats {
    FileExtensionStats { commits, lines_added: added, lines_deleted: deleted, files_changed: files }
}

fn pairs(items: &[(&str, usize)]) -> Vec<(String, usize)> {
    items.iter().map(|(k, v)| (k.to_string(), *v)).collect()
}

fn hashes(details: &[CommitDetail]) -> Vec<String> {
    details.iter().map(|d| d.hash.clone()).collect()
}

#[test]
fn weeks_are_aggregated_in_ascending_order() {
    let (commits, infos) = history();
    let weeks: Vec<WeekStats> = aggregate_weeks(&commits, &infos, None, false).unwrap();
    assert_eq!(weeks.len(), 2);
    let first = &weeks[0];
    assert_eq!(first.week, "2024-W01");
    assert_eq!(first.commits, 4);
    assert_eq!(first.lines_added, 26);
    assert_eq!(first.lines_deleted, 9);
    assert_eq!(first.top_authors, vec!["Alice", "Bob"]);
    assert_eq!(
        first.file_extensions,
        vec![
            ("".to_string(), ext(1, 1, 1, 1)),
            ("md".to_string(), ext(2, 12, 5, 2)),
            ("rs".to_string(), ext(3, 13, 3, 3)),
        ]
    );
    assert_eq!(
        first.top_files,
        pairs(&[("src/a.rs", 2), ("Makefile", 1), ("README.md", 1), ("docs/x.md", 1), ("src/B.RS", 1)])
    );
    let second = &weeks[1];
    assert_eq!(second.week, "2024-W02");
    assert_eq!(second.commits, 1);
    assert_eq!((second.lines_added, second.lines_deleted), (0, 4));
    assert_eq!(second.top_authors, vec!["Carol"]);
    assert_eq!(second.file_extensions, vec![("rs".to_string(), ext(1, 0, 4, 1))]);
    assert_eq!(second.top_files, pairs(&[("src/a.rs", 1)]));
}

#[test]
fn weeks_under_a_prefix_count_only_commits_that_touch_it() {
    let (commits, infos) = history();
    let weeks = aggregate_weeks(&commits, &infos, Some("src/"), false).unwrap();
    assert_eq!(weeks.len(), 2);
    assert_eq!(weeks[0].week, "2024-W01");
    assert_eq!(weeks[0].commits, 2);
    assert_eq!((weeks[0].lines_added, weeks[0].lines_deleted), (13, 3));
    assert_eq!(weeks[0].top_authors, vec!["Alice", "Bob"]);
    assert_eq!(weeks[0].top_files, pairs(&[("src/a.rs", 2), ("src/B.RS", 1)]));
    assert_eq!(weeks[0].file_extensions, vec![("rs".to_string(), ext(3, 13, 3, 3))]);
    assert!(aggregate_weeks(&commits, &infos, Some("none/"), false).unwrap().is_empty());
    assert!(aggregate_weeks(&Vec::new(), &infos, None, false).unwrap().is_empty());
    assert!(aggregate_weeks(&commits, &Vec::new(), None, false).unwrap().is_empty());
}

#[test]
fn top_lists_are_limited() {
    let mut commits = Vec::new();
    let mut infos = Vec::new();
    for i in 0..12 {
        let id = format!("c{i:02}");
        let files: Vec<FileStats> = (0..=i).map(|f| file(&format!("f{f:02}.txt"), 1, 0)).collect();
        commits.push(stats(&id, files));
        infos.push(info(&id, JAN_1_2024 + i as i64, &format!("author{}", i % 5), "m"));
    }
    let weeks = aggregate_weeks(&commits, &infos, None, false).unwrap();
    assert_eq!(weeks.len(), 1);
    assert_eq!(weeks[0].commits, 12);
    // authors 0 and 1 have three commits each, the others two.
    assert_eq!(weeks[0].top_authors, vec!["author0", "author1", "author2"]);
    assert_eq!(weeks[0].top_files.len(), 10);
    assert_eq!(weeks[0].top_files[0], ("f00.txt".to_string(), 12));
    assert_eq!(weeks[0].top_files[9], ("f09.txt".to_string(), 3));
    assert_eq!(weeks[0].file_extensions, vec![("txt".to_string(), ext(78, 78, 0, 78))]);
}

#[test]
fn top_by_count_ranks_by_count_and_keeps_ties_in_order() {
    let entries = pairs(&[("a", 1), ("b", 3), ("c", 1), ("d", 3), ("e", 2)]);
    assert_eq!(top_by_count(&entries, 3), pairs(&[("b", 3), ("d", 3), ("e", 2)]));
    assert_eq!(
        top_by_count(&entries, 10),
        pairs(&[("b", 3), ("d", 3), ("e", 2), ("a", 1), ("c", 1)])
    );
    assert!(top_by_count(&entries, 0).is_empty());
    assert!(top_by_count(&Vec::new(), 3).is_empty());
}

#[test]
fn commits_of_a_period_are_listed_latest_first() {
    let (commits, infos) = history();
    let details =
        get_commits_for_period(&commits, &infos, "2024-W01", None, None, None, false).unwrap();
    assert_eq!(hashes(&details), vec!["c3", "c5", "c2", "0123456789abcdef"]);
    let c2 = &details[2];
    assert_eq!(c2.short_hash, "c2");
    assert_eq!(c2.message, "subject");
    assert_eq!(c2.author_name, "Bob");
    assert_eq!(c2.author_email, "bob@example.com");
    assert_eq!(c2.timestamp, Timestamp::from_secs(JAN_1_2024 + DAY));
    assert_eq!(c2.files_changed, vec!["src/a.rs", "src/B.RS", "Makefile"]);
    assert_eq!((c2.lines_added, c2.lines_deleted), (13, 4));
    let first = &details[3];
    assert_eq!(first.short_hash, "01234567");
    assert_eq!(first.message, "first line");
    assert_eq!(details[0].message, "");
    assert!(details[0].files_changed.is_empty());
}

#[test]
fn commits_of_a_period_are_filtered() {
    let (commits, infos) = history();
    let list = |period: &str, prefix, author, email, monthly| -> Vec<String> {
        hashes(
            &get_commits_for_period(&commits, &infos, period, prefix, author, email, monthly)
                .unwrap(),
        )
    };
    assert_eq!(list("2024-W02", None, None, None, false), vec!["c4"]);
    assert_eq!(list("2024-W03", None, None, None, false), Vec::<String>::new());
    assert_eq!(list("2024-01", None, None, None, true).len(), 5);
    assert_eq!(list("2024-W01", None, None, None, true), Vec::<String>::new());
    assert_eq!(list("2024-W01", Some("src/"), None, None, false), vec!["c2", "0123456789abcdef"]);
    assert_eq!(list("2024-W01", None, Some("ALI"), None, false), vec![
        "c3",
        "c5",
        "0123456789abcdef"
    ]);
    assert_eq!(list("2024-W01", None, None, Some("bob@"), false), vec!["c2"]);
    assert_eq!(list("2024-W01", Some("docs"), Some("alice"), None, false), vec!["c5"]);
    let under_src =
        get_commits_for_period(&commits, &infos, "2024-W01", Some("src/"), None, None, false)
            .unwrap();
    assert_eq!(under_src[0].files_changed, vec!["src/a.rs", "src/B.RS"]);
    assert_eq!((under_src[0].lines_added, under_src[0].lines_deleted), (12, 3));
}

#[test]
fn line_counts_beyond_32_bits_are_an_error() {
    let commits = vec![stats("c1", vec![file("a", u32::MAX, 0), file("b", 1, 0)])];
    let infos = vec![info("c1", JAN_1_2024, "A", "m")];
    assert!(matches!(
        get_commits_for_period(&commits, &infos, "2024-W01", None, None, None, false),
        Err(gmap::error::GmapError::Overflow)
    ));
    assert!(get_commits_for_period(&commits, &infos, "2024-W02", None, None, None, false)
        .unwrap()
        .is_empty());
}

#[test]
fn short_hash_and_first_line() {
    assert_eq!(take_chars("0123456789", 8), "01234567");
    assert_eq!(take_chars("0123", 8), "0123");
    assert_eq!(take_chars("", 8), "");
    assert_eq!(take_chars("äöüäöüäöüä", 8), "äöüäöüäö");
    assert_eq!(take_chars("abc", 0), "");
    for text in ["", "one", "one\ntwo", "one\r\ntwo", "\nrest", "\r\n", "tail\r", "a\rb\nc", "ä\n"] {
        assert_eq!(first_line_of(text), text.lines().next().unwrap_or(""), "text {:?}", text);
    }
}

#[test]
fn latest_first_keeps_the_order_of_equal_instants() {
    let (commits, infos) = history();
    let details =
        get_commits_for_period(&commits, &infos, "2024-W01", None, None, None, false).unwrap();
    // c3 and c5 share their instant and keep the order of the commits.
    assert_eq!(hashes(&sort_latest_first(&details)), hashes(&details));
    let mut reversed = details.clone();
    reversed.reverse();
    assert_eq!(
        hashes(&sort_latest_first(&reversed)),
        vec!["c5", "c3", "c2", "0123456789abcdef"]
    );
}

#[test]
fn commit_details_are_loaded_for_the_selected_period() {
    let (commits, infos) = history();
    let weeks = aggregate_weeks(&commits, &infos, None, false).unwrap();
    let mut state = TuiState::default();
    state.selected = 1;
    state.commit_selected = 4;
    load_commit_details(&mut state, &weeks, &commits, &infos, None, None, None, false).unwrap();
    assert_eq!(hashes(&state.commit_details), vec!["c4"]);
    assert_eq!(state.commit_selected, 0);
    assert!(!state.loading_commits);
    state.selected = 0;
    load_commit_details(&mut state, &weeks, &commits, &infos, Some("src/"), None, None, false)
        .unwrap();
    assert_eq!(hashes(&state.commit_details), vec!["c2", "0123456789abcdef"]);
    state.selected = 2;
    state.commit_selected = 1;
    load_commit_details(&mut state, &weeks, &commits, &infos, None, None, None, false).unwrap();
    assert_eq!(state.commit_details.len(), 2);
    assert_eq!(state.commit_selected, 1);
}

#[test]
fn periods_can_be_months() {
    let (commits, infos) = history();
    let months = aggregate_weeks(&commits, &infos, None, true).unwrap();
    assert_eq!(months.len(), 1);
    assert_eq!(months[0].week, "2024-01");
    assert_eq!(months[0].commits, 5);
    assert_eq!((months[0].lines_added, months[0].lines_deleted), (26, 13));
    assert_eq!(months[0].top_authors, vec!["Alice", "Bob", "Carol"]);
}
