use gmap::churn::{compute_churn, ChurnEntry};
use gmap::digits::{push_decimal, push_signed_decimal, push_two_digits};
use gmap::error::GmapError;
use gmap::export::{prepare_export_data, sort_by_time, ExportEntry};
use gmap::heat::{compute_heat, HeatBucket};
use gmap::model::{CommitInfo, CommitStats, FileStats, Timestamp};
use gmap::period::{format_month_key, format_week_key, month_key, period_key, week_key};
use gmap::sorting::{stable_order, time_key};
use gmap::strmap::StringMap;

fn file(path: &str, added: u32, deleted: u32) -> FileStats {
    FileStats { path: path.to_string(), added_lines: added, deleted_lines: deleted, is_binary: false }
}

fn stats(id: &str, files: Vec<FileStats>) -> CommitStats {
    CommitStats { commit_id: id.to_string(), files }
}

fn info(id: &str, secs: i64, author: &str) -> CommitInfo {
    CommitInfo {
        id: id.to_string(),
        author_name: author.to_string(),
        author_email: format!("{}@example.com", author.to_lowercase()),
        message: format!("message of {id}"),
        timestamp: Timestamp::from_secs(secs),
        parent_ids: vec![],
    }
}

fn buckets(b: &[HeatBucket]) -> Vec<(String, u32, u64)> {
    b.iter().map(|b| (b.week.clone(), b.commit_count, b.lines_changed)).collect()
}

fn churn(e: &[ChurnEntry]) -> Vec<(String, u64, u64, u64, u32, usize)> {
    e.iter()
        .map(|e| {
            (
                e.path.clone(),
                e.added_lines,
                e.deleted_lines,
                e.total_lines,
                e.commit_count,
                e.authors.len(),
            )
        })
        .collect()
}

// 2024-01-01 is a Monday: the start of ISO week 1 of 2024.
const JAN_1_2024: i64 = 1_704_067_200;
const DAY: i64 = 86_400;

#[test]
fn decimal_digits_are_written_without_leading_zeros() {
    for n in [0u64, 7, 10, 42, 100, 12345, 9_999_999_999, u64::MAX] {
        let mut out = "x".to_string();
        push_decimal(&mut out, n);
        assert_eq!(out, format!("x{n}"));
    }
    for n in [0i64, -1, 1, -10, 2024, -262143, i64::MAX, i64::MIN] {
        let mut out = String::new();
        push_signed_decimal(&mut out, n);
        assert_eq!(out, format!("{n}"));
    }
    for n in [0u64, 1, 9, 10, 53, 100] {
        let mut out = String::new();
        push_two_digits(&mut out, n);
        assert_eq!(out, format!("{n:02}"));
    }
}

#[test]
fn week_and_month_keys_have_the_expected_form() {
    assert_eq!(format_week_key(2024, 1), "2024-W01");
    assert_eq!(format_week_key(2024, 52), "2024-W52");
    assert_eq!(format_week_key(-5, 3), "-5-W03");
    assert_eq!(format_month_key(2024, 2), "2024-02");
    assert_eq!(format_month_key(1999, 12), "1999-12");
}

#[test]
fn week_key_uses_the_calendar_year_and_the_iso_week() {
    let at = Timestamp::from_secs;
    assert_eq!(week_key(&at(JAN_1_2024)).unwrap(), "2024-W01");
    assert_eq!(week_key(&at(JAN_1_2024 + 6 * DAY)).unwrap(), "2024-W01");
    assert_eq!(week_key(&at(JAN_1_2024 + 7 * DAY)).unwrap(), "2024-W02");
    // 2023-12-31 is a Sunday in ISO week 52 of 2023.
    assert_eq!(week_key(&at(JAN_1_2024 - 1)).unwrap(), "2023-W52");
    // 1970-01-01 is a Thursday in ISO week 1.
    assert_eq!(week_key(&at(0)).unwrap(), "1970-W01");
    // 2021-01-01 is a Friday in ISO week 53 of 2020, but its calendar year is 2021.
    assert_eq!(week_key(&at(1_609_459_200)).unwrap(), "2021-W53");
    assert_eq!(week_key(&at(i64::MAX)), None);
}

#[test]
fn month_key_and_period_key() {
    let at = Timestamp::from_secs;
    assert_eq!(month_key(&at(JAN_1_2024)).unwrap(), "2024-01");
    assert_eq!(month_key(&at(JAN_1_2024 - 1)).unwrap(), "2023-12");
    assert_eq!(month_key(&at(JAN_1_2024 + 31 * DAY)).unwrap(), "2024-02");
    assert_eq!(month_key(&at(i64::MIN)), None);
    assert_eq!(period_key(&at(JAN_1_2024), true).unwrap(), "2024-01");
    assert_eq!(period_key(&at(JAN_1_2024), false).unwrap(), "2024-W01");
    assert_eq!(period_key(&at(i64::MAX), true), None);
}

#[test]
fn stable_order_sorts_and_keeps_ties_in_place() {
    assert_eq!(stable_order(&vec![]), Vec::<usize>::new());
    assert_eq!(stable_order(&vec![5]), vec![0]);
    assert_eq!(stable_order(&vec![3, 1, 2]), vec![1, 2, 0]);
    assert_eq!(stable_order(&vec![2, 1, 2, 1, 0]), vec![4, 1, 3, 0, 2]);
    assert_eq!(stable_order(&vec![1, 1, 1]), vec![0, 1, 2]);
    assert_eq!(stable_order(&vec![i128::MAX, i128::MIN, 0]), vec![1, 2, 0]);
}

#[test]
fn time_key_orders_instants() {
    let a = Timestamp { secs: -1, nanos: 999_999_999 };
    let b = Timestamp { secs: 0, nanos: 0 };
    let c = Timestamp { secs: 0, nanos: 1 };
    let d = Timestamp { secs: 1, nanos: 0 };
    assert!(time_key(&a) < time_key(&b));
    assert!(time_key(&b) < time_key(&c));
    assert!(time_key(&c) < time_key(&d));
    assert_eq!(time_key(&Timestamp { secs: 2, nanos: 3 }), 2 * 4_294_967_296 + 3);
}

#[test]
fn string_map_behaves_like_a_map() {
    let mut map: StringMap<u32> = StringMap::new();
    assert_eq!(map.len(), 0);
    assert_eq!(map.get(&"a".to_string()), None);
    map.insert("b".to_string(), 2);
    map.insert("a".to_string(), 1);
    map.insert("c".to_string(), 3);
    map.insert("b".to_string(), 20);
    assert_eq!(map.len(), 3);
    assert!(map.contains_key(&"a".to_string()));
    assert!(!map.contains_key(&"d".to_string()));
    assert_eq!(map.get(&"b".to_string()), Some(&20));
    assert_eq!(map.remove(&"a".to_string()), Some(1));
    assert_eq!(map.remove(&"a".to_string()), None);
    assert_eq!(map.len(), 2);
    assert_eq!(map.into_entries(), vec![("b".to_string(), 20), ("c".to_string(), 3)]);
}

#[test]
fn heat_counts_commits_and_lines_per_week() {
    let commits = vec![
        stats("c1", vec![file("src/a.rs", 1, 0)]),
        stats("c2", vec![file("src/b.rs", 2, 3), file("docs/x.md", 10, 0)]),
        stats("c3", vec![]),
        stats("c4", vec![file("src/a.rs", 0, 4)]),
    ];
    let infos = vec![
        info("c1", JAN_1_2024 + 8 * DAY, "Alice"),
        info("c2", JAN_1_2024, "Bob"),
        info("c3", JAN_1_2024 + DAY, "Bob"),
        info("c4", JAN_1_2024 + 9 * DAY, "Alice"),
    ];
    assert_eq!(
        buckets(&compute_heat(&commits, &infos, None).unwrap()),
        vec![("2024-W01".to_string(), 2, 15), ("2024-W02".to_string(), 2, 5)]
    );
    assert_eq!(
        buckets(&compute_heat(&commits, &infos, Some("src/")).unwrap()),
        vec![("2024-W01".to_string(), 1, 5), ("2024-W02".to_string(), 2, 5)]
    );
    assert_eq!(
        buckets(&compute_heat(&commits, &infos, Some("docs")).unwrap()),
        vec![("2024-W01".to_string(), 1, 10)]
    );
    assert!(compute_heat(&commits, &infos, Some("none")).unwrap().is_empty());
    assert!(compute_heat(&Vec::new(), &infos, None).unwrap().is_empty());
}

#[test]
fn heat_fails_without_metadata() {
    let commits = vec![stats("c1", vec![]), stats("c2", vec![])];
    let infos = vec![info("c1", JAN_1_2024, "Alice")];
    match compute_heat(&commits, &infos, None) {
        Err(GmapError::Cache(message)) => assert_eq!(message, "Commit info not found"),
        other => panic!("unexpected {:?}", other),
    }
    let bad = vec![info("c1", i64::MAX, "Alice"), info("c2", 0, "Bob")];
    assert!(matches!(
        compute_heat(&commits, &bad, None),
        Err(GmapError::InvalidTimestamp(i64::MAX))
    ));
}

#[test]
fn heat_sums_lines_beyond_32_bits() {
    let commits = vec![
        stats("c1", vec![file("a", u32::MAX, u32::MAX), file("b", u32::MAX, 1)]),
        stats("c2", vec![file("a", 5, 0)]),
    ];
    let infos = vec![info("c1", JAN_1_2024, "A"), info("c2", JAN_1_2024, "A")];
    let total = 3 * (u32::MAX as u64) + 1 + 5;
    assert_eq!(
        buckets(&compute_heat(&commits, &infos, None).unwrap()),
        vec![("2024-W01".to_string(), 2, total)]
    );
}

#[test]
fn churn_sums_changes_by_path_in_descending_order() {
    let commits = vec![
        stats("c1", vec![file("src/a.rs", 1, 0), file("docs/x.md", 10, 0)]),
        stats("c2", vec![file("src/a.rs", 2, 3), file("src/b.rs", 6, 0)]),
        stats("c3", vec![file("src/b.rs", 0, 0), file("vendor/lib.rs", 99, 99)]),
    ];
    let infos =
        vec![info("c1", 100, "Alice"), info("c2", 200, "Bob"), info("c3", 300, "alice")];
    let all = compute_churn(&commits, &infos, None, None, None, None, &vec![]).unwrap();
    assert_eq!(
        churn(&all),
        vec![
            ("vendor/lib.rs".to_string(), 99, 99, 198, 1, 1),
            ("docs/x.md".to_string(), 10, 0, 10, 1, 1),
            ("src/a.rs".to_string(), 3, 3, 6, 2, 2),
            ("src/b.rs".to_string(), 6, 0, 6, 2, 2),
        ]
    );
    let by_dir = compute_churn(
        &commits,
        &infos,
        Some(1),
        None,
        None,
        None,
        &vec!["VENDOR".to_string()],
    )
    .unwrap();
    assert_eq!(
        churn(&by_dir),
        vec![("src".to_string(), 9, 3, 12, 4, 3), ("docs".to_string(), 10, 0, 10, 1, 1)]
    );
    let src_only =
        compute_churn(&commits, &infos, None, Some("src/"), Some("ALICE"), None, &vec![]).unwrap();
    assert_eq!(
        churn(&src_only),
        vec![("src/a.rs".to_string(), 1, 0, 1, 1, 1), ("src/b.rs".to_string(), 0, 0, 0, 1, 1)]
    );
    let by_email =
        compute_churn(&commits, &infos, None, None, None, Some("bob@"), &vec![]).unwrap();
    assert_eq!(
        churn(&by_email),
        vec![("src/b.rs".to_string(), 6, 0, 6, 1, 1), ("src/a.rs".to_string(), 2, 3, 5, 1, 1)]
    );
}

#[test]
fn churn_fails_without_metadata_or_room() {
    let commits = vec![stats("c1", vec![file("a", 1, 1)])];
    assert!(matches!(
        compute_churn(&commits, &vec![], None, None, None, None, &vec![]),
        Err(GmapError::Cache(m)) if m == "Commit info not found"
    ));
    let big = vec![stats("c1", vec![file("a", u32::MAX, 1)])];
    let infos = vec![info("c1", 1, "A")];
    assert!(matches!(
        compute_churn(&big, &infos, None, None, None, None, &vec![]),
        Err(GmapError::Overflow)
    ));
    // A commit that is filtered out is not looked at any further.
    let filtered = compute_churn(&big, &infos, None, None, Some("nobody"), None, &vec![]).unwrap();
    assert!(filtered.is_empty());
}

#[test]
fn export_lists_commits_from_the_earliest_to_the_latest() {
    let commits = vec![
        stats("c1", vec![file("a", 1, 0)]),
        stats("c2", vec![]),
        stats("c3", vec![file("b", 2, 2)]),
        stats("c4", vec![]),
    ];
    let infos = vec![
        info("c1", 300, "Alice"),
        info("c2", 100, "Bob"),
        info("c3", 300, "Carol"),
        info("c4", 200, "alice"),
    ];
    let ids = |entries: &[ExportEntry]| -> Vec<String> {
        entries.iter().map(|e| e.commit_id.clone()).collect()
    };
    let all = prepare_export_data(&commits, &infos, None, None).unwrap();
    assert_eq!(ids(&all), vec!["c2", "c4", "c1", "c3"]);
    assert_eq!(all[2].author_name, "Alice");
    assert_eq!(all[2].author_email, "alice@example.com");
    assert_eq!(all[2].message, "message of c1");
    assert_eq!(all[2].timestamp, Timestamp::from_secs(300));
    assert_eq!(all[2].files.len(), 1);
    assert_eq!(all[2].files[0].path, "a");
    let alice = prepare_export_data(&commits, &infos, Some("ALICE"), None).unwrap();
    assert_eq!(ids(&alice), vec!["c4", "c1"]);
    let carol = prepare_export_data(&commits, &infos, None, Some("carol@")).unwrap();
    assert_eq!(ids(&carol), vec!["c3"]);
    assert!(matches!(
        prepare_export_data(&commits, &infos[..3].to_vec(), None, None),
        Err(GmapError::Cache(m)) if m == "Commit info not found"
    ));
    assert_eq!(ids(&sort_by_time(&all)), ids(&all));
}
