use gmap::cache::info::{decode_commit_row, get_commit_info, CommitRow, SELECT_COMMIT_SQL};
use gmap::cache::missing::{get_missing_commits, known_ids_query};
use gmap::cache::schema::{
    check_schema_version, SchemaAction, CREATE_TABLES_SQL, READ_VERSION_SQL,
};
use gmap::cache::stats::{commit_stats_query, group_rows, range_bounds, StatsRow};
use gmap::cache::store::{
    commit_write, dedup_by_path, find_info, store_commit_stats, CommitWrite, DELETE_FILES_SQL,
    INSERT_FILE_SQL, UPSERT_COMMIT_SQL,
};
use gmap::error::GmapError;
use gmap::model::{CommitInfo, CommitStats, DateRange, FileStats, Timestamp, SCHEMA_VERSION};
use rusqlite::Connection;

fn file(path: &str, added: u32, deleted: u32, is_binary: bool) -> FileStats {
    FileStats { path: path.to_string(), added_lines: added, deleted_lines: deleted, is_binary }
}

fn entry(f: &FileStats) -> (String, u32, u32, bool) {
    (f.path.clone(), f.added_lines, f.deleted_lines, f.is_binary)
}

fn stats(id: &str, files: Vec<FileStats>) -> CommitStats {
    CommitStats { commit_id: id.to_string(), files }
}

fn info(id: &str, secs: i64, parents: &[&str]) -> CommitInfo {
    CommitInfo {
        id: id.to_string(),
        author_name: format!("author of {id}"),
        author_email: format!("{id}@example.com"),
        message: format!("message of {id}"),
        timestamp: Timestamp::from_secs(secs),
        parent_ids: parents.iter().map(|p| p.to_string()).collect(),
    }
}

fn row(id: &str, file: Option<(&str, u32, u32, i64)>) -> StatsRow {
    StatsRow {
        commit_id: id.to_string(),
        path: file.map(|f| f.0.to_string()),
        added_lines: file.map(|f| f.1),
        deleted_lines: file.map(|f| f.2),
        is_binary: file.map(|f| f.3),
    }
}

fn strings(items: &[&str]) -> Vec<String> {
    items.iter().map(|s| s.to_string()).collect()
}

fn open_store() -> Connection {
    let conn = Connection::open_in_memory().unwrap();
    initialize(&conn).unwrap();
    conn
}

fn initialize(conn: &Connection) -> Result<(), GmapError> {
    let version: i64 = conn.query_row(READ_VERSION_SQL, [], |r| r.get(0)).unwrap();
    for statement in gmap::cache::schema::initialize(version)? {
        conn.execute_batch(&statement).unwrap();
    }
    Ok(())
}

fn run_writes(conn: &mut Connection, writes: &[CommitWrite]) {
    let tx = conn.transaction().unwrap();
    for w in writes {
        tx.execute(
            UPSERT_COMMIT_SQL,
            (&w.id, &w.author_name, &w.author_email, &w.message, w.timestamp, &w.parent_ids),
        )
        .unwrap();
        tx.execute(DELETE_FILES_SQL, (&w.id,)).unwrap();
        for f in &w.files {
            let is_binary: i64 = if f.is_binary { 1 } else { 0 };
            tx.execute(INSERT_FILE_SQL, (&w.id, &f.path, f.added_lines, f.deleted_lines, is_binary))
                .unwrap();
        }
    }
    tx.commit().unwrap();
}

fn read_stats(conn: &Connection, range: &DateRange) -> Vec<CommitStats> {
    let Some(query) = commit_stats_query(range) else {
        return Vec::new();
    };
    let mut stmt = conn.prepare(&query.sql).unwrap();
    let rows: Vec<StatsRow> = stmt
        .query_map(rusqlite::params_from_iter(query.binds.iter()), |r| {
            Ok(StatsRow {
                commit_id: r.get(0)?,
                path: r.get(1)?,
                added_lines: r.get(2)?,
                deleted_lines: r.get(3)?,
                is_binary: r.get(4)?,
            })
        })
        .unwrap()
        .map(|r| r.unwrap())
        .collect();
    group_rows(&rows)
}

fn read_info(conn: &Connection, id: &str) -> Result<Option<CommitInfo>, GmapError> {
    let mut stmt = conn.prepare(SELECT_COMMIT_SQL).unwrap();
    let mut rows = stmt
        .query_map((id,), |r| {
            Ok(CommitRow {
                id: r.get(0)?,
                author_name: r.get(1)?,
                author_email: r.get(2)?,
                message: r.get(3)?,
                timestamp: r.get(4)?,
                parent_ids: r.get(5)?,
            })
        })
        .unwrap();
    let row = rows.next().map(|r| r.unwrap());
    get_commit_info(row.as_ref())
}

fn known_ids(conn: &Connection, ids: &[String]) -> Vec<String> {
    match known_ids_query(ids.len()) {
        None => Vec::new(),
        Some(sql) => {
            let mut stmt = conn.prepare(&sql).unwrap();
            stmt.query_map(rusqlite::params_from_iter(ids.iter()), |r| r.get::<_, String>(0))
                .unwrap()
                .map(|r| r.unwrap())
                .collect()
        }
    }
}

fn summary(stats: &[CommitStats]) -> Vec<(String, Vec<(String, u32, u32, bool)>)> {
    stats.iter().map(|s| (s.commit_id.clone(), s.files.iter().map(entry).collect())).collect()
}

#[test]
fn unstamped_store_is_stamped() {
    assert!(matches!(check_schema_version(0), Ok(SchemaAction::Stamp(v)) if v == SCHEMA_VERSION));
}

#[test]
fn store_with_this_version_is_kept() {
    assert!(matches!(check_schema_version(1), Ok(SchemaAction::Keep)));
}

#[test]
fn store_with_another_version_is_rejected() {
    for found in [2i64, 7, -1, i64::MAX, i64::MIN] {
        match check_schema_version(found) {
            Err(GmapError::SchemaMismatch { expected, found: f }) => {
                assert_eq!(expected, 1);
                assert_eq!(f, found);
            }
            other => panic!("version {found} gave {:?}", other),
        }
    }
}

#[test]
fn initialize_is_idempotent() {
    let conn = open_store();
    initialize(&conn).unwrap();
    initialize(&conn).unwrap();
    let version: i64 = conn.query_row(READ_VERSION_SQL, [], |r| r.get(0)).unwrap();
    assert_eq!(version, 1);
}

#[test]
fn schema_mismatch_fails_and_leaves_the_data_alone() {
    let mut conn = open_store();
    let writes =
        store_commit_stats(&[stats("c1", vec![file("a", 1, 2, false)])].to_vec(), &vec![info(
            "c1",
            100,
            &[],
        )])
        .unwrap();
    run_writes(&mut conn, &writes);
    conn.execute_batch("PRAGMA user_version = 7;").unwrap();
    let before = summary(&read_stats(&conn, &DateRange::new()));
    for _ in 0..2 {
        assert!(matches!(
            initialize(&conn),
            Err(GmapError::SchemaMismatch { expected: 1, found: 7 })
        ));
    }
    let version: i64 = conn.query_row(READ_VERSION_SQL, [], |r| r.get(0)).unwrap();
    assert_eq!(version, 7);
    assert_eq!(summary(&read_stats(&conn, &DateRange::new())), before);
    assert_eq!(before, vec![("c1".to_string(), vec![("a".to_string(), 1, 2, false)])]);
}

#[test]
fn stats_query_binds_the_bounds_of_the_range() {
    let base = "SELECT c.id, f.path, f.added_lines, f.deleted_lines, f.is_binary FROM commits c LEFT JOIN files f ON c.id = f.commit_id WHERE 1=1";
    let open = commit_stats_query(&DateRange::new()).unwrap();
    assert_eq!(open.sql, format!("{base} ORDER BY c.timestamp"));
    assert!(open.binds.is_empty());
    let since = commit_stats_query(&DateRange::new().with_since(Timestamp::from_secs(5))).unwrap();
    assert_eq!(since.sql, format!("{base} AND c.timestamp >= ? ORDER BY c.timestamp"));
    assert_eq!(since.binds, vec![5]);
    let until = commit_stats_query(&DateRange::new().with_until(Timestamp::from_secs(9))).unwrap();
    assert_eq!(until.sql, format!("{base} AND c.timestamp <= ? ORDER BY c.timestamp"));
    assert_eq!(until.binds, vec![9]);
    let both = commit_stats_query(
        &DateRange::new()
            .with_since(Timestamp { secs: 5, nanos: 999 })
            .with_until(Timestamp { secs: 9, nanos: 999 }),
    )
    .unwrap();
    assert_eq!(
        both.sql,
        format!("{base} AND c.timestamp >= ? AND c.timestamp <= ? ORDER BY c.timestamp")
    );
    assert_eq!(both.binds, vec![6, 9]);
}

#[test]
fn lower_bound_with_a_fraction_starts_at_the_next_second() {
    let bounds = range_bounds(&DateRange::new().with_since(Timestamp { secs: -3, nanos: 1 }));
    let bounds = bounds.unwrap();
    assert_eq!(bounds.from, Some(-2));
    assert_eq!(bounds.to, None);
    let bounds = range_bounds(&DateRange::new().with_since(Timestamp { secs: i64::MAX, nanos: 0 }));
    assert_eq!(bounds.unwrap().from, Some(i64::MAX));
    let bounds =
        range_bounds(&DateRange::new().with_since(Timestamp { secs: i64::MAX - 1, nanos: 7 }));
    assert_eq!(bounds.unwrap().from, Some(i64::MAX));
}

#[test]
fn range_after_the_last_second_has_no_query() {
    let range = DateRange::new().with_since(Timestamp { secs: i64::MAX, nanos: 1 });
    assert!(range_bounds(&range).is_none());
    assert!(commit_stats_query(&range).is_none());
    let mut conn = open_store();
    let writes = store_commit_stats(&vec![stats("c1", vec![])], &vec![info("c1", i64::MAX, &[])])
        .unwrap();
    run_writes(&mut conn, &writes);
    assert!(read_stats(&conn, &range).is_empty());
    let at = DateRange::new().with_since(Timestamp { secs: i64::MAX, nanos: 0 });
    assert_eq!(summary(&read_stats(&conn, &at)), vec![("c1".to_string(), vec![])]);
}

#[test]
fn stored_commits_are_read_exactly_where_the_range_contains_them() {
    let mut conn = open_store();
    let commits: Vec<CommitStats> = (8..=12).map(|t| stats(&format!("c{t}"), vec![])).collect();
    let infos: Vec<CommitInfo> = (8..=12).map(|t| info(&format!("c{t}"), t, &[])).collect();
    run_writes(&mut conn, &store_commit_stats(&commits, &infos).unwrap());
    let ranges = [
        DateRange::new().with_since(Timestamp { secs: 10, nanos: 5 }),
        DateRange::new().with_since(Timestamp { secs: 10, nanos: 0 }),
        DateRange::new().with_until(Timestamp { secs: 10, nanos: 5 }),
        DateRange::new().with_until(Timestamp { secs: 10, nanos: 0 }),
        DateRange::new()
            .with_since(Timestamp { secs: 9, nanos: 999_999_999 })
            .with_until(Timestamp { secs: 11, nanos: 1 }),
        DateRange::new()
            .with_since(Timestamp { secs: 10, nanos: 1 })
            .with_until(Timestamp { secs: 10, nanos: 2 }),
    ];
    for range in ranges {
        let expected: Vec<String> = infos
            .iter()
            .filter(|i| range.contains(&i.timestamp))
            .map(|i| i.id.clone())
            .collect();
        let mut expected = expected;
        expected.sort();
        let read: Vec<String> = read_stats(&conn, &range).into_iter().map(|c| c.commit_id).collect();
        assert_eq!(read, expected, "range {:?}", (range.since.map(|t| (t.secs, t.nanos)), range.until.map(|t| (t.secs, t.nanos))));
    }
    let after = DateRange::new().with_since(Timestamp { secs: 10, nanos: 5 });
    let read: Vec<String> = read_stats(&conn, &after).into_iter().map(|c| c.commit_id).collect();
    assert_eq!(read, strings(&["c11", "c12"]));
}

#[test]
fn setup_statements_follow_the_stamp() {
    let fresh = gmap::cache::schema::initialize(0).unwrap();
    assert_eq!(fresh, vec![CREATE_TABLES_SQL.to_string(), "PRAGMA user_version = 1;".to_string()]);
    let known = gmap::cache::schema::initialize(1).unwrap();
    assert_eq!(known, vec![CREATE_TABLES_SQL.to_string()]);
    assert!(matches!(
        gmap::cache::schema::initialize(2),
        Err(GmapError::SchemaMismatch { expected: 1, found: 2 })
    ));
}

#[test]
fn foreign_stamp_on_an_empty_store_creates_no_table() {
    let conn = Connection::open_in_memory().unwrap();
    conn.execute_batch("PRAGMA user_version = 7;").unwrap();
    assert!(matches!(initialize(&conn), Err(GmapError::SchemaMismatch { expected: 1, found: 7 })));
    let tables: i64 = conn
        .query_row("SELECT COUNT(*) FROM sqlite_master", [], |r| r.get(0))
        .unwrap();
    assert_eq!(tables, 0);
}

#[test]
fn rows_are_grouped_by_commit_in_ascending_order_of_ids() {
    let rows = vec![
        row("b2", Some(("x.rs", 1, 2, 0))),
        row("a1", Some(("y.rs", 3, 4, 1))),
        row("b2", Some(("z.rs", 5, 6, 0))),
        row("c3", None),
        row("a1", Some(("a.rs", 7, 8, 5))),
    ];
    assert_eq!(
        summary(&group_rows(&rows)),
        vec![
            (
                "a1".to_string(),
                vec![("y.rs".to_string(), 3, 4, true), ("a.rs".to_string(), 7, 8, true)]
            ),
            (
                "b2".to_string(),
                vec![("x.rs".to_string(), 1, 2, false), ("z.rs".to_string(), 5, 6, false)]
            ),
            ("c3".to_string(), vec![]),
        ]
    );
    assert!(group_rows(&Vec::new()).is_empty());
}

#[test]
fn row_with_a_missing_file_column_holds_no_file() {
    let mut partial = row("a1", Some(("y.rs", 3, 4, 1)));
    partial.deleted_lines = None;
    let rows = vec![partial, row("a1", Some(("z.rs", 1, 1, 0)))];
    assert_eq!(
        summary(&group_rows(&rows)),
        vec![("a1".to_string(), vec![("z.rs".to_string(), 1, 1, false)])]
    );
}

#[test]
fn dedup_keeps_the_first_entry_of_each_path() {
    let files = vec![
        file("a", 1, 0, false),
        file("b", 2, 0, false),
        file("a", 3, 0, true),
        file("c", 4, 0, false),
        file("b", 5, 0, false),
    ];
    let kept: Vec<_> = dedup_by_path(&files).iter().map(entry).collect();
    assert_eq!(
        kept,
        vec![
            ("a".to_string(), 1, 0, false),
            ("b".to_string(), 2, 0, false),
            ("c".to_string(), 4, 0, false)
        ]
    );
    assert!(dedup_by_path(&Vec::new()).is_empty());
}

#[test]
fn find_info_takes_the_last_record_of_an_id() {
    let infos = vec![info("a", 1, &[]), info("b", 2, &[]), info("a", 3, &["b"])];
    assert_eq!(find_info(&infos, &"a".to_string()).unwrap().timestamp, Timestamp::from_secs(3));
    assert_eq!(find_info(&infos, &"b".to_string()).unwrap().timestamp, Timestamp::from_secs(2));
    assert!(find_info(&infos, &"c".to_string()).is_none());
}

#[test]
fn commit_write_holds_the_row_and_the_deduplicated_files() {
    let files = vec![file("a", 1, 0, false), file("a", 9, 9, false)];
    let write = commit_write(
        &info("c1", 100, &["p1", "p2"]),
        &files,
        Ok("[\"p1\",\"p2\"]".to_string()),
    )
    .unwrap();
    assert_eq!(write.id, "c1");
    assert_eq!(write.author_name, "author of c1");
    assert_eq!(write.author_email, "c1@example.com");
    assert_eq!(write.message, "message of c1");
    assert_eq!(write.timestamp, 100);
    assert_eq!(write.parent_ids, "[\"p1\",\"p2\"]");
    assert_eq!(write.files.iter().map(entry).collect::<Vec<_>>(), vec![(
        "a".to_string(),
        1,
        0,
        false
    )]);
}

#[test]
fn commit_write_passes_the_json_error_on() {
    let error = serde_json::from_str::<Vec<String>>("not json").unwrap_err();
    let text = error.to_string();
    match commit_write(&info("c1", 100, &[]), &Vec::new(), Err(error)) {
        Err(GmapError::Serde(e)) => assert_eq!(e.to_string(), text),
        other => panic!("unexpected {:?}", other),
    }
}

#[test]
fn store_plans_writes_for_commits_with_metadata_only() {
    let commits = vec![
        stats("c1", vec![file("a", 1, 0, false)]),
        stats("c2", vec![file("b", 2, 0, false)]),
        stats("c3", vec![]),
    ];
    let infos = vec![info("c3", 300, &["c2"]), info("c1", 100, &[])];
    let writes = store_commit_stats(&commits, &infos).unwrap();
    assert_eq!(writes.len(), 2);
    assert_eq!(writes[0].id, "c1");
    assert_eq!(writes[0].parent_ids, "[]");
    assert_eq!(writes[0].timestamp, 100);
    assert_eq!(writes[1].id, "c3");
    assert_eq!(writes[1].parent_ids, "[\"c2\"]");
    assert!(writes[1].files.is_empty());
    assert!(store_commit_stats(&commits, &Vec::new()).unwrap().is_empty());
    assert!(store_commit_stats(&Vec::new(), &infos).unwrap().is_empty());
}

#[test]
fn parent_ids_are_written_as_a_json_list() {
    let commits = vec![stats("c1", vec![])];
    let infos = vec![info("c1", 1, &["a\"b", "c\\d", "é"])];
    let writes = store_commit_stats(&commits, &infos).unwrap();
    assert_eq!(writes[0].parent_ids, "[\"a\\\"b\",\"c\\\\d\",\"é\"]");
}

#[test]
fn stored_commits_are_read_back_sorted_by_id() {
    let mut conn = open_store();
    let commits = vec![
        stats("bbb", vec![file("x", 1, 2, false), file("y", 3, 4, true), file("x", 9, 9, false)]),
        stats("aaa", vec![]),
        stats("ccc", vec![file("z", 5, 6, false)]),
    ];
    let infos = vec![info("aaa", 300, &[]), info("bbb", 100, &["aaa"]), info("ccc", 200, &[])];
    run_writes(&mut conn, &store_commit_stats(&commits, &infos).unwrap());
    assert_eq!(
        summary(&read_stats(&conn, &DateRange::new())),
        vec![
            ("aaa".to_string(), vec![]),
            (
                "bbb".to_string(),
                vec![("x".to_string(), 1, 2, false), ("y".to_string(), 3, 4, true)]
            ),
            ("ccc".to_string(), vec![("z".to_string(), 5, 6, false)]),
        ]
    );
}

#[test]
fn stored_commits_are_filtered_by_the_range() {
    let mut conn = open_store();
    let commits = vec![stats("c1", vec![]), stats("c2", vec![]), stats("c3", vec![])];
    let infos = vec![info("c1", 100, &[]), info("c2", 200, &[]), info("c3", 300, &[])];
    run_writes(&mut conn, &store_commit_stats(&commits, &infos).unwrap());
    let ids = |range: DateRange| -> Vec<String> {
        read_stats(&conn, &range).iter().map(|s| s.commit_id.clone()).collect()
    };
    let at = Timestamp::from_secs;
    assert_eq!(ids(DateRange::new()), strings(&["c1", "c2", "c3"]));
    assert_eq!(ids(DateRange::new().with_since(at(200))), strings(&["c2", "c3"]));
    assert_eq!(ids(DateRange::new().with_until(at(200))), strings(&["c1", "c2"]));
    assert_eq!(ids(DateRange::new().with_since(at(150)).with_until(at(250))), strings(&["c2"]));
    assert_eq!(ids(DateRange::new().with_since(at(301))), Vec::<String>::new());
}

#[test]
fn storing_a_commit_again_replaces_its_rows() {
    let mut conn = open_store();
    let infos = vec![info("c1", 100, &[])];
    let first = vec![stats("c1", vec![file("a", 1, 1, false), file("b", 2, 2, false)])];
    run_writes(&mut conn, &store_commit_stats(&first, &infos).unwrap());
    let second = vec![stats("c1", vec![file("b", 7, 7, false)])];
    run_writes(&mut conn, &store_commit_stats(&second, &vec![info("c1", 150, &["p"])]).unwrap());
    assert_eq!(
        summary(&read_stats(&conn, &DateRange::new())),
        vec![("c1".to_string(), vec![("b".to_string(), 7, 7, false)])]
    );
    let stored = read_info(&conn, "c1").unwrap().unwrap();
    assert_eq!(stored.timestamp, Timestamp::from_secs(150));
    assert_eq!(stored.parent_ids, strings(&["p"]));
}

#[test]
fn commit_info_is_read_back_as_it_was_stored() {
    let mut conn = open_store();
    let written = info("c1", 1_431_648_000, &["p1", "p\"2"]);
    run_writes(
        &mut conn,
        &store_commit_stats(&vec![stats("c1", vec![])], &vec![written.clone()]).unwrap(),
    );
    let stored = read_info(&conn, "c1").unwrap().unwrap();
    assert_eq!(stored.id, written.id);
    assert_eq!(stored.author_name, written.author_name);
    assert_eq!(stored.author_email, written.author_email);
    assert_eq!(stored.message, written.message);
    assert_eq!(stored.timestamp, written.timestamp);
    assert_eq!(stored.parent_ids, written.parent_ids);
    assert!(read_info(&conn, "nope").unwrap().is_none());
}

#[test]
fn absent_row_is_no_commit() {
    assert!(matches!(get_commit_info(None), Ok(None)));
}

fn commit_row(timestamp: i64, parent_ids: &str) -> CommitRow {
    CommitRow {
        id: "c1".to_string(),
        author_name: "a".to_string(),
        author_email: "e".to_string(),
        message: "m".to_string(),
        timestamp,
        parent_ids: parent_ids.to_string(),
    }
}

#[test]
fn row_with_a_timestamp_beyond_the_calendar_is_rejected() {
    match get_commit_info(Some(&commit_row(i64::MAX, "[]"))) {
        Err(GmapError::Database(column)) => assert_eq!(column, "timestamp"),
        other => panic!("unexpected {:?}", other),
    }
    match get_commit_info(Some(&commit_row(i64::MIN, "not json"))) {
        Err(GmapError::Database(column)) => assert_eq!(column, "timestamp"),
        other => panic!("unexpected {:?}", other),
    }
}

#[test]
fn row_with_malformed_parent_ids_is_rejected() {
    for text in ["not json", "", "{}", "[1,2]", "[\"a\"", "\"a\""] {
        match get_commit_info(Some(&commit_row(0, text))) {
            Err(GmapError::Database(column)) => assert_eq!(column, "parent_ids", "text {text}"),
            other => panic!("text {text} gave {:?}", other),
        }
    }
}

#[test]
fn row_is_decoded_into_a_record() {
    let info = get_commit_info(Some(&commit_row(-5, " [ \"x\" , \"y\" ] "))).unwrap().unwrap();
    assert_eq!(info.id, "c1");
    assert_eq!(info.author_name, "a");
    assert_eq!(info.author_email, "e");
    assert_eq!(info.message, "m");
    assert_eq!(info.timestamp, Timestamp { secs: -5, nanos: 0 });
    assert_eq!(info.parent_ids, strings(&["x", "y"]));
}

#[test]
fn decode_commit_row_names_the_column_at_fault() {
    let row = commit_row(7, "ignored");
    assert!(
        matches!(decode_commit_row(&row, false, Some(vec![])), Err(GmapError::Database(c)) if c == "timestamp")
    );
    assert!(
        matches!(decode_commit_row(&row, false, None), Err(GmapError::Database(c)) if c == "timestamp")
    );
    assert!(
        matches!(decode_commit_row(&row, true, None), Err(GmapError::Database(c)) if c == "parent_ids")
    );
    let info = decode_commit_row(&row, true, Some(strings(&["p"]))).unwrap();
    assert_eq!(info.timestamp, Timestamp::from_secs(7));
    assert_eq!(info.parent_ids, strings(&["p"]));
}

#[test]
fn no_ids_need_no_query_and_miss_nothing() {
    assert_eq!(known_ids_query(0), None);
    assert!(get_missing_commits(&Vec::new(), &Vec::new()).is_empty());
    assert!(get_missing_commits(&Vec::new(), &strings(&["a"])).is_empty());
}

#[test]
fn known_ids_query_has_one_placeholder_per_id() {
    assert_eq!(known_ids_query(1).unwrap(), "SELECT id FROM commits WHERE id IN (?)");
    assert_eq!(known_ids_query(2).unwrap(), "SELECT id FROM commits WHERE id IN (?,?)");
    assert_eq!(known_ids_query(4).unwrap(), "SELECT id FROM commits WHERE id IN (?,?,?,?)");
}

#[test]
fn missing_commits_are_the_ids_the_store_lacks() {
    let all = strings(&["c3", "c1", "c4", "c2"]);
    assert_eq!(get_missing_commits(&all, &strings(&["c1", "c2"])), strings(&["c3", "c4"]));
    assert_eq!(get_missing_commits(&all, &Vec::new()), all);
    assert!(get_missing_commits(&all, &strings(&["c4", "c3", "c2", "c1", "c0"])).is_empty());
    assert_eq!(
        get_missing_commits(&strings(&["a", "b", "a"]), &strings(&["b"])),
        strings(&["a", "a"])
    );
}

#[test]
fn missing_commits_do_not_depend_on_the_order_asked() {
    let existing = strings(&["c2", "c5"]);
    let mut forward = get_missing_commits(&strings(&["c1", "c2", "c3", "c4"]), &existing);
    let mut backward = get_missing_commits(&strings(&["c4", "c3", "c2", "c1"]), &existing);
    forward.sort();
    backward.sort();
    assert_eq!(forward, backward);
    assert_eq!(forward, strings(&["c1", "c3", "c4"]));
}

#[test]
fn missing_commits_against_the_store() {
    let mut conn = open_store();
    let commits = vec![stats("c1", vec![]), stats("c2", vec![])];
    let infos = vec![info("c1", 100, &[]), info("c2", 200, &[])];
    run_writes(&mut conn, &store_commit_stats(&commits, &infos).unwrap());
    let asked = strings(&["c3", "c2", "c0", "c1"]);
    let known = known_ids(&conn, &asked);
    assert_eq!(get_missing_commits(&asked, &known), strings(&["c3", "c0"]));
    assert!(known_ids(&conn, &[]).is_empty());
}
