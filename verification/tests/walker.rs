use std::collections::HashMap;

use gmap::history::collect_commits;
use gmap::model::{DateRange, Timestamp};
use gmap::strmap::StringMap;
use gmap::walker::{CommitMeta, CommitWalker};

fn meta(secs: i64, parents: &[&str]) -> CommitMeta {
    CommitMeta {
        timestamp: Timestamp::from_secs(secs),
        author_name: "Your Name".to_string(),
        author_email: "you@example.com".to_string(),
        message_title: format!("commit at {secs}"),
        parent_ids: parents.iter().map(|p| p.to_string()).collect(),
    }
}

fn graph(commits: &[(&str, i64, &[&str])]) -> HashMap<String, (i64, Vec<String>)> {
    commits
        .iter()
        .map(|(id, secs, parents)| {
            (id.to_string(), (*secs, parents.iter().map(|p| p.to_string()).collect()))
        })
        .collect()
}

/// Runs a walk to its end; returns the ids asked for and the ids included.
fn walk(
    graph: &HashMap<String, (i64, Vec<String>)>,
    head: &str,
    range: DateRange,
    include_merges: bool,
) -> (Vec<String>, Vec<String>) {
    let mut walker = CommitWalker::new(head.to_string(), range, include_merges);
    let mut asked = Vec::new();
    while let Some(id) = walker.next_commit() {
        asked.push(id.clone());
        let (secs, parents) = &graph[&id];
        let parents: Vec<&str> = parents.iter().map(|p| p.as_str()).collect();
        walker.visit(meta(*secs, &parents));
    }
    (asked, walker.commit_ids())
}

fn sorted(mut ids: Vec<String>) -> Vec<String> {
    ids.sort();
    ids
}

#[test]
fn linear_history_is_walked_from_head_to_root() {
    let g = graph(&[("c3", 300, &["c2"]), ("c2", 200, &["c1"]), ("c1", 100, &[])]);
    let (asked, included) = walk(&g, "c3", DateRange::new(), true);
    assert_eq!(asked, vec!["c3", "c2", "c1"]);
    assert_eq!(included, vec!["c3", "c2", "c1"]);
}

#[test]
fn merge_exclusion_keeps_the_ancestors_of_the_merge() {
    // head -> M(parents A, B); A and B are roots.
    let g = graph(&[
        ("head", 400, &["M"]),
        ("M", 300, &["A", "B"]),
        ("A", 100, &[]),
        ("B", 200, &[]),
    ]);
    let (asked, included) = walk(&g, "head", DateRange::new(), false);
    assert_eq!(sorted(asked), vec!["A", "B", "M", "head"]);
    assert_eq!(sorted(included), vec!["A", "B", "head"]);
    let (_, with_merges) = walk(&g, "head", DateRange::new(), true);
    assert_eq!(sorted(with_merges), vec!["A", "B", "M", "head"]);
}

#[test]
fn commits_outside_the_range_still_lead_to_their_parents() {
    let g = graph(&[("c3", 300, &["c2"]), ("c2", 200, &["c1"]), ("c1", 100, &[])]);
    let range = DateRange::new().with_until(Timestamp::from_secs(150));
    let (asked, included) = walk(&g, "c3", range, true);
    assert_eq!(asked, vec!["c3", "c2", "c1"]);
    assert_eq!(included, vec!["c1"]);
    let middle = DateRange::new()
        .with_since(Timestamp::from_secs(200))
        .with_until(Timestamp::from_secs(200));
    let (_, included) = walk(&g, "c3", middle, true);
    assert_eq!(included, vec!["c2"]);
}

#[test]
fn diamond_history_visits_each_commit_once() {
    let g = graph(&[
        ("top", 400, &["left", "right"]),
        ("left", 300, &["base"]),
        ("right", 200, &["base"]),
        ("base", 100, &[]),
    ]);
    let (asked, included) = walk(&g, "top", DateRange::new(), true);
    assert_eq!(asked.len(), 4);
    assert_eq!(sorted(asked.clone()), vec!["base", "left", "right", "top"]);
    // The last parent pushed is taken first.
    assert_eq!(asked, vec!["top", "right", "base", "left"]);
    assert_eq!(included, asked);
}

#[test]
fn walker_keeps_the_metadata_of_included_commits() {
    let mut walker = CommitWalker::new("c2".to_string(), DateRange::new(), true);
    assert_eq!(walker.next_commit(), Some("c2".to_string()));
    assert!(walker.visit(meta(200, &["c1"])));
    assert_eq!(walker.next_commit(), Some("c1".to_string()));
    assert!(walker.visit(meta(100, &[])));
    assert_eq!(walker.next_commit(), None);
    let commits = walker.commits();
    assert_eq!(commits.len(), 2);
    assert_eq!(commits[0].id, "c2");
    assert_eq!(commits[0].author_name, "Your Name");
    assert_eq!(commits[0].author_email, "you@example.com");
    assert_eq!(commits[0].message, "commit at 200");
    assert_eq!(commits[0].timestamp, Timestamp::from_secs(200));
    assert_eq!(commits[0].parent_ids, vec!["c1".to_string()]);
    assert_eq!(commits[1].id, "c1");
    assert!(commits[1].parent_ids.is_empty());
}

#[test]
fn pending_commit_is_handed_out_again_until_it_is_visited() {
    let mut walker = CommitWalker::new("c1".to_string(), DateRange::new(), true);
    assert_eq!(walker.next_commit(), Some("c1".to_string()));
    assert_eq!(walker.next_commit(), Some("c1".to_string()));
    assert!(walker.visit(meta(100, &[])));
    assert_eq!(walker.next_commit(), None);
    assert_eq!(walker.next_commit(), None);
    assert_eq!(walker.commit_ids(), vec!["c1".to_string()]);
}

#[test]
fn visit_without_pending_commit_changes_nothing() {
    let mut walker = CommitWalker::new("c1".to_string(), DateRange::new(), true);
    assert!(!walker.visit(meta(100, &["zz"])));
    assert_eq!(walker.next_commit(), Some("c1".to_string()));
    assert!(walker.visit(meta(100, &[])));
    assert!(!walker.visit(meta(100, &["zz"])));
    assert_eq!(walker.next_commit(), None);
    assert_eq!(walker.commit_ids(), vec!["c1".to_string()]);
}

#[test]
fn excluded_merge_is_reported_as_not_included() {
    let mut walker = CommitWalker::new("m".to_string(), DateRange::new(), false);
    assert_eq!(walker.next_commit(), Some("m".to_string()));
    assert!(!walker.visit(meta(100, &["a", "b"])));
    assert_eq!(walker.next_commit(), Some("b".to_string()));
    assert!(walker.visit(meta(90, &[])));
    assert_eq!(walker.next_commit(), Some("a".to_string()));
    assert!(walker.visit(meta(80, &["b"])));
    assert_eq!(walker.next_commit(), None);
    assert_eq!(walker.commit_ids(), vec!["b".to_string(), "a".to_string()]);
}

fn history(commits: &[(&str, i64, &[&str])]) -> StringMap<CommitMeta> {
    let mut map = StringMap::new();
    for (id, secs, parents) in commits {
        map.insert(id.to_string(), meta(*secs, parents));
    }
    map
}

fn ids_of(commits: Option<Vec<gmap::model::CommitInfo>>) -> Option<Vec<String>> {
    commits.map(|c| c.into_iter().map(|i| i.id).collect())
}

#[test]
fn whole_walk_without_merges_returns_both_sides_of_a_merge() {
    let h = history(&[
        ("head", 400, &["M"]),
        ("M", 300, &["A", "B"]),
        ("A", 200, &[]),
        ("B", 100, &[]),
    ]);
    let without = ids_of(collect_commits(&h, "head".to_string(), DateRange::new(), false));
    assert_eq!(without, Some(vec!["head".to_string(), "B".to_string(), "A".to_string()]));
    let with = ids_of(collect_commits(&h, "head".to_string(), DateRange::new(), true));
    assert_eq!(sorted(with.unwrap()), vec!["A", "B", "M", "head"]);
}

#[test]
fn whole_walk_returns_the_commits_in_range_behind_those_outside() {
    let h = history(&[("c3", 300, &["c2"]), ("c2", 200, &["c1"]), ("c1", 100, &[])]);
    let range = DateRange::new().with_until(Timestamp::from_secs(150));
    let commits = collect_commits(&h, "c3".to_string(), range, true).unwrap();
    assert_eq!(commits.len(), 1);
    assert_eq!(commits[0].id, "c1");
    assert_eq!(commits[0].message, "commit at 100");
    assert_eq!(commits[0].timestamp, Timestamp::from_secs(100));
    assert!(commits[0].parent_ids.is_empty());
}

#[test]
fn whole_walk_gives_up_where_a_commit_is_not_held() {
    let h = history(&[("c2", 200, &["c1"])]);
    assert!(collect_commits(&h, "c2".to_string(), DateRange::new(), true).is_none());
    assert!(collect_commits(&h, "c9".to_string(), DateRange::new(), true).is_none());
    let only = history(&[("c2", 200, &[])]);
    assert_eq!(
        ids_of(collect_commits(&only, "c2".to_string(), DateRange::new(), true)),
        Some(vec!["c2".to_string()])
    );
    // A commit that no walk from the head meets may be absent.
    let side = history(&[("c2", 200, &[]), ("x", 1, &["gone"])]);
    assert_eq!(
        ids_of(collect_commits(&side, "c2".to_string(), DateRange::new(), true)),
        Some(vec!["c2".to_string()])
    );
}

#[test]
fn whole_walk_ends_on_a_history_with_a_cycle() {
    let h = history(&[("a", 1, &["b"]), ("b", 2, &["a"])]);
    assert_eq!(
        ids_of(collect_commits(&h, "a".to_string(), DateRange::new(), true)),
        Some(vec!["a".to_string(), "b".to_string()])
    );
}
