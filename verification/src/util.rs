//! Filters on paths that the reports share.

use vstd::prelude::*;
use crate::model::{files_view, FileStats, FileStatsView};
use crate::text::{contains, lowercase, occurs_in, starts_with, to_lowercase};

verus! {

/// The content of an optional string slice.
pub open spec fn prefix_view(prefix: Option<&str>) -> Option<Seq<char>> {
    match prefix {
        Some(p) => Some(p@),
        None => None,
    }
}

/// Whether a path passes the prefix filter: every path does where there is
/// no prefix, and otherwise those that begin with it.
pub open spec fn path_matches(path: Seq<char>, prefix: Option<Seq<char>>) -> bool {
    match prefix {
        Some(p) => p.is_prefix_of(path),
        None => true,
    }
}

/// The entries of `files` whose path passes the prefix filter, in their order.
pub open spec fn matching(files: Seq<FileStatsView>, prefix: Option<Seq<char>>) -> Seq<
    FileStatsView,
>
    decreases files.len(),
{
    if files.len() == 0 {
        Seq::empty()
    } else if path_matches(files.last().path, prefix) {
        matching(files.drop_last(), prefix).push(files.last())
    } else {
        matching(files.drop_last(), prefix)
    }
}

/// The contents of a list of borrowed file entries.
pub open spec fn refs_view(files: Seq<&FileStats>) -> Seq<FileStatsView> {
    Seq::new(files.len(), |i: int| files[i]@)
}

/// Whether a path is excluded: some pattern, in lowercase, occurs in the
/// path in lowercase.
pub open spec fn is_excluded(path: Seq<char>, excludes: Seq<Seq<char>>) -> bool {
    exists|i: int|
        0 <= i < excludes.len() && occurs_in(lowercase(#[trigger] excludes[i]), lowercase(path))
}

/// Whether a text passes a filter: every text does where there is no
/// filter, and otherwise those in which the filter occurs, letter case aside.
pub open spec fn passes_filter(text: Seq<char>, filter: Option<Seq<char>>) -> bool {
    match filter {
        Some(f) => occurs_in(lowercase(f), lowercase(text)),
        None => true,
    }
}

/// Whether `text` passes `filter`.
pub fn matches_filter(text: &String, filter: Option<&str>) -> (b: bool)
    ensures
        b == passes_filter(text@, prefix_view(filter)),
{
    match filter {
        Some(f) => {
            let lower_text = to_lowercase(text.as_str());
            let lower_filter = to_lowercase(f);
            contains(lower_text.as_str(), lower_filter.as_str())
        },
        None => true,
    }
}

/// Whether the path of a file entry passes the prefix filter.
pub fn matches_prefix(file: &FileStats, path_prefix: Option<&str>) -> (b: bool)
    ensures
        b == path_matches(file@.path, prefix_view(path_prefix)),
{
    match path_prefix {
        Some(prefix) => starts_with(file.path.as_str(), prefix),
        None => true,
    }
}

/// The entries of `files` whose path begins with `path_prefix`, in their
/// order; all of them where no prefix is given.
pub fn files_matching<'a>(files: &'a [FileStats], path_prefix: Option<&str>) -> (found: Vec<
    &'a FileStats,
>)
    ensures
        refs_view(found@) == matching(files_view(files@), prefix_view(path_prefix)),
{
    let mut found: Vec<&'a FileStats> = Vec::new();
    let mut i: usize = 0;
    assert(refs_view(found@) =~= Seq::<FileStatsView>::empty());
    while i < files.len()
        invariant
            i <= files@.len(),
            refs_view(found@) == matching(
                files_view(files@).subrange(0, i as int),
                prefix_view(path_prefix),
            ),
        decreases files@.len() - i,
    {
        let ghost before = refs_view(found@);
        let ghost next = files_view(files@).subrange(0, i + 1);
        assert(next.drop_last() =~= files_view(files@).subrange(0, i as int));
        assert(next.last() == files@[i as int]@);
        if matches_prefix(&files[i], path_prefix) {
            found.push(&files[i]);
            assert(refs_view(found@) =~= before.push(files@[i as int]@));
        }
        i += 1;
    }
    assert(files_view(files@).subrange(0, i as int) =~= files_view(files@));
    found
}

/// Whether `path` is excluded by one of the patterns `excludes`. A pattern
/// excludes the paths in which it occurs, letter case aside. Without
/// patterns no path is excluded.
pub fn path_excluded(path: &str, excludes: &[String]) -> (excluded: bool)
    ensures
        excluded == is_excluded(path@, Seq::new(excludes@.len(), |i: int| excludes@[i]@)),
{
    let ghost patterns = Seq::new(excludes@.len(), |i: int| excludes@[i]@);
    if excludes.len() == 0 {
        return false;
    }
    let p = to_lowercase(path);
    let mut i: usize = 0;
    while i < excludes.len()
        invariant
            i <= excludes@.len(),
            p@ == lowercase(path@),
            patterns == Seq::new(excludes@.len(), |i: int| excludes@[i]@),
            forall|j: int| 0 <= j < i ==> !occurs_in(lowercase(#[trigger] patterns[j]), p@),
        decreases excludes@.len() - i,
    {
        let ex = to_lowercase(excludes[i].as_str());
        assert(patterns[i as int] == excludes@[i as int]@);
        if contains(p.as_str(), ex.as_str()) {
            return true;
        }
        i += 1;
    }
    false
}

} // verus!
