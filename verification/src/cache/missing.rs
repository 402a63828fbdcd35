//! Which commits the store does not hold yet.

use vstd::prelude::*;
use vstd::string::StringExecFns;
use crate::idset::StringSet;
use crate::model::strings_view;

verus! {

/// A list of `n` placeholders, separated by commas.
pub open spec fn placeholders(n: nat) -> Seq<char>
    decreases n,
{
    if n == 0 {
        Seq::empty()
    } else if n == 1 {
        "?"@
    } else {
        placeholders((n - 1) as nat) + ",?"@
    }
}

/// The text of the query that asks which of `n` commit ids the store holds.
pub open spec fn known_ids_sql(n: nat) -> Seq<char> {
    "SELECT id FROM commits WHERE id IN ("@ + placeholders(n) + ")"@
}

/// The ids of `ids` that are not in `known`, in their order.
pub open spec fn without(ids: Seq<Seq<char>>, known: Set<Seq<char>>) -> Seq<Seq<char>>
    decreases ids.len(),
{
    if ids.len() == 0 {
        Seq::empty()
    } else if known.contains(ids.last()) {
        without(ids.drop_last(), known)
    } else {
        without(ids.drop_last(), known).push(ids.last())
    }
}

/// An id is missing exactly if it is asked for and not known. So the missing
/// ids, taken as a set, do not depend on the order in which ids are asked for.
pub proof fn lemma_without_is_difference(ids: Seq<Seq<char>>, known: Set<Seq<char>>)
    ensures
        forall|id: Seq<char>|
            #[trigger] without(ids, known).contains(id) <==> ids.contains(id) && !known.contains(id),
        without(ids, known).to_set() == ids.to_set().difference(known),
    decreases ids.len(),
{
    if ids.len() > 0 {
        let front = ids.drop_last();
        lemma_without_is_difference(front, known);
        let w = without(ids, known);
        let wf = without(front, known);
        let last = ids.last();
        assert(ids[ids.len() - 1] == last);
        assert forall|id: Seq<char>| #[trigger]
            w.contains(id) <==> ids.contains(id) && !known.contains(id) by {
            if w.contains(id) {
                let i = choose|i: int| 0 <= i < w.len() && w[i] == id;
                if i < wf.len() {
                    assert(wf[i] == id);
                    assert(wf.contains(id));
                    assert(front.contains(id));
                    let j = choose|j: int| 0 <= j < front.len() && front[j] == id;
                    assert(ids[j] == id);
                }
            }
            if ids.contains(id) && !known.contains(id) {
                let j = choose|j: int| 0 <= j < ids.len() && ids[j] == id;
                if j < front.len() {
                    assert(front[j] == id);
                    assert(front.contains(id));
                    assert(wf.contains(id));
                    let i = choose|i: int| 0 <= i < wf.len() && wf[i] == id;
                    assert(w[i] == id);
                } else {
                    assert(id == last);
                    assert(w[w.len() - 1] == id);
                }
            }
        }
    }
    assert(without(ids, known).to_set() =~= ids.to_set().difference(known));
}

/// Only the known ids that are asked for matter: an answer of the store that
/// agrees with its content on the ids asked for gives the same missing ids.
pub proof fn lemma_without_restricted(
    ids: Seq<Seq<char>>,
    known: Set<Seq<char>>,
    answer: Set<Seq<char>>,
)
    requires
        forall|id: Seq<char>| ids.contains(id) ==> (known.contains(id) <==> answer.contains(id)),
    ensures
        without(ids, known) == without(ids, answer),
    decreases ids.len(),
{
    if ids.len() > 0 {
        let front = ids.drop_last();
        assert forall|id: Seq<char>| front.contains(id) implies (known.contains(id)
            <==> answer.contains(id)) by {
            let j = choose|j: int| 0 <= j < front.len() && front[j] == id;
            assert(ids[j] == id);
        }
        lemma_without_restricted(front, known, answer);
        assert(ids[ids.len() - 1] == ids.last());
        assert(ids.contains(ids.last()));
    }
}

/// Where no id is asked for twice, none is missing twice.
pub proof fn lemma_without_distinct(ids: Seq<Seq<char>>, known: Set<Seq<char>>)
    requires
        ids.no_duplicates(),
    ensures
        without(ids, known).no_duplicates(),
    decreases ids.len(),
{
    if ids.len() > 0 {
        let front = ids.drop_last();
        lemma_without_distinct(front, known);
        lemma_without_is_difference(front, known);
        let w = without(front, known);
        if !known.contains(ids.last()) {
            assert forall|i: int| 0 <= i < w.len() implies w[i] != ids.last() by {
                assert(w.contains(w[i]));
                assert(front.contains(w[i]));
                let k = choose|k: int| 0 <= k < front.len() && front[k] == w[i];
                assert(ids[k] == w[i]);
            }
        }
    }
}

/// Once every id asked for is known, none is missing.
pub proof fn lemma_without_all_known(ids: Seq<Seq<char>>, known: Set<Seq<char>>)
    requires
        forall|id: Seq<char>| ids.contains(id) ==> known.contains(id),
    ensures
        without(ids, known) == Seq::<Seq<char>>::empty(),
{
    lemma_without_is_difference(ids, known);
    let w = without(ids, known);
    if w.len() > 0 {
        assert(w.contains(w[0]));
    }
    assert(w =~= Seq::<Seq<char>>::empty());
}

/// The query that asks the store which of `count` commit ids it holds, one
/// placeholder for each id. For no ids there is nothing to ask.
pub fn known_ids_query(count: usize) -> (sql: Option<String>)
    ensures
        count == 0 ==> sql is None,
        count > 0 ==> (sql matches Some(text) && text@ == known_ids_sql(count as nat)),
{
    if count == 0 {
        return None;
    }
    let mut sql = String::from_str("SELECT id FROM commits WHERE id IN (");
    sql.append("?");
    let mut n: usize = 1;
    while n < count
        invariant
            1 <= n <= count,
            sql@ == "SELECT id FROM commits WHERE id IN ("@ + placeholders(n as nat),
        decreases count - n,
    {
        sql.append(",?");
        n += 1;
        assert(sql@ =~= "SELECT id FROM commits WHERE id IN ("@ + placeholders(n as nat));
    }
    sql.append(")");
    Some(sql)
}

/// The set of the strings in `items`.
pub fn string_set(items: &Vec<String>) -> (set: StringSet)
    ensures
        set@ == strings_view(items@).to_set(),
{
    let mut set = StringSet::new();
    let mut i: usize = 0;
    while i < items.len()
        invariant
            i <= items@.len(),
            set@ == strings_view(items@).subrange(0, i as int).to_set(),
        decreases items@.len() - i,
    {
        let ghost before = strings_view(items@).subrange(0, i as int);
        set.insert(items[i].clone());
        proof {
            let after = strings_view(items@).subrange(0, i + 1);
            assert(after =~= before.push(items@[i as int]@));
            assert(after.to_set() =~= before.to_set().insert(items@[i as int]@)) by {
                assert forall|x: Seq<char>| after.to_set().contains(x) implies before.to_set().insert(
                    items@[i as int]@,
                ).contains(x) by {
                    let j = choose|j: int| 0 <= j < after.len() && after[j] == x;
                    if j < before.len() {
                        assert(before[j] == x);
                    }
                }
                assert forall|x: Seq<char>|
                    before.to_set().insert(items@[i as int]@).contains(x) implies after.to_set().contains(
                    x,
                ) by {
                    if x == items@[i as int]@ {
                        assert(after[before.len() as int] == x);
                    } else {
                        let j = choose|j: int| 0 <= j < before.len() && before[j] == x;
                        assert(after[j] == x);
                    }
                }
            }
        }
        i += 1;
    }
    assert(strings_view(items@).subrange(0, i as int) =~= strings_view(items@));
    set
}

/// The ids of `all_commit_ids` that are not among `existing`, the ids that
/// the store said it holds. The ids keep their order; for no ids the answer
/// is empty.
pub fn get_missing_commits(all_commit_ids: &Vec<String>, existing: &Vec<String>) -> (missing: Vec<
    String,
>)
    ensures
        strings_view(missing@) == without(
            strings_view(all_commit_ids@),
            strings_view(existing@).to_set(),
        ),
{
    let known = string_set(existing);
    let mut missing: Vec<String> = Vec::new();
    let mut i: usize = 0;
    assert(strings_view(missing@) =~= Seq::<Seq<char>>::empty());
    while i < all_commit_ids.len()
        invariant
            i <= all_commit_ids@.len(),
            known@ == strings_view(existing@).to_set(),
            strings_view(missing@) == without(
                strings_view(all_commit_ids@).subrange(0, i as int),
                known@,
            ),
        decreases all_commit_ids@.len() - i,
    {
        let ghost before = strings_view(missing@);
        let ghost next = strings_view(all_commit_ids@).subrange(0, i + 1);
        assert(next.drop_last() =~= strings_view(all_commit_ids@).subrange(0, i as int));
        assert(next.last() == all_commit_ids@[i as int]@);
        if !known.contains(&all_commit_ids[i]) {
            missing.push(all_commit_ids[i].clone());
            assert(strings_view(missing@) =~= before.push(all_commit_ids@[i as int]@));
        }
        i += 1;
    }
    assert(strings_view(all_commit_ids@).subrange(0, i as int) =~= strings_view(all_commit_ids@));
    missing
}

} // verus!
