//! The task collection as mathematics: what each operation makes of it, and
//! what follows for identifiers.

use vstd::prelude::*;
use crate::task::TaskView;
use crate::text::{lowercase, occurs_in};

verus! {

/// The texts of a vector of strings.
pub open spec fn texts(lines: Seq<String>) -> Seq<Seq<char>> {
    lines.map_values(|l: String| l@)
}

/// How a task is shown: `[x]` or `[ ]`, the name, and the description after
/// a dash where there is one.
pub open spec fn line_of(t: TaskView) -> Seq<char> {
    let head = (if t.completed {
        "[x] "@
    } else {
        "[ ] "@
    }) + t.name;
    match t.description {
        Some(text) => head + " - "@ + text,
        None => head,
    }
}

/// What is shown of a collection: a line for each task in order, or one line
/// that says there is none.
pub open spec fn listing(s: Seq<TaskView>) -> Seq<Seq<char>> {
    if s.len() == 0 {
        seq!["No tasks found."@]
    } else {
        s.map_values(|t: TaskView| line_of(t))
    }
}

/// The identifiers of a collection, in its order.
pub open spec fn ids(s: Seq<TaskView>) -> Seq<nat> {
    s.map_values(|t: TaskView| t.id)
}

/// The largest identifier in a collection, 0 where it is empty.
pub open spec fn max_id(s: Seq<TaskView>) -> nat
    decreases s.len(),
{
    if s.len() == 0 {
        0
    } else {
        let rest = max_id(s.drop_last());
        if s.last().id > rest {
            s.last().id
        } else {
            rest
        }
    }
}

/// No two tasks of the collection share an identifier.
pub open spec fn distinct_ids(s: Seq<TaskView>) -> bool {
    forall|i: int, j: int| 0 <= i < j < s.len() ==> (#[trigger] s[i]).id != (#[trigger] s[j]).id
}

/// Some task of the collection has the identifier.
pub open spec fn has_id(s: Seq<TaskView>, id: nat) -> bool {
    exists|i: int| 0 <= i < s.len() && (#[trigger] s[i]).id == id
}

/// Where the first task with the identifier stands; the collection's length
/// where none has it.
pub open spec fn position(s: Seq<TaskView>, id: nat) -> int
    decreases s.len(),
{
    if s.len() == 0 {
        0
    } else if s.first().id == id {
        0
    } else {
        1 + position(s.drop_first(), id)
    }
}

/// The collection with one more task at its end: not completed, and with an
/// identifier one above the largest there is.
pub open spec fn with_added(
    s: Seq<TaskView>,
    name: Seq<char>,
    description: Option<Seq<char>>,
) -> Seq<TaskView> {
    s.push(TaskView { id: max_id(s) + 1, name, description, completed: false })
}

/// The collection with the first task of that identifier completed; the
/// collection itself where no task has it.
pub open spec fn with_completed(s: Seq<TaskView>, id: nat) -> Seq<TaskView> {
    if has_id(s, id) {
        let at = position(s, id);
        s.update(at, TaskView { completed: true, ..s[at] })
    } else {
        s
    }
}

/// The test that a task's identifier is another one than `id`.
pub open spec fn has_other_id(id: nat) -> spec_fn(TaskView) -> bool {
    |t: TaskView| t.id != id
}

/// The collection without the tasks of that identifier, the others in their
/// order.
pub open spec fn without_id(s: Seq<TaskView>, id: nat) -> Seq<TaskView> {
    s.filter(has_other_id(id))
}

/// Whether a task of that name is meant by `needle`: the needle stands in the
/// name, both taken in lower case.
pub open spec fn name_matches(name: Seq<char>, needle: Seq<char>) -> bool {
    occurs_in(lowercase(needle), lowercase(name))
}

/// The test that a task's name is meant by `needle`.
pub open spec fn meant_by(needle: Seq<char>) -> spec_fn(TaskView) -> bool {
    |t: TaskView| name_matches(t.name, needle)
}

/// The identifiers of the tasks whose name is meant by `needle`, in the
/// collection's order.
pub open spec fn matching_ids(s: Seq<TaskView>, needle: Seq<char>) -> Seq<nat> {
    ids(s.filter(meant_by(needle)))
}

/// Every identifier of the collection is at most `max_id`.
pub proof fn lemma_max_id_bounds(s: Seq<TaskView>)
    ensures
        forall|i: int| 0 <= i < s.len() ==> (#[trigger] s[i]).id <= max_id(s),
    decreases s.len(),
{
    if s.len() > 0 {
        lemma_max_id_bounds(s.drop_last());
        assert forall|i: int| 0 <= i < s.len() implies (#[trigger] s[i]).id <= max_id(s) by {
            if i < s.len() - 1 {
                assert(s.drop_last()[i] == s[i]);
            }
        }
    }
}

/// A collection with the identifiers of one that has no identifier twice has
/// none twice either.
pub proof fn lemma_same_ids_stay_distinct(before: Seq<TaskView>, after: Seq<TaskView>)
    requires
        ids(after) == ids(before),
    ensures
        distinct_ids(before) ==> distinct_ids(after),
{
    if distinct_ids(before) {
        assert(ids(after).len() == after.len());
        assert(ids(before).len() == before.len());
        assert forall|i: int, j: int| 0 <= i < j < after.len() implies (#[trigger] after[i]).id
            != (#[trigger] after[j]).id by {
            assert(ids(after)[i] == after[i].id && ids(after)[j] == after[j].id);
            assert(ids(before)[i] == before[i].id && ids(before)[j] == before[j].id);
        }
    }
}

/// What `position` finds: the first task with the identifier, if there is one.
pub proof fn lemma_position(s: Seq<TaskView>, id: nat)
    ensures
        0 <= position(s, id) <= s.len(),
        position(s, id) < s.len() <==> has_id(s, id),
        position(s, id) < s.len() ==> s[position(s, id)].id == id,
        forall|i: int| 0 <= i < position(s, id) ==> (#[trigger] s[i]).id != id,
    decreases s.len(),
{
    if s.len() == 0 {
    } else if s.first().id == id {
        assert(s[0].id == id);
    } else {
        let rest = s.drop_first();
        lemma_position(rest, id);
        let at = position(rest, id);
        if at < rest.len() {
            assert(s[at + 1] == rest[at]);
        }
        if has_id(s, id) {
            let i = choose|i: int| 0 <= i < s.len() && (#[trigger] s[i]).id == id;
            assert(rest[i - 1] == s[i]);
        }
        assert forall|i: int| 0 <= i < position(s, id) implies (#[trigger] s[i]).id != id by {
            if i > 0 {
                assert(rest[i - 1] == s[i]);
            }
        }
    }
}

/// Deleting by identifier removes the one task that has it and no other,
/// where identifiers are distinct, and nothing where no task has it. What is
/// left holds no task with the identifier, so deleting again finds none.
pub proof fn lemma_without_id(s: Seq<TaskView>, id: nat)
    ensures
        !has_id(without_id(s, id), id),
        !has_id(s, id) ==> without_id(s, id) == s,
        has_id(s, id) && distinct_ids(s) ==> without_id(s, id) == s.remove(position(s, id)),
    decreases s.len(),
{
    broadcast use Seq::lemma_filter_pred;

    reveal(Seq::filter);
    let keep = has_other_id(id);
    if s.len() > 0 {
        let rest = s.drop_last();
        let last = s.last();
        lemma_without_id(rest, id);
        lemma_position(s, id);
        lemma_position(rest, id);
        assert(s =~= rest.push(last));
        if !has_id(s, id) {
            assert(!has_id(rest, id)) by {
                if has_id(rest, id) {
                    let i = choose|i: int| 0 <= i < rest.len() && (#[trigger] rest[i]).id == id;
                    assert(s[i] == rest[i]);
                }
            }
            assert(s[s.len() - 1].id != id);
            assert(without_id(s, id) =~= s);
        } else if distinct_ids(s) {
            let at = position(s, id);
            assert(distinct_ids(rest)) by {
                assert forall|i: int, j: int| 0 <= i < j < rest.len() implies (#[trigger] rest[i]).id
                    != (#[trigger] rest[j]).id by {
                    assert(rest[i] == s[i] && rest[j] == s[j]);
                }
            }
            if at == s.len() - 1 {
                assert(!has_id(rest, id)) by {
                    if has_id(rest, id) {
                        let i = choose|i: int| 0 <= i < rest.len() && (#[trigger] rest[i]).id == id;
                        assert(s[i] == rest[i]);
                    }
                }
                assert(without_id(s, id) =~= s.remove(at));
            } else {
                assert(s[at].id == id);
                assert(last.id != id) by {
                    assert(s[s.len() - 1] == last);
                }
                assert(rest[at] == s[at]);
                assert(has_id(rest, id));
                let there = position(rest, id);
                assert(there == at) by {
                    assert(rest[there] == s[there]);
                }
                assert(without_id(s, id) =~= s.remove(at));
            }
        }
    }
    assert(!has_id(without_id(s, id), id)) by {
        if has_id(without_id(s, id), id) {
            let i = choose|i: int|
                0 <= i < without_id(s, id).len() && (#[trigger] without_id(s, id)[i]).id == id;
            assert(keep(s.filter(keep)[i]));
        }
    }
}

/// Deleting by identifier leaves the identifiers distinct where they were.
pub proof fn lemma_without_id_stays_distinct(s: Seq<TaskView>, id: nat)
    requires
        distinct_ids(s),
    ensures
        distinct_ids(without_id(s, id)),
{
    lemma_without_id(s, id);
    if has_id(s, id) {
        lemma_position(s, id);
        let at = position(s, id);
        let left = s.remove(at);
        assert forall|a: int, b: int| 0 <= a < b < left.len() implies (#[trigger] left[a]).id
            != (#[trigger] left[b]).id by {
            let a0 = if a < at { a } else { a + 1 };
            let b0 = if b < at { b } else { b + 1 };
            assert(left[a] == s[a0] && left[b] == s[b0]);
        }
    }
}

/// Every identifier that a name finds belongs to a task of the collection.
pub proof fn lemma_matches_are_tasks(s: Seq<TaskView>, needle: Seq<char>, at: int)
    requires
        0 <= at < matching_ids(s, needle).len(),
    ensures
        has_id(s, matching_ids(s, needle)[at]),
{
    let chosen = s.filter(meant_by(needle));
    s.lemma_filter_contains_rev(meant_by(needle), chosen[at]);
    assert(chosen.contains(chosen[at]));
    let i = choose|i: int| 0 <= i < s.len() && s[i] == chosen[at];
    assert(s[i].id == matching_ids(s, needle)[at]);
}

/// The collection after the tasks of `items`, each a name and a description,
/// were added to it one after another.
pub open spec fn with_all_added(
    s: Seq<TaskView>,
    items: Seq<(Seq<char>, Option<Seq<char>>)>,
) -> Seq<TaskView>
    decreases items.len(),
{
    if items.len() == 0 {
        s
    } else {
        with_added(with_all_added(s, items.drop_last()), items.last().0, items.last().1)
    }
}

/// Tasks added to an empty collection, with none removed in between, are
/// numbered 1, 2, 3 and so on in the order in which they were added.
pub proof fn lemma_added_tasks_count_up(items: Seq<(Seq<char>, Option<Seq<char>>)>)
    ensures
        ids(with_all_added(Seq::empty(), items)) == Seq::new(items.len(), |i: int| (i + 1) as nat),
        max_id(with_all_added(Seq::empty(), items)) == items.len(),
    decreases items.len(),
{
    let all = with_all_added(Seq::empty(), items);
    if items.len() == 0 {
        assert(ids(all) =~= Seq::new(items.len(), |i: int| (i + 1) as nat));
    } else {
        let earlier = with_all_added(Seq::empty(), items.drop_last());
        lemma_added_tasks_count_up(items.drop_last());
        assert(all.drop_last() =~= earlier);
        assert(ids(earlier).len() == earlier.len());
        assert forall|i: int| 0 <= i < all.len() implies ids(all)[i] == (i + 1) as nat by {
            if i < earlier.len() {
                assert(all[i] == earlier[i]);
                assert(ids(earlier)[i] == earlier[i].id);
            }
        }
        assert(ids(all) =~= Seq::new(items.len(), |i: int| (i + 1) as nat));
    }
}

/// Completing touches one task: it sets the flag of the first task with the
/// identifier and leaves every other task as it was. Done a second time it
/// finds the task again and changes nothing more.
pub proof fn lemma_complete_once_or_twice(s: Seq<TaskView>, id: nat)
    requires
        has_id(s, id),
    ensures
        with_completed(s, id).len() == s.len(),
        with_completed(s, id)[position(s, id)] == (TaskView {
            completed: true,
            ..s[position(s, id)]
        }),
        forall|i: int|
            0 <= i < s.len() && i != position(s, id) ==> #[trigger] with_completed(s, id)[i]
                == s[i],
        has_id(with_completed(s, id), id),
        with_completed(with_completed(s, id), id) == with_completed(s, id),
{
    let at = position(s, id);
    let done = with_completed(s, id);
    lemma_position(s, id);
    lemma_position(done, id);
    assert(done[at].id == id);
    assert(has_id(done, id));
    let again = position(done, id);
    assert(again == at) by {
        if again < at {
            assert(done[again] == s[again]);
        }
    }
    assert(with_completed(done, id) =~= done);
}

} // verus!
