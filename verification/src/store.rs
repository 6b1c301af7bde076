//! The task collection at work: how identifiers are given out, how tasks are
//! found, completed, removed and listed. The collection is a plain vector;
//! reading and writing where it is kept is the caller's part.

use vstd::prelude::*;
use crate::model::{
    distinct_ids, has_id, has_other_id, ids, lemma_max_id_bounds, lemma_position,
    lemma_same_ids_stay_distinct, lemma_without_id, lemma_without_id_stays_distinct, line_of,
    listing, matching_ids, max_id, meant_by, texts, with_added, with_completed, without_id,
};
use crate::task::{views, Task, TaskView};
use crate::text::{contains, lemma_empty_occurs_everywhere, lowercase, text_of, to_lowercase};

verus! {

/// The line that shows one task.
pub fn task_line(task: &Task) -> (line: String)
    ensures
        line@ == line_of(task@),
{
    let mut line = String::from_str(if task.completed() { "[x] " } else { "[ ] " });
    line.append(task.name());
    match task.description() {
        Some(text) => {
            line.append(" - ");
            line.append(text);
        },
        None => {},
    }
    line
}

/// The lines to print for the collection, in its order.
pub fn print_tasks(tasks: &Vec<Task>) -> (lines: Vec<String>)
    ensures
        texts(lines@) == listing(views(tasks@)),
{
    let mut lines: Vec<String> = Vec::new();
    if tasks.len() == 0 {
        lines.push(String::from_str("No tasks found."));
        assert(texts(lines@) =~= listing(views(tasks@)));
        return lines;
    }
    let mut i: usize = 0;
    while i < tasks.len()
        invariant
            i <= tasks.len(),
            lines.len() == i,
            forall|j: int| 0 <= j < i ==> (#[trigger] lines[j])@ == line_of(tasks[j]@),
        decreases tasks.len() - i,
    {
        lines.push(task_line(&tasks[i]));
        i = i + 1;
    }
    assert(texts(lines@) =~= listing(views(tasks@)));
    lines
}

/// Why an operation on the stored collection failed.
#[derive(Debug, Clone, PartialEq, Eq)]
pub enum StoreError {
    /// What holds the collection could not be read or written; the text says
    /// why.
    Io(String),
    /// What was read is no task collection; the text says why.
    Parse(String),
    /// No task has the identifier that was asked for.
    NotFound,
}

impl StoreError {
    /// The error in words.
    pub fn message(&self) -> (text: String)
        ensures
            text@ == match *self {
                StoreError::Io(why) => why@,
                StoreError::Parse(why) => why@,
                StoreError::NotFound => "Task not found."@,
            },
    {
        match self {
            StoreError::Io(why) => why.clone(),
            StoreError::Parse(why) => why.clone(),
            StoreError::NotFound => String::from_str("Task not found."),
        }
    }
}

/// What an attempt to read the stored collection gave.
#[derive(Debug, Clone, PartialEq, Eq)]
pub enum Stored {
    /// Nothing has been stored yet.
    Missing,
    /// Something is stored but could not be read; the text says why.
    Unreadable(String),
    /// What was read is not a list of task records; the text says why.
    Malformed(String),
    /// The tasks that were read, in their stored order.
    Tasks(Vec<Task>),
}

/// The collection to work on, given what reading it gave: where nothing is
/// stored yet the collection is empty, which is no error.
pub fn get_tasks(stored: Stored) -> (loaded: Result<Vec<Task>, StoreError>)
    ensures
        match stored {
            Stored::Missing => loaded matches Ok(tasks) && tasks@.len() == 0,
            Stored::Unreadable(why) => loaded == Err::<Vec<Task>, StoreError>(StoreError::Io(why)),
            Stored::Malformed(why) => loaded == Err::<Vec<Task>, StoreError>(
                StoreError::Parse(why),
            ),
            Stored::Tasks(tasks) => loaded == Ok::<Vec<Task>, StoreError>(tasks),
        },
{
    match stored {
        Stored::Missing => Ok(Vec::new()),
        Stored::Unreadable(why) => Err(StoreError::Io(why)),
        Stored::Malformed(why) => Err(StoreError::Parse(why)),
        Stored::Tasks(tasks) => Ok(tasks),
    }
}

/// The largest identifier of the collection.
pub fn highest_id(tasks: &Vec<Task>) -> (highest: u32)
    ensures
        highest as nat == max_id(views(tasks@)),
{
    let mut highest: u32 = 0;
    let mut i: usize = 0;
    while i < tasks.len()
        invariant
            i <= tasks.len(),
            highest as nat == max_id(views(tasks@).take(i as int)),
        decreases tasks.len() - i,
    {
        let id: u32 = tasks[i].id();
        proof {
            let next = views(tasks@).take(i + 1);
            assert(next.drop_last() =~= views(tasks@).take(i as int));
            assert(next.last() == tasks[i as int]@);
        }
        if id > highest {
            highest = id;
        }
        i = i + 1;
    }
    assert(views(tasks@).take(tasks.len() as int) =~= views(tasks@));
    highest
}

/// Adds a task to the end of the collection and returns its identifier: one
/// above the largest that the collection holds, 1 where it holds none. The
/// task is not completed.
pub fn save_task(tasks: &mut Vec<Task>, name: String, description: Option<String>) -> (id: u32)
    requires
        max_id(views(old(tasks)@)) < u32::MAX,
    ensures
        id as nat == max_id(views(old(tasks)@)) + 1,
        views(final(tasks)@) == with_added(views(old(tasks)@), name@, text_of(description)),
        distinct_ids(views(old(tasks)@)) ==> distinct_ids(views(final(tasks)@)),
{
    let id: u32 = highest_id(tasks) + 1;
    let task = Task::new(id, name, description, false);
    tasks.push(task);
    proof {
        let before = views(old(tasks)@);
        let after = views(tasks@);
        assert(after =~= with_added(before, name@, text_of(description)));
        lemma_max_id_bounds(before);
        if distinct_ids(before) {
            assert forall|i: int, j: int| 0 <= i < j < after.len() implies (#[trigger] after[i]).id
                != (#[trigger] after[j]).id by {
                assert(after[i] == before[i]);
                if j < before.len() {
                    assert(after[j] == before[j]);
                }
            }
        }
    }
    id
}

/// Removes the task with the identifier, and fails where no task has it,
/// leaving the collection as it was. Should several tasks share the
/// identifier, all of them go.
pub fn delete_task(tasks: &mut Vec<Task>, id: u32) -> (done: Result<(), StoreError>)
    ensures
        match done {
            Ok(_) => has_id(views(old(tasks)@), id as nat) && views(final(tasks)@) == without_id(
                views(old(tasks)@),
                id as nat,
            ),
            Err(e) => e == StoreError::NotFound && !has_id(views(old(tasks)@), id as nat)
                && final(tasks)@ == old(tasks)@,
        },
        distinct_ids(views(old(tasks)@)) ==> distinct_ids(views(final(tasks)@)),
{
    let ghost before = tasks@;
    let mut removed = false;
    let mut i: usize = 0;
    assert(views(before.take(0)) =~= Seq::<TaskView>::empty());
    assert(without_id(Seq::<TaskView>::empty(), id as nat) =~= Seq::<TaskView>::empty()) by {
        reveal(Seq::filter);
    }
    while i < tasks.len()
        invariant
            i <= tasks.len() <= before.len(),
            tasks@.skip(i as int) == before.skip(i + before.len() - tasks.len()),
            views(tasks@.take(i as int)) == without_id(
                views(before.take(i + before.len() - tasks.len())),
                id as nat,
            ),
            removed <==> tasks.len() < before.len(),
            removed <==> has_id(views(before.take(i + before.len() - tasks.len())), id as nat),
            !removed ==> tasks@ == before,
        decreases tasks.len() - i,
    {
        let ghost k = i + before.len() - tasks.len();
        let ghost seen = views(before.take(k));
        let ghost next = views(before.take(k + 1));
        proof {
            assert(tasks@[i as int] == tasks@.skip(i as int)[0]);
            assert(before[k] == before.skip(k)[0]);
            assert(next =~= seen.push(before[k]@));
            if has_id(seen, id as nat) {
                let j = choose|j: int| 0 <= j < seen.len() && (#[trigger] seen[j]).id == id as nat;
                assert(next[j] == seen[j]);
            }
            if has_id(next, id as nat) && before[k]@.id != id as nat {
                let j = choose|j: int| 0 <= j < next.len() && (#[trigger] next[j]).id == id as nat;
                assert(seen[j] == next[j]);
            }
            seen.lemma_filter_push(before[k]@, has_other_id(id as nat));
            assert(without_id(next, id as nat) == if before[k]@.id != id as nat {
                without_id(seen, id as nat).push(before[k]@)
            } else {
                without_id(seen, id as nat)
            });
        }
        if tasks[i].id() == id {
            let ghost current = tasks@;
            tasks.remove(i);
            removed = true;
            proof {
                assert(next[k].id == id as nat);
                assert(tasks@.take(i as int) =~= current.take(i as int));
                assert(tasks@.skip(i as int) =~= current.skip(i as int).skip(1));
                assert(before.skip(k + 1) =~= before.skip(k).skip(1));
            }
        } else {
            proof {
                assert(tasks@.take(i + 1) =~= tasks@.take(i as int).push(tasks@[i as int]));
                assert(views(tasks@.take(i + 1)) =~= views(tasks@.take(i as int)).push(
                    tasks@[i as int]@,
                ));
                assert(tasks@.skip(i + 1) =~= tasks@.skip(i as int).skip(1));
                assert(before.skip(k + 1) =~= before.skip(k).skip(1));
            }
            i = i + 1;
        }
    }
    proof {
        assert(tasks@.take(tasks.len() as int) =~= tasks@);
        assert(before.take(before.len() as int) =~= before);
        lemma_without_id(views(before), id as nat);
        if distinct_ids(views(before)) {
            lemma_without_id_stays_distinct(views(before), id as nat);
        }
    }
    if removed {
        Ok(())
    } else {
        Err(StoreError::NotFound)
    }
}

/// Marks the task with the identifier as completed, and fails where no task
/// has it, leaving the collection as it was. A task that is completed
/// already stays so. Should several tasks share the identifier, the first of
/// them is meant.
pub fn complete_task(tasks: &mut Vec<Task>, id: u32) -> (done: Result<(), StoreError>)
    ensures
        match done {
            Ok(_) => has_id(views(old(tasks)@), id as nat) && views(final(tasks)@)
                == with_completed(views(old(tasks)@), id as nat),
            Err(e) => e == StoreError::NotFound && !has_id(views(old(tasks)@), id as nat)
                && final(tasks)@ == old(tasks)@,
        },
        ids(views(final(tasks)@)) == ids(views(old(tasks)@)),
        distinct_ids(views(old(tasks)@)) ==> distinct_ids(views(final(tasks)@)),
{
    let ghost before = views(tasks@);
    let mut i: usize = 0;
    while i < tasks.len()
        invariant
            i <= tasks.len(),
            tasks@ == old(tasks)@,
            before == views(tasks@),
            forall|j: int| 0 <= j < i ==> (#[trigger] before[j]).id != id as nat,
        decreases tasks.len() - i,
    {
        if tasks[i].id() == id {
            proof {
                lemma_position(before, id as nat);
                assert(before[i as int].id == id as nat);
            }
            tasks[i].complete();
            assert(views(tasks@) =~= with_completed(before, id as nat));
            assert(ids(views(tasks@)) =~= ids(before));
            proof {
                lemma_same_ids_stay_distinct(before, views(tasks@));
            }
            return Ok(());
        }
        i = i + 1;
    }
    Err(StoreError::NotFound)
}

/// The identifiers of the tasks whose name contains `name`, in the
/// collection's order. Case is ignored: both are compared in lower case. The
/// empty text is in every name, so it finds every task.
pub fn get_task_ids(tasks: &Vec<Task>, name: &str) -> (found: Vec<u32>)
    ensures
        found@.map_values(|id: u32| id as nat) == matching_ids(views(tasks@), name@),
        name@.len() == 0 ==> found@.map_values(|id: u32| id as nat) == ids(views(tasks@)),
{
    let needle = to_lowercase(name);
    let ghost wanted = meant_by(name@);
    let mut found: Vec<u32> = Vec::new();
    let mut i: usize = 0;
    assert(views(tasks@).take(0).filter(wanted) =~= Seq::<TaskView>::empty()) by {
        reveal(Seq::filter);
    }
    while i < tasks.len()
        invariant
            i <= tasks.len(),
            needle@ == lowercase(name@),
            wanted == meant_by(name@),
            found@.map_values(|id: u32| id as nat) == ids(views(tasks@).take(i as int).filter(wanted)),
            needle@.len() == 0 ==> found@.map_values(|id: u32| id as nat) == ids(
                views(tasks@).take(i as int),
            ),
        decreases tasks.len() - i,
    {
        let task = &tasks[i];
        let ghost seen = views(tasks@).take(i as int);
        let ghost numbers = found@.map_values(|id: u32| id as nat);
        proof {
            assert(views(tasks@).take(i + 1) =~= seen.push(task@));
            seen.lemma_filter_push(task@, wanted);
            if needle@.len() == 0 {
                lemma_empty_occurs_everywhere(needle@, lowercase(task@.name));
            }
        }
        if contains(to_lowercase(task.name()).as_str(), needle.as_str()) {
            found.push(task.id());
            proof {
                assert(wanted(task@));
                assert(found@.map_values(|id: u32| id as nat) =~= numbers.push(task@.id));
                assert(ids(seen.filter(wanted).push(task@)) =~= ids(seen.filter(wanted)).push(
                    task@.id,
                ));
                assert(ids(seen.push(task@)) =~= ids(seen).push(task@.id));
            }
        } else {
            assert(!wanted(task@));
        }
        i = i + 1;
    }
    assert(views(tasks@).take(tasks.len() as int) =~= views(tasks@));
    found
}

} // verus!
