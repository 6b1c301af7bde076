//! The commands of the tracker, and what each one does to the collection once
//! its name is resolved.

use vstd::prelude::*;
use crate::prompt::{get_task_data, DescStage, TaskData, TaskDataView};
use crate::model::{
    distinct_ids, has_id, lemma_matches_are_tasks, matching_ids, max_id, with_added,
    with_completed, without_id,
};
use crate::store::{complete_task, delete_task, get_task_ids, save_task};
use crate::task::{views, Task, TaskView};
use crate::text::text_of;

verus! {

/// A command as the command line gives it; what it leaves out is asked for.
#[derive(Debug, Clone, PartialEq, Eq)]
pub enum TodoCommands {
    /// Add a new task.
    Add { name: Option<String>, description: Option<String> },
    /// Complete a task.
    Complete { name: Option<String> },
    /// Delete a task.
    Delete { name: Option<String> },
    /// List all tasks.
    AllTasks,
}

/// The command line: one command, or none.
#[derive(Debug, Clone, PartialEq, Eq)]
pub struct TodoArgs {
    pub command: Option<TodoCommands>,
}

/// The three commands that act on a task named by the user.
#[derive(Debug, Clone, Copy, PartialEq, Eq)]
pub enum Action {
    Add,
    Complete,
    Delete,
}

/// What to do first for a command line.
#[derive(Debug, Clone, PartialEq, Eq)]
pub enum Plan {
    /// No command was given: show the usage text.
    Help,
    /// Show the collection.
    List,
    /// Resolve name and description, then carry the action out.
    Resolve { action: Action, data: TaskData },
}

/// What carrying out an action did.
#[derive(Debug, Clone, Copy, PartialEq, Eq)]
pub enum Outcome {
    /// A task was added under this identifier.
    Added(u32),
    /// The task with this identifier was completed.
    Completed(u32),
    /// The task with this identifier was removed.
    Deleted(u32),
    /// No task's name contains the given one; the collection is as it was.
    NoMatch,
}

impl Action {
    /// The verb that names the action in the prompt for a task's name.
    pub fn word(&self) -> (word: &'static str)
        ensures
            word@ == match *self {
                Action::Add => "add"@,
                Action::Complete => "complete"@,
                Action::Delete => "delete"@,
            },
    {
        match self {
            Action::Add => "add",
            Action::Complete => "complete",
            Action::Delete => "delete",
        }
    }
}

/// The data that a command starts from: what the command line gave of name
/// and description. Only adding asks for a description.
pub open spec fn starting_data(command: TodoCommands) -> TaskDataView {
    match command {
        TodoCommands::Add { name, description } => TaskDataView {
            name: text_of(name),
            description: text_of(description),
            stage: if description is None {
                Some(DescStage::Confirm)
            } else {
                None
            },
        },
        TodoCommands::Complete { name } => TaskDataView {
            name: text_of(name),
            description: None,
            stage: None,
        },
        TodoCommands::Delete { name } => TaskDataView {
            name: text_of(name),
            description: None,
            stage: None,
        },
        TodoCommands::AllTasks => TaskDataView { name: None, description: None, stage: None },
    }
}

/// Decides what a command line asks for: the usage text where it holds no
/// command, the listing, or one of the three actions with the data to resolve
/// for it.
pub fn plan(args: TodoArgs) -> (plan: Plan)
    ensures
        match args.command {
            None => plan is Help,
            Some(TodoCommands::AllTasks) => plan is List,
            Some(command) => plan matches Plan::Resolve { action, data } && data@ == starting_data(
                command,
            ) && action == match command {
                TodoCommands::Add { .. } => Action::Add,
                TodoCommands::Complete { .. } => Action::Complete,
                _ => Action::Delete,
            },
        },
{
    match args.command {
        None => Plan::Help,
        Some(TodoCommands::AllTasks) => Plan::List,
        Some(TodoCommands::Add { name, description }) => Plan::Resolve {
            action: Action::Add,
            data: get_task_data(name, description, true),
        },
        Some(TodoCommands::Complete { name }) => Plan::Resolve {
            action: Action::Complete,
            data: get_task_data(name, None, false),
        },
        Some(TodoCommands::Delete { name }) => Plan::Resolve {
            action: Action::Delete,
            data: get_task_data(name, None, false),
        },
    }
}

/// The task that a name stands for: the first in the collection whose name
/// contains it. Further matches are passed over.
pub open spec fn target(s: Seq<TaskView>, name: Seq<char>) -> Option<nat> {
    let found = matching_ids(s, name);
    if found.len() == 0 {
        None
    } else {
        Some(found[0])
    }
}

/// The collection after an action on it.
pub open spec fn effect(
    s: Seq<TaskView>,
    action: Action,
    name: Seq<char>,
    description: Option<Seq<char>>,
) -> Seq<TaskView> {
    match (action, target(s, name)) {
        (Action::Add, _) => with_added(s, name, description),
        (Action::Complete, Some(id)) => with_completed(s, id),
        (Action::Delete, Some(id)) => without_id(s, id),
        (_, None) => s,
    }
}

/// What is reported of an action on the collection.
pub open spec fn report(s: Seq<TaskView>, action: Action, name: Seq<char>) -> Outcome {
    match (action, target(s, name)) {
        (Action::Add, _) => Outcome::Added((max_id(s) + 1) as u32),
        (Action::Complete, Some(id)) => Outcome::Completed(id as u32),
        (Action::Delete, Some(id)) => Outcome::Deleted(id as u32),
        (_, None) => Outcome::NoMatch,
    }
}

/// Carries out an action with its resolved name and description.
///
/// Adding appends the task. Completing and deleting act on the first task
/// whose name contains the given one, and leave the collection alone where
/// there is none, which is reported and is no error. A description given to
/// them is not used.
pub fn carry_out(
    tasks: &mut Vec<Task>,
    action: Action,
    name: String,
    description: Option<String>,
) -> (outcome: Outcome)
    requires
        action is Add ==> max_id(views(old(tasks)@)) < u32::MAX,
    ensures
        views(final(tasks)@) == effect(views(old(tasks)@), action, name@, text_of(description)),
        outcome == report(views(old(tasks)@), action, name@),
        outcome is NoMatch ==> final(tasks)@ == old(tasks)@,
        distinct_ids(views(old(tasks)@)) ==> distinct_ids(views(final(tasks)@)),
{
    match action {
        Action::Add => Outcome::Added(save_task(tasks, name, description)),
        Action::Complete => {
            let found = get_task_ids(tasks, name.as_str());
            if found.len() == 0 {
                Outcome::NoMatch
            } else {
                let id: u32 = found[0];
                proof {
                    lemma_found_first(views(tasks@), name@, found@);
                }
                // The identifier was found a moment ago, so a task has it.
                match complete_task(tasks, id) {
                    Ok(_) => Outcome::Completed(id),
                    Err(_) => Outcome::NoMatch,
                }
            }
        },
        Action::Delete => {
            let found = get_task_ids(tasks, name.as_str());
            if found.len() == 0 {
                Outcome::NoMatch
            } else {
                let id: u32 = found[0];
                proof {
                    lemma_found_first(views(tasks@), name@, found@);
                }
                // The identifier was found a moment ago, so a task has it.
                match delete_task(tasks, id) {
                    Ok(_) => Outcome::Deleted(id),
                    Err(_) => Outcome::NoMatch,
                }
            }
        },
    }
}

/// The first identifier that a search gave is the target of the name, and a
/// task of the collection has it.
proof fn lemma_found_first(s: Seq<TaskView>, name: Seq<char>, found: Seq<u32>)
    requires
        found.map_values(|id: u32| id as nat) == matching_ids(s, name),
        found.len() > 0,
    ensures
        target(s, name) == Some(found[0] as nat),
        has_id(s, found[0] as nat),
{
    let numbers = found.map_values(|id: u32| id as nat);
    assert(numbers.len() == found.len());
    assert(numbers[0] == found[0] as nat);
    lemma_matches_are_tasks(s, name, 0);
}

} // verus!
