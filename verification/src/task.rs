//! The task record and its mathematical model.

use vstd::prelude::*;
use crate::text::text_of;

verus! {

/// What a task is, as plain mathematics.
pub struct TaskView {
    pub id: nat,
    pub name: Seq<char>,
    pub description: Option<Seq<char>>,
    pub completed: bool,
}

/// One entry of the task collection.
#[derive(Debug, Clone, PartialEq, Eq)]
pub struct Task {
    id: u32,
    name: String,
    description: Option<String>,
    completed: bool,
}

impl View for Task {
    type V = TaskView;

    closed spec fn view(&self) -> TaskView {
        TaskView {
            id: self.id as nat,
            name: self.name@,
            description: text_of(self.description),
            completed: self.completed,
        }
    }
}

impl Task {
    /// A task with the given fields.
    pub fn new(id: u32, name: String, description: Option<String>, completed: bool) -> (task: Task)
        ensures
            task@ == (TaskView {
                id: id as nat,
                name: name@,
                description: text_of(description),
                completed,
            }),
    {
        Task { id, name, description, completed }
    }

    /// The identifier under which the collection holds the task.
    pub fn id(&self) -> (id: u32)
        ensures
            id as nat == self@.id,
    {
        self.id
    }

    /// The label of the task.
    pub fn name(&self) -> (name: &str)
        ensures
            name@ == self@.name,
    {
        self.name.as_str()
    }

    /// The description, where the task has one.
    pub fn description(&self) -> (description: Option<&str>)
        ensures
            match description {
                Some(text) => self@.description == Some(text@),
                None => self@.description is None,
            },
    {
        match &self.description {
            Some(text) => Some(text.as_str()),
            None => None,
        }
    }

    /// Whether the task is done.
    pub fn completed(&self) -> (completed: bool)
        ensures
            completed == self@.completed,
    {
        self.completed
    }

    /// Marks the task as done. Nothing undoes this.
    pub fn complete(&mut self)
        ensures
            final(self)@ == (TaskView { completed: true, ..old(self)@ }),
    {
        self.completed = true;
    }
}

/// The models of the tasks of a collection, in its order.
pub open spec fn views(tasks: Seq<Task>) -> Seq<TaskView> {
    tasks.map_values(|t: Task| t@)
}

} // verus!
