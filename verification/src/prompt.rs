//! The rules of the interactive prompts, one answer at a time. Reading the
//! terminal is the caller's part: it asks, hands over what it read, and is
//! told how to go on.

use vstd::prelude::*;
use crate::text::{is_single, text_of, to_uppercase, trim, trimmed, uppercase};

verus! {

/// What one read of the terminal gave.
#[derive(Debug, Clone, PartialEq, Eq)]
pub enum Input {
    /// A line of text, without its line end.
    Line(String),
    /// The user interrupted the read.
    Interrupted,
}

/// The two questions that lead to a description.
#[derive(Debug, Clone, Copy, PartialEq, Eq)]
pub enum DescStage {
    /// Whether the task shall have a description at all.
    Confirm,
    /// The description itself.
    Text,
}

/// How one answer moves the asking for a description on.
#[derive(Debug, Clone, PartialEq, Eq)]
pub enum DescReply {
    /// Settled: the description, or none where the user declined.
    Done(Option<String>),
    /// The user wants a description: ask for its text.
    Confirmed,
    /// Neither yes nor no: say so, then ask again whether to describe.
    Unclear,
    /// The read was interrupted: start over with the first question.
    Interrupted,
}

/// How one answer moves the asking for a name on.
#[derive(Debug, Clone, PartialEq, Eq)]
pub enum NameReply {
    /// The name: the line without the white space around it.
    Accepted(String),
    /// Nothing but white space: say so, then ask again.
    Invalid,
    /// The read was interrupted: ask again.
    Interrupted,
}

/// An answer that means yes: `Y` in either case, or nothing at all.
pub open spec fn says_yes(line: Seq<char>) -> bool {
    let response = uppercase(trimmed(line));
    response == seq!['Y'] || response.len() == 0
}

/// An answer that means no: `N` in either case.
pub open spec fn says_no(line: Seq<char>) -> bool {
    uppercase(trimmed(line)) == seq!['N']
}

/// Takes the answer to one of the two description questions.
///
/// To the first question yes leads on to the text, no settles for no
/// description, anything else is unclear. To the second the line as it was
/// typed is the description. An interrupt at either gives `Interrupted`.
pub fn prompt_for_desc(stage: DescStage, input: Input) -> (reply: DescReply)
    ensures
        match (stage, input) {
            (_, Input::Interrupted) => reply is Interrupted,
            (DescStage::Text, Input::Line(line)) => reply matches DescReply::Done(Some(text))
                && text@ == line@,
            (DescStage::Confirm, Input::Line(line)) => if says_yes(line@) {
                reply is Confirmed
            } else if says_no(line@) {
                reply == DescReply::Done(None)
            } else {
                reply is Unclear
            },
        },
{
    match input {
        Input::Interrupted => DescReply::Interrupted,
        Input::Line(line) => match stage {
            DescStage::Text => DescReply::Done(Some(line)),
            DescStage::Confirm => {
                let response = to_uppercase(trim(line.as_str()));
                if is_single(response.as_str(), 'Y') || response.as_str().is_empty() {
                    DescReply::Confirmed
                } else if is_single(response.as_str(), 'N') {
                    DescReply::Done(None)
                } else {
                    DescReply::Unclear
                }
            },
        },
    }
}

/// Takes the answer to the question for a name: the line without the white
/// space around it, unless nothing is left of it.
pub fn prompt_for_name(input: Input) -> (reply: NameReply)
    ensures
        match input {
            Input::Interrupted => reply is Interrupted,
            Input::Line(line) => if trimmed(line@).len() > 0 {
                reply matches NameReply::Accepted(name) && name@ == trimmed(line@)
            } else {
                reply is Invalid
            },
        },
{
    match input {
        Input::Interrupted => NameReply::Interrupted,
        Input::Line(line) => {
            let name = trim(line.as_str());
            if name.is_empty() {
                NameReply::Invalid
            } else {
                NameReply::Accepted(String::from_str(name))
            }
        },
    }
}

/// What the front end has to ask next.
#[derive(Debug, Clone, Copy, PartialEq, Eq)]
pub enum Question {
    /// The name of the task.
    Name,
    /// Whether the task shall have a description.
    Confirm,
    /// The text of the description.
    Description,
}

/// What became of an answer.
#[derive(Debug, Clone, Copy, PartialEq, Eq)]
pub enum Feedback {
    /// It was taken; the next question, if any, is another one.
    Taken,
    /// The name was blank: the same question comes again.
    InvalidTask,
    /// Neither yes nor no: the same question comes again.
    YesOrNo,
    /// The read was interrupted; nothing was taken from it.
    Interrupted,
}

/// The name and description of a task while they are being resolved, from
/// the command line first and from the prompts for what it left open.
#[derive(Debug, Clone, PartialEq, Eq)]
pub struct TaskData {
    name: Option<String>,
    description: Option<String>,
    stage: Option<DescStage>,
}

/// The model of a `TaskData`: the texts known so far, and the description
/// question that is open, if one is.
pub struct TaskDataView {
    pub name: Option<Seq<char>>,
    pub description: Option<Seq<char>>,
    pub stage: Option<DescStage>,
}

impl TaskDataView {
    /// The question that is open: the name before anything else, then the
    /// description's two questions in turn; none once all is resolved.
    pub open spec fn question(self) -> Option<Question> {
        if self.name is None {
            Some(Question::Name)
        } else {
            match self.stage {
                Some(DescStage::Confirm) => Some(Question::Confirm),
                Some(DescStage::Text) => Some(Question::Description),
                None => None,
            }
        }
    }

    /// Whether nothing is left to ask.
    pub open spec fn resolved(self) -> bool {
        self.question() is None
    }

    /// The data after `input` was given in answer to the open question.
    pub open spec fn answered(self, input: Input) -> TaskDataView {
        match (self.question(), input) {
            (Some(Question::Name), Input::Line(line)) => if trimmed(line@).len() > 0 {
                TaskDataView { name: Some(trimmed(line@)), ..self }
            } else {
                self
            },
            (Some(Question::Confirm), Input::Line(line)) => if says_yes(line@) {
                TaskDataView { stage: Some(DescStage::Text), ..self }
            } else if says_no(line@) {
                TaskDataView { stage: None, ..self }
            } else {
                self
            },
            (Some(Question::Description), Input::Line(line)) => TaskDataView {
                description: Some(line@),
                stage: None,
                ..self
            },
            (Some(Question::Description), Input::Interrupted) => TaskDataView {
                stage: Some(DescStage::Confirm),
                ..self
            },
            _ => self,
        }
    }

    /// What the front end is told about `input`, given in answer to the open
    /// question.
    pub open spec fn feedback(self, input: Input) -> Feedback {
        match (self.question(), input) {
            (None, _) => Feedback::Taken,
            (_, Input::Interrupted) => Feedback::Interrupted,
            (Some(Question::Name), Input::Line(line)) => if trimmed(line@).len() > 0 {
                Feedback::Taken
            } else {
                Feedback::InvalidTask
            },
            (Some(Question::Confirm), Input::Line(line)) => if says_yes(line@) || says_no(line@) {
                Feedback::Taken
            } else {
                Feedback::YesOrNo
            },
            (Some(Question::Description), Input::Line(_)) => Feedback::Taken,
        }
    }
}

impl View for TaskData {
    type V = TaskDataView;

    closed spec fn view(&self) -> TaskDataView {
        TaskDataView {
            name: text_of(self.name),
            description: text_of(self.description),
            stage: self.stage,
        }
    }
}

/// Starts the resolution of a task's name and description from what the
/// command line gave. A description is asked for only where
/// `prompt_for_description` is set and none was given.
pub fn get_task_data(
    name: Option<String>,
    description: Option<String>,
    prompt_for_description: bool,
) -> (data: TaskData)
    ensures
        data@ == (TaskDataView {
            name: text_of(name),
            description: text_of(description),
            stage: if prompt_for_description && description is None {
                Some(DescStage::Confirm)
            } else {
                None
            },
        }),
{
    let stage = if prompt_for_description && description.is_none() {
        Some(DescStage::Confirm)
    } else {
        None
    };
    TaskData { name, description, stage }
}

impl TaskData {
    /// The question to ask next, or `None` when name and description are
    /// resolved.
    pub fn question(&self) -> (next: Option<Question>)
        ensures
            next == self@.question(),
    {
        if self.name.is_none() {
            Some(Question::Name)
        } else {
            match self.stage {
                Some(DescStage::Confirm) => Some(Question::Confirm),
                Some(DescStage::Text) => Some(Question::Description),
                None => None,
            }
        }
    }

    /// Takes what was read in answer to the open question, and says what
    /// became of it. With no question open nothing changes.
    pub fn answer(&mut self, input: Input) -> (feedback: Feedback)
        ensures
            final(self)@ == old(self)@.answered(input),
            feedback == old(self)@.feedback(input),
    {
        match self.question() {
            None => Feedback::Taken,
            Some(Question::Name) => match prompt_for_name(input) {
                NameReply::Accepted(name) => {
                    self.name = Some(name);
                    Feedback::Taken
                },
                NameReply::Invalid => Feedback::InvalidTask,
                NameReply::Interrupted => Feedback::Interrupted,
            },
            Some(Question::Confirm) => match prompt_for_desc(DescStage::Confirm, input) {
                DescReply::Confirmed => {
                    self.stage = Some(DescStage::Text);
                    Feedback::Taken
                },
                DescReply::Done(_) => {
                    self.stage = None;
                    Feedback::Taken
                },
                DescReply::Unclear => Feedback::YesOrNo,
                DescReply::Interrupted => Feedback::Interrupted,
            },
            Some(Question::Description) => match prompt_for_desc(DescStage::Text, input) {
                DescReply::Done(description) => {
                    self.description = description;
                    self.stage = None;
                    Feedback::Taken
                },
                _ => {
                    self.stage = Some(DescStage::Confirm);
                    Feedback::Interrupted
                },
            },
        }
    }

    /// The resolved name and description, or `None` while a question is open.
    pub fn into_resolved(self) -> (resolved: Option<(String, Option<String>)>)
        ensures
            resolved is Some <==> self@.resolved(),
            resolved matches Some((name, description)) ==> self@.name == Some(name@)
                && self@.description == text_of(description),
    {
        match (self.name, self.stage) {
            (Some(name), None) => Some((name, self.description)),
            _ => None,
        }
    }
}

} // verus!
