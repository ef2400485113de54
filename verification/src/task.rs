//! A task of a to-do list: a description that can be edited and marked done.
use vstd::prelude::*;

use crate::text::{chars_of, decimal_chars, extend_chars, string_of, decimal_string};

verus! {

/// The identifier of the uuid crate, carried through as an opaque value.
#[verifier::external_type_specification]
#[verifier::external_body]
pub struct ExUuid(uuid::Uuid);

pub struct Task {
    pub id: uuid::Uuid,
    description: String,
    completed: bool,
    state: TaskState,
}

#[derive(Clone, Copy, Debug, PartialEq, Eq, Structural)]
pub enum TaskState {
    Idle,
    Editing,
}

impl Default for TaskState {
    fn default() -> (r: Self)
        ensures
            r == TaskState::Idle,
    {
        Self::Idle
    }
}

pub enum TaskMessage {
    Completed(bool),
    Edit,
    DescriptionEdited(String),
    FinishEdition,
    Delete,
}

impl Task {
    pub closed spec fn id_spec(&self) -> uuid::Uuid {
        self.id
    }

    pub closed spec fn description_spec(&self) -> Seq<char> {
        self.description@
    }

    pub closed spec fn completed_spec(&self) -> bool {
        self.completed
    }

    pub closed spec fn state_spec(&self) -> TaskState {
        self.state
    }

    pub fn is_completed(&self) -> (r: bool)
        ensures
            r == self.completed_spec(),
    {
        self.completed
    }

    /// The name of the text input of the task at position `i`: `task-` and
    /// the number.
    pub fn text_input_id(i: usize) -> (r: String)
        ensures
            r@ == "task-"@ + decimal_string(i as nat),
    {
        let mut out = chars_of("task-");
        extend_chars(&mut out, decimal_chars(i).as_slice());
        string_of(out.as_slice())
    }

    /// A new task, not done and not being edited, under the identifier
    /// `id` (a fresh random one, drawn by the caller from the system's
    /// random source).
    pub fn new(id: uuid::Uuid, description: String) -> (r: Self)
        ensures
            r.id_spec() == id,
            r.description_spec() == description@,
            !r.completed_spec(),
            r.state_spec() == TaskState::Idle,
    {
        Task { id, description, completed: false, state: TaskState::Idle }
    }

    /// Applies a change: marking done, starting or finishing an edit (an
    /// empty description keeps the edit going), or a new description.
    pub fn update(&mut self, message: TaskMessage)
        ensures
            final(self).id_spec() == old(self).id_spec(),
            match message {
                TaskMessage::Completed(completed) => final(self).completed_spec() == completed
                    && final(self).description_spec() == old(self).description_spec()
                    && final(self).state_spec() == old(self).state_spec(),
                TaskMessage::Edit => final(self).state_spec() == TaskState::Editing
                    && final(self).description_spec() == old(self).description_spec()
                    && final(self).completed_spec() == old(self).completed_spec(),
                TaskMessage::DescriptionEdited(d) => final(self).description_spec() == d@
                    && final(self).completed_spec() == old(self).completed_spec()
                    && final(self).state_spec() == old(self).state_spec(),
                TaskMessage::FinishEdition => final(self).state_spec() == (if old(
                    self,
                ).description_spec().len() > 0 {
                    TaskState::Idle
                } else {
                    old(self).state_spec()
                }) && final(self).description_spec() == old(self).description_spec()
                    && final(self).completed_spec() == old(self).completed_spec(),
                TaskMessage::Delete => final(self).description_spec() == old(
                    self,
                ).description_spec() && final(self).completed_spec() == old(self).completed_spec()
                    && final(self).state_spec() == old(self).state_spec(),
            },
    {
        match message {
            TaskMessage::Completed(completed) => {
                self.completed = completed;
            },
            TaskMessage::Edit => {
                self.state = TaskState::Editing;
            },
            TaskMessage::DescriptionEdited(new_description) => {
                self.description = new_description;
            },
            TaskMessage::FinishEdition => {
                if !self.description.as_str().is_empty() {
                    self.state = TaskState::Idle;
                }
            },
            TaskMessage::Delete => {},
        }
    }
}

} // verus!
