//! The task data model: a single task and the well-formedness of a
//! collection of tasks.

use vstd::prelude::*;

verus! {

/// A single to-do item. `id` is assigned by the system and is unique within
/// a collection; `title` is free text chosen at creation; `completed` starts
/// `false` and can only ever be flipped to `true`.
#[derive(Debug, Clone)]
pub struct Task {
    pub id: u32,
    pub title: String,
    pub completed: bool,
}

/// The mathematical picture of a task: the title as a sequence of characters.
pub ghost struct TaskModel {
    pub id: u32,
    pub title: Seq<char>,
    pub completed: bool,
}

impl View for Task {
    type V = TaskModel;

    open spec fn view(&self) -> TaskModel {
        TaskModel { id: self.id, title: self.title@, completed: self.completed }
    }
}

/// The model of a whole collection, in collection order.
pub open spec fn models(ts: Seq<Task>) -> Seq<TaskModel> {
    ts.map_values(|t: Task| t@)
}

/// Every id occurs at most once in the collection.
pub open spec fn ids_unique(s: Seq<TaskModel>) -> bool {
    forall|i: int, j: int| 0 <= i < j < s.len() ==> s[i].id != s[j].id
}

/// The error with which loading a malformed persisted collection fails.
/// The persisted text existed and was not blank, but did not parse as a
/// collection of tasks.
#[derive(Clone, Copy, Debug, PartialEq, Eq, Structural)]
pub struct FormatError {}

impl FormatError {
    /// The message shown to the user: the file must be deleted to reset.
    pub fn message(&self) -> (m: &'static str)
        ensures
            m@ == "El formato de db.json no es v\u{e1}lido o es incompatible. Borra el archivo para reiniciar."@,
    {
        "El formato de db.json no es v\u{e1}lido o es incompatible. Borra el archivo para reiniciar."
    }
}

} // verus!
