//! Which tasks a request to stop is about.

use crate::server::{RequestMessage, RequestView};
use vstd::prelude::*;

verus! {

/// The tasks that are to be stopped.
#[derive(Debug, Clone, PartialEq, Eq)]
pub enum TaskSpec {
    /// Every task, and the coordinator with them.
    All,
    /// The tasks of these names.
    List(Vec<String>),
}

/// What a `TaskSpec` holds, as sequences of characters.
pub enum TaskSpecView {
    All,
    List(Seq<Seq<char>>),
}

impl View for TaskSpec {
    type V = TaskSpecView;

    open spec fn view(&self) -> TaskSpecView {
        match self {
            TaskSpec::All => TaskSpecView::All,
            TaskSpec::List(names) => TaskSpecView::List(names.deep_view()),
        }
    }
}

impl TaskSpec {
    /// The tasks that a list of names picks, where one was given: every task
    /// where none was.
    pub fn from_names(names: Option<Vec<String>>) -> (tasks: TaskSpec)
        ensures
            tasks@ == match names {
                Some(list) => TaskSpecView::List(list.deep_view()),
                None => TaskSpecView::All,
            },
    {
        match names {
            Some(list) => TaskSpec::List(list),
            None => TaskSpec::All,
        }
    }

    /// The request that stops these tasks: the whole server for `All`, the
    /// named tasks for a list.
    pub fn into_request(self) -> (request: RequestMessage)
        ensures
            request@ == match self@ {
                TaskSpecView::All => RequestView::StopServer,
                TaskSpecView::List(names) => RequestView::StopTasks(names),
            },
    {
        match self {
            TaskSpec::All => RequestMessage::StopServer,
            TaskSpec::List(names) => RequestMessage::StopTasks(names),
        }
    }
}

} // verus!
