//! What the coordinator and a worker's own context say to each other.

use vstd::prelude::*;

verus! {

/// A request to the context that holds a worker's child process.
#[derive(Debug, Clone, Copy, PartialEq, Eq, PartialOrd, Ord, Hash)]
pub enum TaskMessage {
    /// Report the child's process id.
    ProcessId,
    /// Wait for the child to finish and report how it ended.
    Join,
    /// Kill the child.
    Kill,
}

/// How a child process ended.
#[derive(Debug, Clone, PartialEq, Eq)]
pub struct Completion {
    /// The exit code, where the child returned one.
    pub code: Option<i32>,
    /// What the child wrote to its standard output, where it was captured.
    pub stdout: Vec<u8>,
    /// What the child wrote to its standard error, where it was captured.
    pub stderr: Vec<u8>,
}

/// An answer to a `TaskMessage`.
#[derive(Debug, Clone, PartialEq, Eq)]
pub enum TaskResponse {
    /// The child's process id.
    ProcessId(u32),
    /// The child has finished.
    Joined(Completion),
}

/// What the context that holds the child does with the child on a request.
#[derive(Debug, Clone, Copy, PartialEq, Eq)]
pub enum ChildWork {
    /// Read the child's process id.
    ReadProcessId,
    /// Wait until the child has finished.
    Wait,
    /// Terminate the child.
    Terminate,
}

/// How the context that holds the child goes on after a request.
#[derive(Debug, Clone, Copy, PartialEq, Eq)]
pub struct Reaction {
    /// What is done with the child.
    pub work: ChildWork,
    /// Whether an answer is sent back.
    pub replies: bool,
    /// Whether the context takes further requests afterwards.
    pub goes_on: bool,
}

/// The reaction that each request calls for.
pub open spec fn reaction_to(message: TaskMessage) -> Reaction {
    match message {
        TaskMessage::ProcessId => Reaction {
            work: ChildWork::ReadProcessId,
            replies: true,
            goes_on: true,
        },
        TaskMessage::Join => Reaction { work: ChildWork::Wait, replies: true, goes_on: false },
        TaskMessage::Kill => Reaction {
            work: ChildWork::Terminate,
            replies: false,
            goes_on: false,
        },
    }
}

/// Whether `response` is the kind of answer that `message` asks for.
pub open spec fn answers(message: TaskMessage, response: TaskResponse) -> bool {
    match (message, response) {
        (TaskMessage::ProcessId, TaskResponse::ProcessId(_)) => true,
        (TaskMessage::Join, TaskResponse::Joined(_)) => true,
        _ => false,
    }
}

impl TaskMessage {
    /// What the context that holds the child does on this request: a process
    /// id is read and reported, and the context goes on; a join waits,
    /// reports and ends the context; a kill terminates the child and ends
    /// the context without an answer.
    pub fn react(self) -> (reaction: Reaction)
        ensures
            reaction == reaction_to(self),
    {
        match self {
            TaskMessage::ProcessId => Reaction {
                work: ChildWork::ReadProcessId,
                replies: true,
                goes_on: true,
            },
            TaskMessage::Join => Reaction { work: ChildWork::Wait, replies: true, goes_on: false },
            TaskMessage::Kill => Reaction {
                work: ChildWork::Terminate,
                replies: false,
                goes_on: false,
            },
        }
    }

    /// Whether `response` is the kind of answer that this request asks for.
    pub fn is_answered_by(self, response: &TaskResponse) -> (matches: bool)
        ensures
            matches == answers(self, *response),
    {
        match (self, response) {
            (TaskMessage::ProcessId, TaskResponse::ProcessId(_)) => true,
            (TaskMessage::Join, TaskResponse::Joined(_)) => true,
            _ => false,
        }
    }
}

} // verus!
