//! The coordinator's record of one task: whether its child runs, and what
//! each request does to it.

use crate::messages::{Completion, TaskMessage, TaskResponse};
use crate::service::{Service, ServiceView};
use vstd::prelude::*;

verus! {

/// Why a request to a worker is refused.
#[derive(Debug, Clone, Copy, PartialEq, Eq)]
pub enum WorkerError {
    /// The worker was asked to start while its child runs.
    AlreadyRunning,
    /// The worker was asked for something that takes a running child.
    NotRunning,
    /// The answer is not of the kind that the request asks for.
    UnexpectedReply,
}

/// A service that may be running.
#[derive(Debug)]
pub struct ServiceWorker {
    service: Service,
    running: bool,
}

/// What a `ServiceWorker` holds.
pub struct WorkerView {
    pub service: ServiceView,
    pub running: bool,
}

/// What is asked of a worker.
pub enum WorkerCommand {
    Start,
    SpawnFailed,
    ProcessId,
    Join,
    Kill,
}

/// Whether the worker's child runs after `command`.
pub open spec fn runs_after(running: bool, command: WorkerCommand) -> bool {
    match command {
        WorkerCommand::Start => true,
        WorkerCommand::ProcessId => running,
        WorkerCommand::SpawnFailed | WorkerCommand::Join | WorkerCommand::Kill => false,
    }
}

/// Whether `command` has a new child spawned: only a start does, and only
/// while none runs.
pub open spec fn spawns(running: bool, command: WorkerCommand) -> bool {
    command is Start && !running
}

/// Whether `command` ends the child that runs: a failed spawn, a join or a
/// kill does, where one runs.
pub open spec fn ends_child(running: bool, command: WorkerCommand) -> bool {
    running && (command is SpawnFailed || command is Join || command is Kill)
}

/// Whether the child runs after all of `commands`, starting from `running`.
pub open spec fn runs_after_all(running: bool, commands: Seq<WorkerCommand>) -> bool
    decreases commands.len(),
{
    if commands.len() == 0 {
        running
    } else {
        runs_after(runs_after_all(running, commands.drop_last()), commands.last())
    }
}

/// How many children live after all of `commands`, given how many did
/// before: each spawn adds one, each end takes one away.
pub open spec fn children_after_all(
    running: bool,
    children: int,
    commands: Seq<WorkerCommand>,
) -> int
    decreases commands.len(),
{
    if commands.len() == 0 {
        children
    } else {
        let before = commands.drop_last();
        let ran = runs_after_all(running, before);
        let had = children_after_all(running, children, before);
        if spawns(ran, commands.last()) {
            had + 1
        } else if ends_child(ran, commands.last()) {
            had - 1
        } else {
            had
        }
    }
}

/// A worker has at most one child at any time: starting from a stopped
/// worker without children, after any commands there is one child where the
/// worker runs and none where it does not.
pub proof fn lemma_at_most_one_child(commands: Seq<WorkerCommand>)
    ensures
        children_after_all(false, 0, commands) == if runs_after_all(false, commands) {
            1int
        } else {
            0int
        },
        0 <= children_after_all(false, 0, commands) <= 1,
    decreases commands.len(),
{
    if commands.len() > 0 {
        lemma_at_most_one_child(commands.drop_last());
    }
}

impl View for ServiceWorker {
    type V = WorkerView;

    closed spec fn view(&self) -> WorkerView {
        WorkerView { service: self.service@, running: self.running }
    }
}

impl DeepView for ServiceWorker {
    type V = WorkerView;

    open spec fn deep_view(&self) -> WorkerView {
        self@
    }
}

impl ServiceWorker {
    /// A stopped worker for `service`.
    pub fn new(service: Service) -> (worker: ServiceWorker)
        ensures
            worker@.service == service@,
            !worker@.running,
    {
        ServiceWorker { service, running: false }
    }

    /// The service that this worker runs.
    pub fn service(&self) -> (service: &Service)
        ensures
            service@ == self@.service,
    {
        &self.service
    }

    /// Whether the child runs.
    pub fn is_running(&self) -> (running: bool)
        ensures
            running == self@.running,
    {
        self.running
    }

    /// Asks for the child to be spawned. A running worker refuses and stays
    /// as it is; a stopped one runs from here on, and the caller spawns the
    /// child.
    pub fn start(&mut self) -> (outcome: Result<(), WorkerError>)
        ensures
            final(self)@.service == old(self)@.service,
            outcome is Ok <==> spawns(old(self)@.running, WorkerCommand::Start),
            outcome is Err ==> outcome == Err::<(), WorkerError>(WorkerError::AlreadyRunning),
            final(self)@.running == runs_after(old(self)@.running, WorkerCommand::Start),
    {
        if self.running {
            Err(WorkerError::AlreadyRunning)
        } else {
            self.running = true;
            Ok(())
        }
    }

    /// Records that the child could not be spawned, or is gone: the worker
    /// is stopped.
    pub fn mark_stopped(&mut self)
        ensures
            final(self)@.service == old(self)@.service,
            final(self)@.running == runs_after(old(self)@.running, WorkerCommand::SpawnFailed),
    {
        self.running = false;
    }

    /// The request that asks for the child's process id, where the child
    /// runs. The worker stays as it is.
    pub fn process_id(&self) -> (message: Option<TaskMessage>)
        ensures
            message == if self@.running {
                Some(TaskMessage::ProcessId)
            } else {
                None
            },
    {
        if self.running {
            Some(TaskMessage::ProcessId)
        } else {
            None
        }
    }

    /// Gives up the child in order to wait for it: where it runs, the
    /// request to send is a join and the worker is stopped from here on;
    /// a stopped worker refuses.
    pub fn join(&mut self) -> (outcome: Result<TaskMessage, WorkerError>)
        ensures
            final(self)@.service == old(self)@.service,
            final(self)@.running == runs_after(old(self)@.running, WorkerCommand::Join),
            outcome == if old(self)@.running {
                Ok::<TaskMessage, WorkerError>(TaskMessage::Join)
            } else {
                Err::<TaskMessage, WorkerError>(WorkerError::NotRunning)
            },
    {
        if self.running {
            self.running = false;
            Ok(TaskMessage::Join)
        } else {
            Err(WorkerError::NotRunning)
        }
    }

    /// Gives up the child in order to kill it: where it runs, the request to
    /// send is a kill; where it does not, there is nothing to send. Either
    /// way the worker is stopped afterwards.
    pub fn kill(&mut self) -> (message: Option<TaskMessage>)
        ensures
            final(self)@.service == old(self)@.service,
            final(self)@.running == runs_after(old(self)@.running, WorkerCommand::Kill),
            message == if old(self)@.running {
                Some(TaskMessage::Kill)
            } else {
                None
            },
    {
        if self.running {
            self.running = false;
            Some(TaskMessage::Kill)
        } else {
            None
        }
    }
}

impl TaskResponse {
    /// The process id that the answer to a request for it carries.
    pub fn into_process_id(self) -> (outcome: Result<u32, WorkerError>)
        ensures
            outcome == match self {
                TaskResponse::ProcessId(pid) => Ok::<u32, WorkerError>(pid),
                _ => Err::<u32, WorkerError>(WorkerError::UnexpectedReply),
            },
    {
        match self {
            TaskResponse::ProcessId(pid) => Ok(pid),
            _ => Err(WorkerError::UnexpectedReply),
        }
    }

    /// How the child ended, from the answer to a join.
    pub fn into_completion(self) -> (outcome: Result<Completion, WorkerError>)
        ensures
            outcome == match self {
                TaskResponse::Joined(completion) => Ok::<Completion, WorkerError>(completion),
                _ => Err::<Completion, WorkerError>(WorkerError::UnexpectedReply),
            },
    {
        match self {
            TaskResponse::Joined(completion) => Ok(completion),
            _ => Err(WorkerError::UnexpectedReply),
        }
    }
}

} // verus!
