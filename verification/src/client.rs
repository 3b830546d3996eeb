//! The client's side of the control socket: what it asks, and what it
//! makes of the answer.

use crate::paths::{path_from, path_text};
use crate::procfile::procfile_text;
use crate::server::{RequestMessage, RequestView, DOMAIN_SOCKET};
use crate::service::{Service, ServiceView};
use crate::tasks::{TaskSpec, TaskSpecView};
use std::path::PathBuf;
use vstd::prelude::*;

verus! {

/// What is said where no coordinator runs.
pub const NOT_RUNNING: &'static str =
    "Straw-boss not running. Why don't you try `straw-boss start --daemon`";

/// Why a request to the coordinator failed.
#[derive(Debug, Clone, PartialEq, Eq)]
pub enum ClientError {
    /// The socket could not be reached.
    Connect(String),
    /// The request could not be sent.
    Send(String),
    /// No answer came, or none that can be read.
    Receive(String),
}

/// A way to reach a coordinator.
pub trait ManagerClient {
    /// Whether `running` is something that `is_running` may return on this
    /// client. Unless a client says otherwise, anything is.
    open spec fn may_find(&self, running: bool) -> bool {
        true
    }

    /// Whether `answer` is something that `get_workers` may return on this
    /// client. Unless a client says otherwise, anything is.
    open spec fn may_answer(&self, answer: Result<Vec<Service>, ClientError>) -> bool {
        true
    }

    /// Whether a coordinator is there.
    fn is_running(&self) -> (running: bool)
        ensures
            self.may_find(running),
    ;

    /// Asks the coordinator for its tasks.
    fn get_workers(&self) -> (answer: Result<Vec<Service>, ClientError>)
        ensures
            self.may_answer(answer),
    ;

    /// Asks the coordinator to stop tasks.
    fn stop(&self, tasks: TaskSpec) -> Result<(), ClientError>;
}

/// What is known of the coordinator.
#[derive(Debug, Clone, PartialEq, Eq)]
pub enum ManagerStatus {
    /// None runs.
    NotFound,
    /// One runs, with these tasks, in its order.
    RunningTasks(Vec<Service>),
}

/// What a `ManagerStatus` holds: the tasks in the coordinator's order, each
/// of them, also where several have one name.
pub enum StatusView {
    NotFound,
    RunningTasks(Seq<ServiceView>),
}

impl View for ManagerStatus {
    type V = StatusView;

    open spec fn view(&self) -> StatusView {
        match self {
            ManagerStatus::NotFound => StatusView::NotFound,
            ManagerStatus::RunningTasks(tasks) => StatusView::RunningTasks(tasks.deep_view()),
        }
    }
}

/// What is printed for a status: a fixed sentence where no coordinator
/// runs, and one line `name: command` for each task where one does.
pub open spec fn status_message(status: StatusView) -> Seq<char> {
    match status {
        StatusView::NotFound => NOT_RUNNING@,
        StatusView::RunningTasks(tasks) => procfile_text(tasks),
    }
}

/// Whether `outcome` is the status of a coordinator that was asked for its
/// workers and answered with `answer`: the workers as they were answered,
/// each of them and in their order, where it answered with workers, and
/// the error where it did not.
pub open spec fn answered_as(
    answer: Result<Vec<Service>, ClientError>,
    outcome: Result<ManagerStatus, ClientError>,
) -> bool {
    match answer {
        Ok(workers) => outcome is Ok && outcome->Ok_0@ == StatusView::RunningTasks(
            workers.deep_view(),
        ),
        Err(error) => outcome == Err::<ManagerStatus, ClientError>(error),
    }
}

/// Whether `outcome` is a status that `client` may come to: it finds no
/// coordinator, and that is the status; or it finds one, asks it for its
/// workers, and the status is what the answer makes it.
pub open spec fn may_report<C: ManagerClient>(
    client: &C,
    outcome: Result<ManagerStatus, ClientError>,
) -> bool {
    exists|running: bool| #[trigger]
        client.may_find(running) && if running {
            exists|answer: Result<Vec<Service>, ClientError>| #[trigger]
                client.may_answer(answer) && answered_as(answer, outcome)
        } else {
            outcome == Ok::<ManagerStatus, ClientError>(ManagerStatus::NotFound)
        }
}

impl ManagerStatus {
    /// The status of a coordinator that answered with `workers`: one task
    /// for each worker, in their order.
    pub fn from_workers(workers: Vec<Service>) -> (status: ManagerStatus)
        ensures
            status@ == StatusView::RunningTasks(workers.deep_view()),
    {
        ManagerStatus::RunningTasks(workers)
    }

    /// The status of a coordinator that was asked for its workers: its
    /// tasks where it answered, and the error where it did not.
    pub fn from_answer(answer: Result<Vec<Service>, ClientError>) -> (outcome: Result<
        ManagerStatus,
        ClientError,
    >)
        ensures
            answered_as(answer, outcome),
    {
        match answer {
            Ok(workers) => Ok(ManagerStatus::from_workers(workers)),
            Err(error) => Err(error),
        }
    }

    /// What is printed for this status.
    pub fn get_message(&self) -> (message: String)
        ensures
            message@ == status_message(self@),
    {
        match self {
            ManagerStatus::NotFound => NOT_RUNNING.to_owned(),
            ManagerStatus::RunningTasks(tasks) => Service::write_procfile(tasks.as_slice()),
        }
    }
}

/// Asks a coordinator for its status: where none runs, that is the status,
/// and nothing is asked; where one runs, its workers are, each of them and
/// in its order, or the error with which it could not be asked.
pub fn status<C: ManagerClient>(client: &C) -> (outcome: Result<ManagerStatus, ClientError>)
    ensures
        may_report(client, outcome),
{
    let running = client.is_running();
    if running {
        let answer = client.get_workers();
        let outcome = ManagerStatus::from_answer(answer);
        assert(client.may_answer(answer) && answered_as(answer, outcome));
        assert(client.may_find(running));
        outcome
    } else {
        assert(client.may_find(running));
        Ok(ManagerStatus::NotFound)
    }
}

/// A client of the coordinator that listens at a socket.
#[derive(Debug)]
pub struct RestManagerClient {
    socket_path: PathBuf,
}

impl RestManagerClient {
    /// The socket that this client speaks to.
    pub closed spec fn path(&self) -> PathBuf {
        self.socket_path
    }

    /// A client of the coordinator at the usual socket.
    pub fn new() -> (client: RestManagerClient)
        ensures
            path_text(client.path()) == DOMAIN_SOCKET@,
    {
        RestManagerClient::at_path(path_from(DOMAIN_SOCKET))
    }

    /// A client of the coordinator at the socket `socket_path`.
    pub fn at_path(socket_path: PathBuf) -> (client: RestManagerClient)
        ensures
            client.path() == socket_path,
    {
        RestManagerClient { socket_path }
    }

    /// The socket that this client speaks to.
    pub fn socket_path(&self) -> (path: &PathBuf)
        ensures
            *path == self.path(),
    {
        &self.socket_path
    }

    /// The request that asks for the coordinator's tasks.
    pub fn workers_request(&self) -> (request: RequestMessage)
        ensures
            request@ == RequestView::GetWorkers,
    {
        RequestMessage::GetWorkers
    }

    /// The request that stops `tasks`: the whole server for all of them,
    /// the named tasks for a list.
    pub fn stop_request(&self, tasks: TaskSpec) -> (request: RequestMessage)
        ensures
            request@ == match tasks@ {
                TaskSpecView::All => RequestView::StopServer,
                TaskSpecView::List(names) => RequestView::StopTasks(names),
            },
    {
        tasks.into_request()
    }
}

} // verus!
