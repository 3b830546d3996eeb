//! The coordinator: the workers it holds, and what each request on its
//! control socket has it do.

use crate::paths::{path_from, path_text};
use crate::service::{Service, ServiceView};
use crate::worker::{ServiceWorker, WorkerView};
use std::path::PathBuf;
use vstd::prelude::*;

verus! {

/// Where the coordinator listens unless it is told otherwise.
pub const DOMAIN_SOCKET: &'static str = "/tmp/straw-boss-server.sock";

/// How the coordinator runs.
#[derive(Debug)]
pub enum ServerRunMode {
    /// Attached to the terminal that started it.
    Foreground,
    /// Detached, with its process id written to this file.
    Daemon(PathBuf),
}

impl ServerRunMode {
    /// The file that holds the process id: there is one exactly in daemon mode.
    pub fn into_pid_file(self) -> (pid_file: Option<PathBuf>)
        ensures
            pid_file == match self {
                ServerRunMode::Foreground => None,
                ServerRunMode::Daemon(path) => Some(path),
            },
    {
        match self {
            ServerRunMode::Foreground => None,
            ServerRunMode::Daemon(path) => Some(path),
        }
    }
}

/// What a client asks of the coordinator.
#[derive(Debug, PartialEq, Eq, PartialOrd)]
pub enum RequestMessage {
    /// List the tasks.
    GetWorkers,
    /// Stop every task, and the coordinator.
    StopServer,
    /// Stop the tasks of these names.
    StopTasks(Vec<String>),
}

/// What a `RequestMessage` holds, as sequences of characters.
pub enum RequestView {
    GetWorkers,
    StopServer,
    StopTasks(Seq<Seq<char>>),
}

impl View for RequestMessage {
    type V = RequestView;

    open spec fn view(&self) -> RequestView {
        match self {
            RequestMessage::GetWorkers => RequestView::GetWorkers,
            RequestMessage::StopServer => RequestView::StopServer,
            RequestMessage::StopTasks(names) => RequestView::StopTasks(names.deep_view()),
        }
    }
}

/// What the coordinator answers.
#[derive(Debug, PartialEq, Eq, PartialOrd)]
pub enum ResponseMessage {
    /// The tasks, in the coordinator's order.
    Workers(Vec<Service>),
}

impl View for ResponseMessage {
    type V = Seq<ServiceView>;

    open spec fn view(&self) -> Seq<ServiceView> {
        match self {
            ResponseMessage::Workers(services) => services.deep_view(),
        }
    }
}

impl ResponseMessage {
    /// The tasks that the answer lists.
    pub fn into_workers(self) -> (services: Vec<Service>)
        ensures
            services.deep_view() == self@,
    {
        match self {
            ResponseMessage::Workers(services) => services,
        }
    }
}

/// Why the coordinator failed.
#[derive(Debug, Clone, PartialEq, Eq)]
pub enum ServerError {
    /// The process could not be detached.
    Daemonize(String),
    /// A worker could not be started.
    Worker(String),
    /// The control socket could not be opened or read.
    Socket(String),
    /// A request or an answer could not be decoded or encoded.
    Protocol(String),
    /// A worker could not be killed.
    Kill(String),
}

/// A coordinator, as `start` drives it.
pub trait ManagerServer {
    /// Whether `daemonize` with `pid_file` may leave this coordinator as
    /// `after` and return `outcome`. Unless a coordinator says otherwise,
    /// anything may come of it.
    open spec fn may_daemonize(
        &self,
        pid_file: PathBuf,
        after: &Self,
        outcome: Result<(), ServerError>,
    ) -> bool {
        true
    }

    /// Whether `start_workers` with `workers` may leave this coordinator as
    /// `after` and return `outcome`. Unless a coordinator says otherwise,
    /// anything may come of it.
    open spec fn may_start_workers(
        &self,
        workers: Vec<Service>,
        after: &Self,
        outcome: Result<(), ServerError>,
    ) -> bool {
        true
    }

    /// Whether `start_server` may leave this coordinator as `after` and
    /// return `outcome`. Unless a coordinator says otherwise, anything may
    /// come of it.
    open spec fn may_start_server(&self, after: &Self, outcome: Result<(), ServerError>) -> bool {
        true
    }

    /// Detaches the process and writes its id to `pid_file`.
    fn daemonize(&mut self, pid_file: PathBuf) -> (outcome: Result<(), ServerError>)
        ensures
            old(self).may_daemonize(pid_file, final(self), outcome),
    ;

    /// Starts one worker for each service, in their order.
    fn start_workers(&mut self, workers: Vec<Service>) -> (outcome: Result<(), ServerError>)
        ensures
            old(self).may_start_workers(workers, final(self), outcome),
    ;

    /// Opens the control socket and serves requests until told to stop.
    fn start_server(&mut self) -> (outcome: Result<(), ServerError>)
        ensures
            old(self).may_start_server(final(self), outcome),
    ;
}

/// Whether starting the workers of a coordinator `from`, and then serving,
/// may leave it as `after` and end in `outcome`: the workers are started
/// with `workers`; where that fails, nothing more is done and its error is
/// the outcome; where it succeeds, the outcome is that of serving.
pub open spec fn may_man_and_serve<S: ManagerServer>(
    from: &S,
    workers: Vec<Service>,
    after: &S,
    outcome: Result<(), ServerError>,
) -> bool {
    exists|manned: S, manning: Result<(), ServerError>|
        {
            &&& #[trigger] from.may_start_workers(workers, &manned, manning)
            &&& if manning is Err {
                *after == manned && outcome == manning
            } else {
                manned.may_start_server(after, outcome)
            }
        }
}

/// Whether a start of the coordinator `before` may leave it as `after` and
/// end in `outcome`. In the foreground the workers are started and requests
/// served. In daemon mode the process is detached first, with the pid file
/// of the mode; where that fails, nothing more is done and its error is the
/// outcome; where it succeeds, the start goes on as in the foreground.
pub open spec fn may_start<S: ManagerServer>(
    before: &S,
    run_mode: ServerRunMode,
    workers: Vec<Service>,
    after: &S,
    outcome: Result<(), ServerError>,
) -> bool {
    match run_mode {
        ServerRunMode::Foreground => may_man_and_serve(before, workers, after, outcome),
        ServerRunMode::Daemon(pid_file) => exists|
            detached: S,
            detaching: Result<(), ServerError>,
        |
            {
                &&& #[trigger] before.may_daemonize(pid_file, &detached, detaching)
                &&& if detaching is Err {
                    *after == detached && outcome == detaching
                } else {
                    may_man_and_serve(&detached, workers, after, outcome)
                }
            },
    }
}

/// Starts the coordinator: detaches it first in daemon mode, and only then;
/// starts the workers; serves requests. The first step that fails ends the
/// start with its error.
pub fn start<S: ManagerServer>(
    server: &mut S,
    run_mode: ServerRunMode,
    workers: Vec<Service>,
) -> (outcome: Result<(), ServerError>)
    ensures
        may_start(old(server), run_mode, workers, final(server), outcome),
{
    match run_mode.into_pid_file() {
        Some(pid_file) => {
            let ghost before = *server;
            let detaching = server.daemonize(pid_file);
            if detaching.is_err() {
                return detaching;
            }
            let ghost detached = *server;
            let outcome = man_and_serve(server, workers);
            assert(before.may_daemonize(pid_file, &detached, detaching));
            outcome
        },
        None => man_and_serve(server, workers),
    }
}

/// Starts the workers of a coordinator and, where that succeeds, serves
/// requests.
fn man_and_serve<S: ManagerServer>(server: &mut S, workers: Vec<Service>) -> (outcome: Result<
    (),
    ServerError,
>)
    ensures
        may_man_and_serve(old(server), workers, final(server), outcome),
{
    let ghost from = *server;
    let manning = server.start_workers(workers);
    if manning.is_err() {
        return manning;
    }
    let ghost manned = *server;
    let outcome = server.start_server();
    assert(from.may_start_workers(workers, &manned, manning));
    outcome
}

/// What the coordinator does on a request.
#[derive(Debug, PartialEq, Eq)]
pub enum ServerAction {
    /// Send this answer.
    Reply(ResponseMessage),
    /// Send a kill to the workers at these places of the list.
    Kill(Vec<usize>),
    /// Do nothing but close the connection.
    Close,
    /// Leave the serving loop.
    Shutdown,
}

/// The coordinator's state: its socket, its pid file in daemon mode, and
/// its workers in the order of the Procfile.
#[derive(Debug)]
pub struct RestManagerServer {
    socket_path: PathBuf,
    pid_file: Option<PathBuf>,
    workers: Vec<ServiceWorker>,
}

/// What a `RestManagerServer` holds.
pub struct ServerView {
    pub socket_path: PathBuf,
    pub pid_file: Option<PathBuf>,
    pub workers: Seq<WorkerView>,
}

/// The services of `workers`, in their order.
pub open spec fn services_of(workers: Seq<WorkerView>) -> Seq<ServiceView> {
    Seq::new(workers.len(), |i: int| workers[i].service)
}

/// One running worker for each of `services`, in their order.
pub open spec fn started(services: Seq<ServiceView>) -> Seq<WorkerView> {
    Seq::new(services.len(), |i: int| WorkerView { service: services[i], running: true })
}

/// Whether a request to stop the tasks `names` is about `worker`.
pub open spec fn is_named(worker: WorkerView, names: Seq<Seq<char>>) -> bool {
    names.contains(worker.service.name)
}

/// The workers after a request to stop the tasks `names`: those named are
/// stopped, the others are as they were.
pub open spec fn after_stop(workers: Seq<WorkerView>, names: Seq<Seq<char>>) -> Seq<WorkerView> {
    Seq::new(
        workers.len(),
        |i: int|
            WorkerView {
                service: workers[i].service,
                running: workers[i].running && !is_named(workers[i], names),
            },
    )
}

/// The places of the workers that a request to stop the tasks `names` has
/// killed: those that run and are named, in the order of the list.
pub open spec fn to_kill(workers: Seq<WorkerView>, names: Seq<Seq<char>>) -> Seq<usize>
    decreases workers.len(),
{
    if workers.len() == 0 {
        Seq::empty()
    } else {
        let before = to_kill(workers.drop_last(), names);
        if workers.last().running && is_named(workers.last(), names) {
            before.push((workers.len() - 1) as usize)
        } else {
            before
        }
    }
}

/// The workers once all are stopped.
pub open spec fn all_stopped(workers: Seq<WorkerView>) -> Seq<WorkerView> {
    Seq::new(workers.len(), |i: int| WorkerView { service: workers[i].service, running: false })
}

/// The places of the workers that run, in the order of the list.
pub open spec fn running_places(workers: Seq<WorkerView>) -> Seq<usize>
    decreases workers.len(),
{
    if workers.len() == 0 {
        Seq::empty()
    } else {
        let before = running_places(workers.drop_last());
        if workers.last().running {
            before.push((workers.len() - 1) as usize)
        } else {
            before
        }
    }
}

/// Whether `action` and the state `after` are what `request` calls for in
/// the state `before`.
pub open spec fn handled(
    before: ServerView,
    request: RequestView,
    after: ServerView,
    action: ServerAction,
) -> bool {
    &&& after == (ServerView { workers: after_request(before.workers, request), ..before })
    &&& match request {
        RequestView::GetWorkers => {
            &&& action matches ServerAction::Reply(response)
            &&& response@ == services_of(before.workers)
        },
        RequestView::StopServer => action is Shutdown,
        RequestView::StopTasks(names) => {
            &&& action matches ServerAction::Kill(killed)
            &&& killed@ == to_kill(before.workers, names)
        },
    }
}

/// The workers after a request: a request to stop tasks stops those named,
/// and no other request changes a worker.
pub open spec fn after_request(workers: Seq<WorkerView>, request: RequestView) -> Seq<WorkerView> {
    match request {
        RequestView::StopTasks(names) => after_stop(workers, names),
        _ => workers,
    }
}

/// The workers after all of `requests`, one after the other.
pub open spec fn after_requests(workers: Seq<WorkerView>, requests: Seq<RequestView>) -> Seq<
    WorkerView,
>
    decreases requests.len(),
{
    if requests.len() == 0 {
        workers
    } else {
        after_request(after_requests(workers, requests.drop_last()), requests.last())
    }
}

/// The workers keep the order of the services they were started for: after
/// any requests, a request for the workers is answered with that list.
pub proof fn lemma_workers_keep_order(services: Seq<ServiceView>, requests: Seq<RequestView>)
    ensures
        services_of(after_requests(started(services), requests)) == services,
        services_of(all_stopped(after_requests(started(services), requests))) == services,
    decreases requests.len(),
{
    if requests.len() == 0 {
        assert(services_of(started(services)) =~= services);
    } else {
        lemma_workers_keep_order(services, requests.drop_last());
        let before = after_requests(started(services), requests.drop_last());
        let after = after_request(before, requests.last());
        assert(services_of(after) =~= services_of(before));
    }
    let now = after_requests(started(services), requests);
    assert(services_of(all_stopped(now)) =~= services_of(now));
}

/// A request to stop tasks has a kill sent exactly to the workers that run
/// and are named, each once, in the order of the list.
pub proof fn lemma_to_kill(workers: Seq<WorkerView>, names: Seq<Seq<char>>)
    requires
        workers.len() <= usize::MAX,
    ensures
        forall|k: int|
            0 <= k < to_kill(workers, names).len() ==> {
                let at = #[trigger] to_kill(workers, names)[k] as int;
                0 <= at < workers.len() && workers[at].running && is_named(workers[at], names)
            },
        forall|j: int, k: int|
            0 <= j < k < to_kill(workers, names).len() ==> to_kill(workers, names)[j] < to_kill(
                workers,
                names,
            )[k],
        forall|at: int|
            0 <= at < workers.len() && workers[at].running && is_named(
                #[trigger] workers[at],
                names,
            ) ==> to_kill(workers, names).contains(at as usize),
    decreases workers.len(),
{
    if workers.len() > 0 {
        let before = workers.drop_last();
        lemma_to_kill(before, names);
        let now = to_kill(workers, names);
        let was = to_kill(before, names);
        assert forall|k: int| 0 <= k < now.len() implies {
            let at = #[trigger] now[k] as int;
            0 <= at < workers.len() && workers[at].running && is_named(workers[at], names)
        } by {
            if k < was.len() {
                assert(now[k] == was[k]);
                assert(before[was[k] as int] == workers[was[k] as int]);
            }
        }
        assert forall|j: int, k: int| 0 <= j < k < now.len() implies now[j] < now[k] by {
            assert(now[j] == was[j]);
            if k < was.len() {
                assert(now[k] == was[k]);
            }
        }
        assert forall|at: int|
            0 <= at < workers.len() && workers[at].running && is_named(
                #[trigger] workers[at],
                names,
            ) implies now.contains(at as usize) by {
            if at < before.len() {
                assert(before[at] == workers[at]);
                assert(was.contains(at as usize));
                let k = choose|k: int| 0 <= k < was.len() && was[k] == at as usize;
                assert(now[k] == at as usize);
            } else {
                assert(now[now.len() - 1] == at as usize);
            }
        }
    }
}

/// Whether `name` is among `names`.
pub fn contains_name(names: &Vec<String>, name: &String) -> (found: bool)
    ensures
        found == names.deep_view().contains(name@),
{
    let mut at: usize = 0;
    while at < names.len()
        invariant
            at <= names.len(),
            forall|j: int| 0 <= j < at ==> names.deep_view()[j] != name@,
        decreases names.len() - at,
    {
        if names[at] == *name {
            assert(names.deep_view()[at as int] == name@);
            return true;
        }
        at += 1;
    }
    false
}

impl View for RestManagerServer {
    type V = ServerView;

    closed spec fn view(&self) -> ServerView {
        ServerView {
            socket_path: self.socket_path,
            pid_file: self.pid_file,
            workers: self.workers.deep_view(),
        }
    }
}

impl RestManagerServer {
    /// A coordinator at the usual socket, without workers.
    pub fn new() -> (server: RestManagerServer)
        ensures
            path_text(server@.socket_path) == DOMAIN_SOCKET@,
            server@.pid_file is None,
            server@.workers.len() == 0,
    {
        RestManagerServer::at_path(path_from(DOMAIN_SOCKET))
    }

    /// A coordinator at the socket `socket_path`, without workers.
    pub fn at_path(socket_path: PathBuf) -> (server: RestManagerServer)
        ensures
            server@.socket_path == socket_path,
            server@.pid_file is None,
            server@.workers.len() == 0,
    {
        RestManagerServer { socket_path, pid_file: None, workers: Vec::new() }
    }

    /// Where the coordinator listens.
    pub fn socket_path(&self) -> (path: &PathBuf)
        ensures
            *path == self@.socket_path,
    {
        &self.socket_path
    }

    /// The file that holds the process id, in daemon mode.
    pub fn pid_file(&self) -> (path: Option<&PathBuf>)
        ensures
            path is Some <==> self@.pid_file is Some,
            path is Some ==> *path->0 == self@.pid_file->0,
    {
        self.pid_file.as_ref()
    }

    /// Takes note of how detaching the process with `pid_file` ended, and
    /// hands that outcome on. Where the process was detached, the pid file
    /// is the coordinator's from here on, so that it is removed when the
    /// coordinator ends; where it was not, the coordinator is as it was.
    pub fn daemonize(&mut self, pid_file: PathBuf, detached: Result<(), ServerError>) -> (outcome:
        Result<(), ServerError>)
        ensures
            outcome == detached,
            final(self)@ == if detached is Ok {
                ServerView { pid_file: Some(pid_file), ..old(self)@ }
            } else {
                old(self)@
            },
    {
        if detached.is_ok() {
            self.pid_file = Some(pid_file);
        }
        detached
    }

    /// The files to remove when the coordinator ends: its socket, and its
    /// pid file where it has one.
    pub fn files_to_remove(&self) -> (files: Vec<&PathBuf>)
        ensures
            files.len() == if self@.pid_file is Some {
                2int
            } else {
                1int
            },
            *files[0] == self@.socket_path,
            self@.pid_file is Some ==> *files[1] == self@.pid_file->0,
    {
        let mut files: Vec<&PathBuf> = Vec::new();
        files.push(&self.socket_path);
        match &self.pid_file {
            Some(path) => {
                files.push(path);
            },
            None => {},
        }
        files
    }

    /// How many workers the coordinator holds.
    pub fn worker_count(&self) -> (count: usize)
        ensures
            count == self@.workers.len(),
    {
        self.workers.len()
    }

    /// The worker at the place `at` of the list.
    pub fn worker(&self, at: usize) -> (worker: &ServiceWorker)
        requires
            at < self@.workers.len(),
        ensures
            worker@ == self@.workers[at as int],
    {
        &self.workers[at]
    }

    /// Takes the place of the workers held so far with one worker for each
    /// of `services`, in their order, each of them started: the caller
    /// spawns their children, in that order, and calls `spawn_failed` at
    /// the first that cannot be spawned.
    pub fn start_workers(&mut self, services: Vec<Service>)
        ensures
            final(self)@ == (ServerView {
                workers: started(services.deep_view()),
                ..old(self)@
            }),
    {
        let mut workers: Vec<ServiceWorker> = Vec::new();
        let mut at: usize = 0;
        while at < services.len()
            invariant
                at <= services.len(),
                workers.deep_view() == started(services.deep_view().take(at as int)),
            decreases services.len() - at,
        {
            let mut worker = ServiceWorker::new(services[at].clone());
            let started_now = worker.start();
            let ghost before = workers.deep_view();
            workers.push(worker);
            proof {
                assert(workers.deep_view() =~= before.push(worker@));
                assert(before.push(worker@) =~= started(services.deep_view().take(at + 1)));
            }
            at += 1;
        }
        assert(services.deep_view().take(at as int) == services.deep_view());
        self.workers = workers;
    }

    /// Gives up the start of the workers because the child of the worker
    /// at the place `failed` could not be spawned. The coordinator holds
    /// none of the workers afterwards. Returns the places of the workers to
    /// which a kill is to be sent, in the order of the list: those before
    /// `failed`, whose children were spawned already. No worker after
    /// `failed` has a child.
    pub fn spawn_failed(&mut self, failed: usize) -> (killed: Vec<usize>)
        requires
            failed < old(self)@.workers.len(),
        ensures
            final(self)@ == (ServerView { workers: Seq::empty(), ..old(self)@ }),
            killed@ == Seq::new(failed as nat, |i: int| i as usize),
    {
        let mut killed: Vec<usize> = Vec::new();
        let mut at: usize = 0;
        while at < failed
            invariant
                at <= failed,
                killed@ == Seq::new(at as nat, |i: int| i as usize),
            decreases failed - at,
        {
            killed.push(at);
            assert(killed@ =~= Seq::new((at + 1) as nat, |i: int| i as usize));
            at += 1;
        }
        self.workers = Vec::new();
        assert(self.workers.deep_view() =~= Seq::<WorkerView>::empty());
        killed
    }

    /// The services of the workers, stopped ones too, in the order of the list.
    pub fn get_workers(&self) -> (response: ResponseMessage)
        ensures
            response@ == services_of(self@.workers),
    {
        let mut services: Vec<Service> = Vec::new();
        let mut at: usize = 0;
        while at < self.workers.len()
            invariant
                at <= self.workers.len(),
                services.deep_view() == services_of(self.workers.deep_view().take(at as int)),
            decreases self.workers.len() - at,
        {
            let service = self.workers[at].service().clone();
            let ghost before = services.deep_view();
            services.push(service);
            proof {
                assert(services.deep_view() =~= before.push(service@));
                assert(before.push(service@) =~= services_of(
                    self.workers.deep_view().take(at + 1),
                ));
            }
            at += 1;
        }
        assert(self.workers.deep_view().take(at as int) == self.workers.deep_view());
        ResponseMessage::Workers(services)
    }

    /// Stops the workers whose service has one of `names`. A name that no
    /// worker has changes nothing. Returns the places of the workers to
    /// which a kill is to be sent, in the order of the list: those among the
    /// named that ran.
    pub fn stop_tasks(&mut self, names: &Vec<String>) -> (killed: Vec<usize>)
        ensures
            final(self)@ == (ServerView {
                workers: after_stop(old(self)@.workers, names.deep_view()),
                ..old(self)@
            }),
            killed@ == to_kill(old(self)@.workers, names.deep_view()),
    {
        let ghost before = self.workers.deep_view();
        let ghost entered = self@;
        let mut killed: Vec<usize> = Vec::new();
        let mut at: usize = 0;
        while at < self.workers.len()
            invariant
                at <= self.workers.len(),
                self.workers.len() == before.len(),
                self.socket_path == entered.socket_path,
                self.pid_file == entered.pid_file,
                killed@ == to_kill(before.take(at as int), names.deep_view()),
                forall|j: int|
                    0 <= j < at ==> self.workers.deep_view()[j] == after_stop(
                        before,
                        names.deep_view(),
                    )[j],
                forall|j: int| at <= j < before.len() ==> self.workers.deep_view()[j] == before[j],
            decreases self.workers.len() - at,
        {
            let named = contains_name(names, &self.workers[at].service().name);
            proof {
                assert(before.take(at + 1).drop_last() == before.take(at as int));
                assert(self.workers.deep_view()[at as int] == self.workers[at as int]@);
            }
            if named {
                let ghost now = self.workers.deep_view();
                let message = self.workers[at].kill();
                proof {
                    assert(self.workers.deep_view() =~= now.update(
                        at as int,
                        self.workers[at as int]@,
                    ));
                }
                if message.is_some() {
                    killed.push(at);
                }
            }
            at += 1;
        }
        proof {
            assert(before.take(at as int) == before);
            assert(self.workers.deep_view() =~= after_stop(before, names.deep_view()));
        }
        killed
    }

    /// Stops every worker. Returns the places of the workers to which a kill
    /// is to be sent, in the order of the list: those that ran.
    pub fn stop_all(&mut self) -> (killed: Vec<usize>)
        ensures
            final(self)@ == (ServerView {
                workers: all_stopped(old(self)@.workers),
                ..old(self)@
            }),
            killed@ == running_places(old(self)@.workers),
    {
        let ghost before = self.workers.deep_view();
        let ghost entered = self@;
        let mut killed: Vec<usize> = Vec::new();
        let mut at: usize = 0;
        while at < self.workers.len()
            invariant
                at <= self.workers.len(),
                self.workers.len() == before.len(),
                self.socket_path == entered.socket_path,
                self.pid_file == entered.pid_file,
                killed@ == running_places(before.take(at as int)),
                forall|j: int|
                    0 <= j < at ==> self.workers.deep_view()[j] == all_stopped(before)[j],
                forall|j: int| at <= j < before.len() ==> self.workers.deep_view()[j] == before[j],
            decreases self.workers.len() - at,
        {
            proof {
                assert(before.take(at + 1).drop_last() == before.take(at as int));
                assert(self.workers.deep_view()[at as int] == self.workers[at as int]@);
            }
            let ghost now = self.workers.deep_view();
            let message = self.workers[at].kill();
            proof {
                assert(self.workers.deep_view() =~= now.update(at as int, self.workers[at as int]@));
            }
            if message.is_some() {
                killed.push(at);
            }
            at += 1;
        }
        proof {
            assert(before.take(at as int) == before);
            assert(self.workers.deep_view() =~= all_stopped(before));
        }
        killed
    }

    /// What a request has the coordinator do. A request for the workers is
    /// answered with their services and changes nothing. A request to stop
    /// tasks stops the named workers and names those to kill. A request to
    /// stop the server changes nothing here and ends the serving loop.
    pub fn handle(&mut self, request: RequestMessage) -> (action: ServerAction)
        ensures
            handled(old(self)@, request@, final(self)@, action),
    {
        match request {
            RequestMessage::GetWorkers => ServerAction::Reply(self.get_workers()),
            RequestMessage::StopServer => ServerAction::Shutdown,
            RequestMessage::StopTasks(names) => ServerAction::Kill(self.stop_tasks(&names)),
        }
    }

    /// What the coordinator does with what came in on a connection. A
    /// request is handled. Where nothing came that reads as a request, the
    /// connection is closed and the coordinator goes on as it was.
    pub fn receive(&mut self, received: Option<RequestMessage>) -> (action: ServerAction)
        ensures
            match received {
                Some(request) => handled(old(self)@, request@, final(self)@, action),
                None => final(self)@ == old(self)@ && action is Close,
            },
    {
        match received {
            Some(request) => self.handle(request),
            None => ServerAction::Close,
        }
    }
}

} // verus!
