use straw_boss::server::{start, ManagerServer, ServerError, ServerRunMode};
use straw_boss::service::Service;
use std::path::PathBuf;

#[derive(Debug, PartialEq)]
enum ServerCalls {
    Daemonize,
    StartServer,
    StartWorkers,
}

struct MockServer {
    calls: Vec<ServerCalls>,
    fails_at: Option<ServerCalls>,
}

impl MockServer {
    fn new() -> MockServer {
        MockServer {
            calls: Vec::new(),
            fails_at: None,
        }
    }

    fn push(&mut self, call: ServerCalls) -> Result<(), ServerError> {
        let fails = self.fails_at.as_ref() == Some(&call);
        self.calls.push(call);
        if fails {
            Err(ServerError::Socket(String::from("refused")))
        } else {
            Ok(())
        }
    }
}

impl ManagerServer for MockServer {
    fn daemonize(&mut self, _pid_file: PathBuf) -> Result<(), ServerError> {
        self.push(ServerCalls::Daemonize)
    }

    fn start_server(&mut self) -> Result<(), ServerError> {
        self.push(ServerCalls::StartServer)
    }

    fn start_workers(&mut self, _workers: Vec<Service>) -> Result<(), ServerError> {
        self.push(ServerCalls::StartWorkers)
    }
}

#[test]
fn test_daemon_mode_calls_daemonize() {
    let mut server = MockServer::new();
    assert!(start(
        &mut server,
        ServerRunMode::Daemon("/dev/null".into()),
        Vec::new(),
    )
    .is_ok());
    assert!(server.calls.contains(&ServerCalls::Daemonize));
}

#[test]
fn test_foreground_does_not_call_daemonize() {
    let mut server = MockServer::new();
    assert!(start(&mut server, ServerRunMode::Foreground, Vec::new()).is_ok());
    assert!(!server.calls.contains(&ServerCalls::Daemonize));
}

#[test]
fn test_starts_workers() {
    let mut server = MockServer::new();
    assert!(start(&mut server, ServerRunMode::Foreground, Vec::new()).is_ok());
    assert!(server.calls.contains(&ServerCalls::StartWorkers));
}

#[test]
fn test_starts_server() {
    let mut server = MockServer::new();
    assert!(start(&mut server, ServerRunMode::Foreground, Vec::new()).is_ok());
    assert!(server.calls.contains(&ServerCalls::StartServer));
}

#[test]
fn start_runs_its_steps_in_order() {
    let mut server = MockServer::new();
    assert!(start(
        &mut server,
        ServerRunMode::Daemon("/dev/null".into()),
        Vec::new(),
    )
    .is_ok());
    assert_eq!(
        vec![
            ServerCalls::Daemonize,
            ServerCalls::StartWorkers,
            ServerCalls::StartServer
        ],
        server.calls
    );
}

#[test]
fn start_ends_at_the_first_failure() {
    let mut server = MockServer::new();
    server.fails_at = Some(ServerCalls::StartWorkers);
    assert_eq!(
        Err(ServerError::Socket(String::from("refused"))),
        start(&mut server, ServerRunMode::Foreground, Vec::new())
    );
    assert_eq!(vec![ServerCalls::StartWorkers], server.calls);
}

#[test]
fn pid_file_only_in_daemon_mode() {
    assert_eq!(None, ServerRunMode::Foreground.into_pid_file());
    assert_eq!(
        Some(PathBuf::from("/tmp/straw-boss.pid")),
        ServerRunMode::Daemon(PathBuf::from("/tmp/straw-boss.pid")).into_pid_file()
    );
}
