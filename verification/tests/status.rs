use straw_boss::client::{status, ClientError, ManagerClient, ManagerStatus, RestManagerClient};
use straw_boss::server::{RequestMessage, ResponseMessage, DOMAIN_SOCKET};
use straw_boss::service::Service;
use straw_boss::tasks::TaskSpec;
use std::path::{Path, PathBuf};

struct FakeManagerClient {
    running: bool,
    workers: Result<Vec<Service>, ClientError>,
}

impl ManagerClient for FakeManagerClient {
    fn is_running(&self) -> bool {
        self.running
    }

    fn get_workers(&self) -> Result<Vec<Service>, ClientError> {
        match self.workers {
            Ok(ref w) => Ok(w.clone()),
            Err(ref e) => Err(e.clone()),
        }
    }

    fn stop(&self, _task: TaskSpec) -> Result<(), ClientError> {
        unreachable!()
    }
}

#[test]
fn test_no_response() {
    let client = FakeManagerClient {
        running: false,
        workers: Err(ClientError::Connect("not running".to_string())),
    };

    let actual = status(&client);
    assert_eq!(Ok(ManagerStatus::NotFound), actual);
}

#[test]
fn test_gets_worker_list() {
    let worker = Service::new("web", "run all the web");
    let client = FakeManagerClient {
        running: true,
        workers: Ok(vec![worker]),
    };

    let expected = vec![Service::new("web", "run all the web")];
    let actual = status(&client);

    assert_eq!(Ok(ManagerStatus::RunningTasks(expected)), actual);
}

#[test]
fn status_test_no_response() {
    let client = FakeManagerClient {
        running: false,
        workers: Err(ClientError::Connect("not running".to_string())),
    };

    let actual = status(&client);
    assert!(actual.is_ok());
}

#[test]
fn status_test_gets_worker_list() {
    let worker = Service::new("web", "run all the web");
    let client = FakeManagerClient {
        running: true,
        workers: Ok(vec![worker]),
    };

    let actual = status(&client);

    assert!(actual.is_ok());
    match actual.unwrap() {
        ManagerStatus::RunningTasks(tasks) => {
            assert_eq!(vec![Service::new("web", "run all the web")], tasks);
        }
        ManagerStatus::NotFound => panic!("a coordinator runs"),
    }
}

#[test]
fn status_passes_the_error_on() {
    let client = FakeManagerClient {
        running: true,
        workers: Err(ClientError::Receive("cut off".to_string())),
    };
    assert_eq!(
        Err(ClientError::Receive("cut off".to_string())),
        status(&client)
    );
}

#[test]
fn message_when_not_running() {
    assert_eq!(
        "Straw-boss not running. Why don't you try `straw-boss start --daemon`",
        ManagerStatus::NotFound.get_message()
    );
}

#[test]
fn message_lists_one_line_per_task() {
    let tasks = vec![
        Service::new("python", "python3 -m http.server 3040"),
        Service::new("ls", "ls fixtures"),
    ];
    let status = ManagerStatus::from_workers(tasks);
    assert_eq!(
        "python: python3 -m http.server 3040\nls: ls fixtures\n",
        status.get_message()
    );
}

#[test]
fn message_lists_each_task_of_a_name() {
    let tasks = vec![
        Service::new("a", "1"),
        Service::new("b", "2"),
        Service::new("a", "3"),
    ];
    let status = ManagerStatus::from_workers(tasks);
    assert_eq!("a: 1\nb: 2\na: 3\n", status.get_message());
}

#[test]
fn status_holds_each_worker_in_the_order_of_the_answer() {
    let workers = vec![
        Service::new("a", "1"),
        Service::new("b", "2"),
        Service::new("a", "3"),
    ];
    let client = FakeManagerClient {
        running: true,
        workers: Ok(workers.clone()),
    };
    assert_eq!(Ok(ManagerStatus::RunningTasks(workers)), status(&client));
}

#[test]
fn status_of_an_answer() {
    let workers = vec![Service::new("web", "serve"), Service::new("web", "serve")];
    assert_eq!(
        Ok(ManagerStatus::RunningTasks(workers.clone())),
        ManagerStatus::from_answer(Ok(workers))
    );
    assert_eq!(
        Err(ClientError::Send("closed".to_string())),
        ManagerStatus::from_answer(Err(ClientError::Send("closed".to_string())))
    );
}

#[test]
fn message_of_no_tasks_is_empty() {
    assert_eq!("", ManagerStatus::from_workers(vec![]).get_message());
}

#[test]
fn client_speaks_to_the_usual_socket() {
    let client = RestManagerClient::new();
    assert_eq!(Path::new("/tmp/straw-boss-server.sock"), client.socket_path());
    assert_eq!("/tmp/straw-boss-server.sock", DOMAIN_SOCKET);
}

#[test]
fn client_speaks_to_the_socket_given() {
    let client = RestManagerClient::at_path(PathBuf::from("/tmp/other.sock"));
    assert_eq!(&PathBuf::from("/tmp/other.sock"), client.socket_path());
}

#[test]
fn stop_all_asks_the_server_to_stop() {
    let client = RestManagerClient::new();
    assert_eq!(RequestMessage::StopServer, client.stop_request(TaskSpec::All));
    assert_eq!(RequestMessage::StopServer, TaskSpec::All.into_request());
}

#[test]
fn stop_list_asks_for_the_tasks_to_stop() {
    let client = RestManagerClient::new();
    let names = vec![String::from("web1"), String::from("web2")];
    assert_eq!(
        RequestMessage::StopTasks(vec![String::from("web1"), String::from("web2")]),
        client.stop_request(TaskSpec::List(names))
    );
}

#[test]
fn stop_empty_list_is_no_stop_of_the_server() {
    assert_eq!(
        RequestMessage::StopTasks(vec![]),
        TaskSpec::List(vec![]).into_request()
    );
}

#[test]
fn workers_request_asks_for_the_workers() {
    assert_eq!(
        RequestMessage::GetWorkers,
        RestManagerClient::new().workers_request()
    );
}

#[test]
fn tasks_from_names() {
    assert_eq!(TaskSpec::All, TaskSpec::from_names(None));
    assert_eq!(
        TaskSpec::List(vec![String::from("web")]),
        TaskSpec::from_names(Some(vec![String::from("web")]))
    );
}

#[test]
fn answer_hands_out_its_workers() {
    let answer = ResponseMessage::Workers(vec![Service::new("web", "serve")]);
    assert_eq!(vec![Service::new("web", "serve")], answer.into_workers());
}
