use std::str::FromStr;
use straw_boss::index::index_services;
use straw_boss::procfile::ProcfileError;
use straw_boss::service::{ParseError, Service};

#[test]
fn test_identifies_service_names() {
    let input = vec!["web: start web-server", "worker: start worker"];
    assert_eq!(
        vec![String::from("web"), String::from("worker")],
        input
            .into_iter()
            .map(Service::from_str)
            .map(|p| p.unwrap().name)
            .collect::<Vec<String>>()
    );
}

#[test]
fn test_associates_names_with_commands() {
    let input = vec!["web: start web-server", "worker: start worker"];
    let expected = vec![
        Service::from_command("web", "start web-server"),
        Service::from_command("worker", "start worker"),
    ];
    assert_eq!(
        expected,
        input
            .into_iter()
            .map(|s| Service::from_str(s).unwrap())
            .collect::<Vec<Service>>()
    )
}

#[test]
fn test_test_returns_an_error_on_empty() {
    assert!("".parse::<Service>().is_err());
}

#[test]
fn test_test_returns_an_error_if_no_colon() {
    assert!("something no colon".parse::<Service>().is_err());
}

#[test]
fn test_index_returns_expected_count() {
    let input = vec![
        Service::from_command("web", "start web-server"),
        Service::from_command("worker", "start worker"),
    ];
    let index = index_services(&input);
    let mut keys = index.keys();
    keys.sort();
    assert_eq!(vec![&String::from("web"), &String::from("worker")], keys);
}

#[test]
fn test_index_associates_commands_with_names() {
    let input = vec![
        Service::from_command("web", "start web-server"),
        Service::from_command("worker", "start worker"),
    ];
    let index = index_services(&input);
    assert_eq!(
        Some(&String::from("start web-server")),
        index.get("web").map(|s| &s.command)
    );
    assert_eq!(
        Some(&String::from("start worker")),
        index.get("worker").map(|s| &s.command)
    );
}

#[test]
fn test_index_keeps_last_duplicate() {
    let input = vec![
        Service::from_command("web", "start web-server"),
        Service::from_command("worker", "start worker"),
        Service::from_command("web", "second web-server"),
    ];
    let index = index_services(&input);
    assert_eq!(
        Some(&String::from("second web-server")),
        index.get("web").map(|s| &s.command)
    );
}

#[test]
fn test_reads_one_service_per_line() {
    let input = b"web: start web-server\nworker: start worker\n";
    let services = Service::read_procfile(&input[..]);
    assert!(services.is_ok());
    assert_eq!(2, services.unwrap().len());
}

#[test]
fn test_errors_on_invalid_input() {
    let input = b"web start web-server\nworker: start worker\n";
    let services = Service::read_procfile(&input[..]);
    assert!(services.is_err());
}

#[test]
fn test_reads_names() {
    let input = b"web: start web-server\nworker: start worker\n";
    let services = Service::read_procfile(&input[..]).expect("To read the services.");
    let names = services
        .into_iter()
        .map(|s| s.name)
        .collect::<Vec<String>>();
    assert_eq!(vec![String::from("web"), String::from("worker")], names);
}

#[test]
fn test_reads_commands() {
    let input = b"web: start web-server\nworker: start worker\n";
    let services = Service::read_procfile(&input[..]).expect("To read the services.");
    let names = services
        .into_iter()
        .map(|s| s.command)
        .collect::<Vec<String>>();
    assert_eq!(
        vec![
            String::from("start web-server"),
            String::from("start worker"),
        ],
        names
    );
}

#[test]
fn service_test_identifies_service_names() {
    let input = vec!["web: start web-server", "worker: start worker"];
    let service_names = input
        .into_iter()
        .map(Service::from_str)
        .map(|p| p.unwrap().name)
        .collect::<Vec<String>>();
    assert!(service_names.contains(&String::from("web")));
    assert!(service_names.contains(&String::from("worker")));
}

#[test]
fn service_test_associates_names_with_commands() {
    let input = vec!["web: start web-server", "worker: start worker"];
    let expected = vec![
        Service::from_command("web", "start web-server"),
        Service::from_command("worker", "start worker"),
    ];
    let services = input
        .into_iter()
        .map(|s| Service::from_str(s).unwrap())
        .collect::<Vec<Service>>();
    assert!(services.iter().eq(expected.iter()));
}

#[test]
fn service_test_returns_an_error_on_empty() {
    assert!("".parse::<Service>().is_err());
    assert_eq!(Err(ParseError::MissingColon), "".parse::<Service>());
}

#[test]
fn service_test_returns_an_error_if_no_colon() {
    assert!("something no colon".parse::<Service>().is_err());
    assert_eq!(
        Err(ParseError::MissingColon),
        "something no colon".parse::<Service>()
    );
}

#[test]
fn service_test_index_returns_expected_count() {
    let input = vec![
        Service::from_command("web", "start web-server"),
        Service::from_command("worker", "start worker"),
    ];
    let index = index_services(&input);
    let keys = index.keys();
    assert!(keys.contains(&&String::from("web")));
    assert!(keys.contains(&&String::from("worker")));
    assert_eq!(2, index.len());
}

#[test]
fn service_test_index_associates_commands_with_names() {
    let input = vec![
        Service::from_command("web", "start web-server"),
        Service::from_command("worker", "start worker"),
    ];
    let index = index_services(&input);
    assert_eq!(
        Some(String::from("start web-server")),
        index.get("web").map(|s| s.command.clone())
    );
    assert_eq!(
        Some(String::from("start worker")),
        index.get("worker").map(|s| s.command.clone())
    );
}

#[test]
fn service_test_index_keeps_last_duplicate() {
    let input = vec![
        Service::from_command("web", "start web-server"),
        Service::from_command("worker", "start worker"),
        Service::from_command("web", "second web-server"),
    ];
    let index = index_services(&input);
    assert_eq!(
        Some(String::from("second web-server")),
        index.get("web").map(|s| s.command.clone())
    );
}

#[test]
fn service_test_reads_one_service_per_line() {
    let input = b"web: start web-server\nworker: start worker\n";
    let services = Service::read_procfile(&input[..]);
    assert!(services.is_ok());
    assert_eq!(2, services.unwrap().len());
}

#[test]
fn service_test_errors_on_invalid_input() {
    let input = b"web start web-server\nworker: start worker\n";
    let services = Service::read_procfile(&input[..]);
    assert_eq!(
        Err(ProcfileError::InvalidLine {
            line: 0,
            reason: ParseError::MissingColon
        }),
        services
    );
}

#[test]
fn service_test_reads_names() {
    let input = b"web: start web-server\nworker: start worker\n";
    let services = Service::read_procfile(&input[..]).expect("To read the services.");
    let names = services
        .into_iter()
        .map(|s| s.name)
        .collect::<Vec<String>>();
    assert!(names.contains(&String::from("web")));
    assert!(names.contains(&String::from("worker")));
}

#[test]
fn service_test_reads_commands() {
    let input = b"web: start web-server\nworker: start worker\n";
    let services = Service::read_procfile(&input[..]).expect("To read the services.");
    let names = services
        .into_iter()
        .map(|s| s.command)
        .collect::<Vec<String>>();
    assert!(names.contains(&String::from("start web-server")));
    assert!(names.contains(&String::from("start worker")));
}

#[test]
fn test_test_identifies_service_names() {
    let input = vec!["web: start web-server", "worker: start worker"];
    let service_names = input
        .into_iter()
        .map(Service::from_str)
        .map(|p| p.unwrap().name)
        .collect::<Vec<String>>();
    assert!(service_names.contains(&String::from("web")));
    assert!(service_names.contains(&String::from("worker")));
}

#[test]
fn test_test_associates_names_with_commands() {
    let input = vec!["web: start web-server", "worker: start worker"];
    let expected: Vec<String> = vec!["start web-server".into(), "start worker".into()];
    let services = input
        .into_iter()
        .map(|s| Service::from_str(s).unwrap().command)
        .collect::<Vec<String>>();
    assert!(services.iter().eq(expected.iter()));
}

#[test]
fn test_returns_multiple_commands_for_service_when_piped() {
    let input = vec![
        "web: start web-server | tee web-server.log",
        "worker: start worker | tee worker.log",
    ];
    let expected = vec![
        "start web-server | tee web-server.log".to_string(),
        "start worker | tee worker.log".to_string(),
    ];
    let services = input
        .into_iter()
        .map(|s| Service::from_str(s).unwrap().command)
        .collect::<Vec<String>>();
    assert!(services.iter().eq(expected.iter()));
}

#[test]
fn test_test_index_returns_expected_count() {
    let input = vec![
        Service::new("web", "start web-server"),
        Service::new("worker", "start worker"),
    ];
    let index = index_services(&input);
    let keys = index.keys();
    assert!(keys.contains(&&String::from("web")));
    assert!(keys.contains(&&String::from("worker")));
}

#[test]
fn test_test_index_associates_commands_with_names() {
    let input = vec![
        Service::new("web", "start web-server"),
        Service::new("worker", "start worker"),
    ];
    let index = index_services(&input);
    assert_eq!(
        Some(&String::from("start web-server")),
        index.get("web").map(|s| &s.command)
    );
    assert_eq!(
        Some(&String::from("start worker")),
        index.get("worker").map(|s| &s.command)
    );
}

#[test]
fn test_test_index_keeps_last_duplicate() {
    let input = vec![
        Service::new("web", "start web-server"),
        Service::new("worker", "start worker"),
        Service::new("web", "second web-server"),
    ];
    let index = index_services(&input);
    assert_eq!(
        Some(&"second web-server".to_string()),
        index.get("web").map(|s| &s.command)
    );
}

#[test]
fn test_skips_comments() {
    let input = b"# commentary\nweb: start web-server\n";
    let services = Service::read_procfile(&input[..]);
    assert!(services.is_ok());
    assert_eq!(1, services.unwrap().len());
}

#[test]
fn test_test_reads_one_service_per_line() {
    let input = b"web: start web-server\nworker: start worker\n";
    let services = Service::read_procfile(&input[..]);
    assert!(services.is_ok());
    assert_eq!(2, services.unwrap().len());
}

#[test]
fn test_test_errors_on_invalid_input() {
    let input = b"web start web-server\nworker: start worker\n";
    let services = Service::read_procfile(&input[..]);
    assert!(services.is_err());
}

#[test]
fn test_test_reads_names() {
    let input = b"web: start web-server\nworker: start worker\n";
    let services = Service::read_procfile(&input[..]).expect("To read the services.");
    let names = services
        .into_iter()
        .map(|s| s.name)
        .collect::<Vec<String>>();
    assert!(names.contains(&String::from("web")));
    assert!(names.contains(&String::from("worker")));
}

#[test]
fn test_test_reads_commands() {
    let input = b"web: start web-server\nworker: start worker\n";
    let services = Service::read_procfile(&input[..]).expect("To read the services.");
    let names = services
        .into_iter()
        .map(|s| s.command)
        .collect::<Vec<String>>();
    assert!(names.contains(&"start web-server".into()));
    assert!(names.contains(&"start worker".into()));
}

#[test]
fn test_reads_list_of_services() {
    let input = b"ticker: ruby ./ticker $PORT\nerror: ruby ./error\nutf8: ruby ./utf8\nspawner: ./spawner\n";
    let services = Service::read_procfile(&input[..]).unwrap();
    let expected = vec![
        Service::new("ticker", "ruby ./ticker $PORT"),
        Service::new("error", "ruby ./error"),
        Service::new("utf8", "ruby ./utf8"),
        Service::new("spawner", "./spawner"),
    ];
    assert!(services.contains(&expected[0]));
    assert!(services.contains(&expected[1]));
    assert!(services.contains(&expected[2]));
    assert!(services.contains(&expected[3]));
}
