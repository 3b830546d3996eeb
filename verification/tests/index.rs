use straw_boss::index::index_services;
use straw_boss::service::Service;

#[test]
fn the_last_service_of_a_name_is_kept() {
    let index = index_services(&[
        Service::new("a", "1"),
        Service::new("b", "2"),
        Service::new("a", "3"),
    ]);
    assert_eq!(Some(&String::from("3")), index.get("a").map(|s| &s.command));
    assert_eq!(Some(&String::from("2")), index.get("b").map(|s| &s.command));
    assert_eq!(2, index.len());
}

#[test]
fn a_name_keeps_its_first_place() {
    let index = index_services(&[
        Service::new("a", "1"),
        Service::new("b", "2"),
        Service::new("a", "3"),
    ]);
    assert_eq!(vec![&String::from("a"), &String::from("b")], index.keys());
    assert_eq!(
        &vec![Service::new("a", "3"), Service::new("b", "2")],
        index.services()
    );
}

#[test]
fn an_index_of_nothing_holds_nothing() {
    let index = index_services(&[]);
    assert_eq!(0, index.len());
    assert_eq!(None, index.get("a"));
    assert!(!index.contains_key("a"));
    assert!(index.keys().is_empty());
}

#[test]
fn names_are_told_apart_exactly() {
    let index = index_services(&[Service::new("web", "1"), Service::new("Web", "2")]);
    assert!(index.contains_key("web"));
    assert!(index.contains_key("Web"));
    assert!(!index.contains_key("we"));
    assert!(!index.contains_key("web "));
    assert_eq!(2, index.len());
}

#[test]
fn a_copy_of_an_index_holds_the_same() {
    let index = index_services(&[Service::new("a", "1"), Service::new("b", "2")]);
    assert_eq!(index, index.clone());
}

#[test]
fn the_index_of_a_procfile_is_printed_as_yaml() {
    let input = b"web: start web-server\nworker: start worker\nqueue: queue-mgr\n";
    let services = Service::read_procfile(&input[..]).unwrap();
    let index = index_services(&services);
    let mut by_name = serde_yaml::Mapping::new();
    for service in index.services() {
        let mut record = serde_yaml::Mapping::new();
        record.insert(
            serde_yaml::Value::from("name"),
            serde_yaml::Value::from(service.name.clone()),
        );
        record.insert(
            serde_yaml::Value::from("command"),
            serde_yaml::Value::from(service.command.clone()),
        );
        by_name.insert(
            serde_yaml::Value::from(service.name.clone()),
            serde_yaml::Value::Mapping(record),
        );
    }
    let output = serde_yaml::to_string(&by_name).unwrap();
    assert!(serde_yaml::from_str::<serde_yaml::Value>(&output).is_ok());
    for part in [
        "web:",
        "start web-server",
        "worker:",
        "start worker",
        "queue:",
        "queue-mgr",
    ] {
        assert!(output.contains(part), "{} in {}", part, output);
    }
}
