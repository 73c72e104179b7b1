use notifyhealth::containers::{
    check_not_running_containers, check_running_containers, container_names, extract_health,
    get_container_name, running_filter, stopped_filter, ContainerDetail, ContainerFilter,
    ContainerRecord, ContainerState, Health, HealthStatus, RunningContainerStatus,
    StoppedContainerStatus,
};
use notifyhealth::error::NotifyError;

fn named(name: &str) -> ContainerRecord {
    ContainerRecord { id: None, names: Some(vec![name.to_string()]), state: None }
}

fn with_health(status: Option<HealthStatus>) -> Result<ContainerDetail, NotifyError> {
    Ok(ContainerDetail { state: Some(ContainerState { health: Some(Health { status }) }) })
}

fn three_inspections() -> Vec<Result<ContainerDetail, NotifyError>> {
    vec![
        with_health(Some(HealthStatus::UNHEALTHY)),
        Ok(ContainerDetail { state: Some(ContainerState { health: None }) }),
        Ok(ContainerDetail { state: None }),
    ]
}

fn three_expected() -> Vec<RunningContainerStatus> {
    vec![
        RunningContainerStatus {
            name: "test_container".to_string(),
            health: Some(HealthStatus::UNHEALTHY),
        },
        RunningContainerStatus { name: "test_container2".to_string(), health: None },
        RunningContainerStatus { name: "test_container3".to_string(), health: None },
    ]
}

#[test]
fn check_running_containers_test() {
    let filter = running_filter(true);
    assert!(filter.all);
    assert_eq!(filter.status, vec!["running".to_string()]);
    assert_eq!(
        filter.health,
        vec![HealthStatus::UNHEALTHY, HealthStatus::STARTING, HealthStatus::NONE]
    );
    assert!(filter.label.is_empty());
    let listing =
        vec![named("/test_container"), named("/test_container2"), named("/test_container3")];
    assert_eq!(
        container_names(&listing),
        Ok(vec![
            "test_container".to_string(),
            "test_container2".to_string(),
            "test_container3".to_string()
        ])
    );
    let running_containers_result = check_running_containers(&listing, &three_inspections());
    if running_containers_result.is_err() {
        panic!(
            "Errors getting running containers: {:?}",
            running_containers_result.err().unwrap()
        );
    }
    let running_containers = running_containers_result.unwrap();
    assert_eq!(running_containers, three_expected());
}

#[test]
fn containers_check_running_containers_test() {
    let listing =
        vec![named("/test_container"), named("/test_container2"), named("/test_container3")];
    let running_containers_result = check_running_containers(&listing, &three_inspections());
    if running_containers_result.is_err() {
        panic!(
            "Errors getting running containers: {:?}",
            running_containers_result.err().unwrap()
        );
    }
    assert_eq!(running_containers_result.unwrap(), three_expected());
}

#[test]
fn check_running_containers_without_health_info() {
    let filter = running_filter(false);
    assert!(filter.all);
    assert_eq!(filter.status, vec!["running".to_string()]);
    assert_eq!(filter.health, vec![HealthStatus::UNHEALTHY, HealthStatus::STARTING]);
    let running_containers_result = check_running_containers(&vec![], &vec![]);
    if running_containers_result.is_err() {
        panic!(
            "Errors getting running containers: {:?}",
            running_containers_result.err().unwrap()
        );
    }
    let running_containers = running_containers_result.unwrap();
    assert_eq!(running_containers, vec![]);
}

#[test]
fn check_not_running_containers_test() {
    let label = "test_label";
    let filter = stopped_filter(label);
    assert_eq!(
        filter,
        ContainerFilter {
            all: true,
            status: vec![
                "created".to_string(),
                "paused".to_string(),
                "restarting".to_string(),
                "removing".to_string(),
                "exited".to_string(),
                "dead".to_string()
            ],
            health: vec![],
            label: vec![label.to_string()],
        }
    );
    let listing = vec![ContainerRecord {
        id: None,
        names: Some(vec!["/test_container".to_string()]),
        state: Some("stopped".to_owned()),
    }];
    let stopped_containers_result = check_not_running_containers(&listing);
    if stopped_containers_result.is_err() {
        panic!(
            "Errors getting stopped containers: {:?}",
            stopped_containers_result.err().unwrap()
        );
    }
    let stopped_containers = stopped_containers_result.unwrap();
    assert_eq!(
        stopped_containers,
        vec![StoppedContainerStatus {
            name: "test_container".to_string(),
            status: Some("stopped".to_string())
        }]
    );
}

#[test]
fn containers_check_not_running_containers_test() {
    let listing = vec![ContainerRecord {
        id: None,
        names: Some(vec!["/c4".to_string()]),
        state: Some("stopped".to_owned()),
    }];
    assert_eq!(
        check_not_running_containers(&listing),
        Ok(vec![StoppedContainerStatus {
            name: "c4".to_string(),
            status: Some("stopped".to_string())
        }])
    );
}

#[test]
fn stopped_status_is_taken_as_listed() {
    let listing = vec![
        ContainerRecord {
            id: None,
            names: Some(vec!["/a".to_string()]),
            state: Some("exited".to_string()),
        },
        ContainerRecord { id: Some("0123".to_string()), names: None, state: None },
        ContainerRecord {
            id: None,
            names: Some(vec!["/c".to_string()]),
            state: Some("".to_string()),
        },
    ];
    assert_eq!(
        check_not_running_containers(&listing),
        Ok(vec![
            StoppedContainerStatus { name: "a".to_string(), status: Some("exited".to_string()) },
            StoppedContainerStatus { name: "0123".to_string(), status: None },
            StoppedContainerStatus { name: "c".to_string(), status: Some("".to_string()) },
        ])
    );
}

#[test]
fn name_loses_exactly_one_separator() {
    assert_eq!(get_container_name(&named("/web")), Ok("web".to_string()));
    assert_eq!(get_container_name(&named("//web")), Ok("/web".to_string()));
    assert_eq!(get_container_name(&named("/a/b")), Ok("a/b".to_string()));
}

#[test]
fn name_without_separator_is_unchanged() {
    assert_eq!(get_container_name(&named("web")), Ok("web".to_string()));
    assert_eq!(get_container_name(&named("web/")), Ok("web/".to_string()));
    assert_eq!(get_container_name(&named("wéb")), Ok("wéb".to_string()));
}

#[test]
fn first_name_is_used() {
    let record = ContainerRecord {
        id: Some("0123".to_string()),
        names: Some(vec!["/first".to_string(), "/second".to_string()]),
        state: None,
    };
    assert_eq!(get_container_name(&record), Ok("first".to_string()));
}

#[test]
fn container_without_name_goes_by_id() {
    let no_list = ContainerRecord { id: Some("0123".to_string()), names: None, state: None };
    assert_eq!(get_container_name(&no_list), Ok("0123".to_string()));
    let empty_list =
        ContainerRecord { id: Some("/0123".to_string()), names: Some(vec![]), state: None };
    assert_eq!(get_container_name(&empty_list), Ok("/0123".to_string()));
}

#[test]
fn empty_names_are_passed_over() {
    let record = ContainerRecord {
        id: Some("0123".to_string()),
        names: Some(vec!["".to_string(), "/".to_string(), "/third".to_string()]),
        state: None,
    };
    assert_eq!(get_container_name(&record), Ok("third".to_string()));
    let only_empty = ContainerRecord {
        id: Some("0123".to_string()),
        names: Some(vec!["/".to_string()]),
        state: None,
    };
    assert_eq!(get_container_name(&only_empty), Ok("0123".to_string()));
}

#[test]
fn container_without_name_or_id_is_an_error() {
    let nothing = ContainerRecord { id: None, names: None, state: Some("exited".to_string()) };
    assert_eq!(get_container_name(&nothing), Err(NotifyError::DataIntegrity));
    let empty = ContainerRecord { id: Some("".to_string()), names: Some(vec![]), state: None };
    assert_eq!(get_container_name(&empty), Err(NotifyError::DataIntegrity));
    let listing = vec![named("/a"), nothing];
    assert_eq!(container_names(&listing), Err(NotifyError::DataIntegrity));
    assert_eq!(check_running_containers(&listing, &vec![]), Err(NotifyError::DataIntegrity));
    assert_eq!(check_not_running_containers(&listing), Err(NotifyError::DataIntegrity));
}

#[test]
fn failed_inspection_gives_no_health_and_no_error() {
    let listing = vec![named("/a"), named("/b"), named("/c"), named("/d")];
    let inspections = vec![
        Err(NotifyError::Engine { message: "no such container".to_string() }),
        with_health(None),
        with_health(Some(HealthStatus::STARTING)),
    ];
    assert_eq!(
        check_running_containers(&listing, &inspections),
        Ok(vec![
            RunningContainerStatus { name: "a".to_string(), health: None },
            RunningContainerStatus { name: "b".to_string(), health: None },
            RunningContainerStatus {
                name: "c".to_string(),
                health: Some(HealthStatus::STARTING)
            },
            RunningContainerStatus { name: "d".to_string(), health: None },
        ])
    );
}

#[test]
fn health_is_read_through_every_level() {
    assert_eq!(extract_health(&with_health(Some(HealthStatus::HEALTHY))), Some(HealthStatus::HEALTHY));
    assert_eq!(extract_health(&with_health(Some(HealthStatus::NONE))), Some(HealthStatus::NONE));
    assert_eq!(extract_health(&with_health(None)), None);
    assert_eq!(extract_health(&Ok(ContainerDetail { state: None })), None);
    assert_eq!(extract_health(&Err(NotifyError::Engine { message: String::new() })), None);
}

#[test]
fn health_words() {
    assert_eq!(HealthStatus::NONE.as_str(), "none");
    assert_eq!(HealthStatus::STARTING.as_str(), "starting");
    assert_eq!(HealthStatus::HEALTHY.as_str(), "healthy");
    assert_eq!(HealthStatus::UNHEALTHY.as_str(), "unhealthy");
}

#[test]
fn statuses_can_be_copied() {
    let running =
        RunningContainerStatus { name: "a".to_string(), health: Some(HealthStatus::HEALTHY) };
    assert_eq!(running.clone(), running);
    let stopped =
        StoppedContainerStatus { name: "b".to_string(), status: Some("dead".to_string()) };
    assert_eq!(stopped.clone(), stopped);
}

#[test]
fn three_running_matches_with_unequal_details() {
    let filter = running_filter(true);
    assert!(filter.health.contains(&HealthStatus::NONE));
    let listing = vec![named("c1"), named("c2"), named("c3")];
    let inspections = vec![
        with_health(Some(HealthStatus::UNHEALTHY)),
        Ok(ContainerDetail { state: Some(ContainerState { health: None }) }),
        Ok(ContainerDetail { state: None }),
    ];
    assert_eq!(
        check_running_containers(&listing, &inspections),
        Ok(vec![
            RunningContainerStatus {
                name: "c1".to_string(),
                health: Some(HealthStatus::UNHEALTHY)
            },
            RunningContainerStatus { name: "c2".to_string(), health: None },
            RunningContainerStatus { name: "c3".to_string(), health: None },
        ])
    );
}
