use notifyhealth::containers::{HealthStatus, RunningContainerStatus, StoppedContainerStatus};
use notifyhealth::print::{running_containers, stopped_containers};

fn running(name: &str, health: Option<HealthStatus>) -> RunningContainerStatus {
    RunningContainerStatus { name: name.to_string(), health }
}

#[test]
fn console_says_when_nothing_runs_unhealthy() {
    assert_eq!(running_containers(&[]), vec!["No running containers.".to_string()]);
}

#[test]
fn console_says_when_nothing_is_stopped() {
    assert_eq!(
        stopped_containers(&[]),
        vec!["No container that was supposed to be running is stopped.".to_string()]
    );
}

#[test]
fn console_groups_running_containers_by_neighbouring_health() {
    let lines = running_containers(&[
        running("a", Some(HealthStatus::UNHEALTHY)),
        running("b", Some(HealthStatus::UNHEALTHY)),
        running("c", None),
        running("d", Some(HealthStatus::STARTING)),
        running("e", Some(HealthStatus::UNHEALTHY)),
        running("f", Some(HealthStatus::NONE)),
        running("g", Some(HealthStatus::HEALTHY)),
    ]);
    assert_eq!(
        lines,
        vec![
            "Running, unhealthy containers:",
            "a",
            "b",
            "Running containers without health status:",
            "c",
            "Running containers (starting):",
            "d",
            "Running, unhealthy containers:",
            "e",
            "Running containers (none):",
            "f",
            "Running containers (healthy):",
            "g",
        ]
    );
}

#[test]
fn console_lists_stopped_containers() {
    let lines = stopped_containers(&[
        StoppedContainerStatus { name: "x".to_string(), status: Some("exited".to_string()) },
        StoppedContainerStatus { name: "y".to_string(), status: None },
    ]);
    assert_eq!(lines, vec!["The following containers are stopped:", "x", "y"]);
}
