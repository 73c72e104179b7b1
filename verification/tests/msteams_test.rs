use mhteams::{Fact, Message, Section};
use notifyhealth::containers::{HealthStatus, RunningContainerStatus, StoppedContainerStatus};
use notifyhealth::error::NotifyError;
use notifyhealth::json::encoded;
use notifyhealth::msteams::{build_card, format_message};

fn running(name: &str, health: Option<HealthStatus>) -> RunningContainerStatus {
    RunningContainerStatus { name: name.to_string(), health }
}

fn stopped(name: &str, status: Option<&str>) -> StoppedContainerStatus {
    StoppedContainerStatus { name: name.to_string(), status: status.map(|s| s.to_string()) }
}

#[test]
fn check_message() {
    let running_containers = vec![
        RunningContainerStatus { name: "test1".to_string(), health: None },
        RunningContainerStatus {
            name: "test2".to_string(),
            health: Some(HealthStatus::UNHEALTHY),
        },
    ];
    let stopped_containers = vec![
        StoppedContainerStatus { name: "test3".to_string(), status: Some("exited".to_string()) },
        StoppedContainerStatus { name: "test4".to_string(), status: None },
    ];
    let formatted_message_bytes =
        format_message(&running_containers, &stopped_containers, Some("myhostname".to_owned()))
            .unwrap();

    let msg = Message::new()
        .title("Problem in containers! 🤕")
        .summary("Problems in containers")
        .text("Server: myhostname.")
        .sections(vec![
            Section::new()
                .text("The following running containers have no health status:")
                .facts(vec![Fact::new("test1", "no health status")]),
            Section::new()
                .text("The following running containers are not healthy:")
                .facts(vec![Fact::new("test2", "unhealthy")]),
            Section::new()
                .text("The following containers are not running:")
                .facts(vec![Fact::new("test3", "exited"), Fact::new("test4", "no status")]),
        ]);
    let expected_message_bytes = serde_json::to_vec::<Message>(&msg).unwrap();
    let expected_message = std::str::from_utf8(&expected_message_bytes).unwrap();
    let formatted_message = std::str::from_utf8(&formatted_message_bytes).unwrap();
    assert_eq!(formatted_message, expected_message);
}

#[test]
fn card_as_json_text() {
    let bytes = format_message(
        &[running("a\"b", Some(HealthStatus::UNHEALTHY))],
        &[],
        Some("h".to_string()),
    )
    .unwrap();
    assert_eq!(
        String::from_utf8(bytes).unwrap(),
        "{\"@type\":\"MessageCard\",\"@context\":\"https://schema.org/extensions\",\
\"summary\":\"Problems in containers\",\"title\":\"Problem in containers! 🤕\",\
\"text\":\"Server: h.\",\"sections\":[{\"text\":\"The following running containers are \
not healthy:\",\"facts\":[{\"name\":\"a\\\"b\",\"value\":\"unhealthy\"}]}]}"
    );
}

#[test]
fn neighbours_of_one_health_share_a_section() {
    let card = build_card(
        &[
            running("a", Some(HealthStatus::UNHEALTHY)),
            running("b", Some(HealthStatus::UNHEALTHY)),
            running("c", None),
        ],
        &[],
        &None,
    );
    assert_eq!(card.sections.len(), 2);
    assert_eq!(card.sections[0].heading, "The following running containers are not healthy:");
    assert_eq!(card.sections[0].facts.len(), 2);
    assert_eq!(card.sections[0].facts[0].name, "a");
    assert_eq!(card.sections[0].facts[0].value, "unhealthy");
    assert_eq!(card.sections[0].facts[1].name, "b");
    assert_eq!(card.sections[0].facts[1].value, "unhealthy");
    assert_eq!(
        card.sections[1].heading,
        "The following running containers have no health status:"
    );
    assert_eq!(card.sections[1].facts.len(), 1);
    assert_eq!(card.sections[1].facts[0].name, "c");
    assert_eq!(card.sections[1].facts[0].value, "no health status");
}

#[test]
fn equal_health_apart_is_not_merged() {
    let card = build_card(
        &[
            running("a", Some(HealthStatus::UNHEALTHY)),
            running("b", None),
            running("c", Some(HealthStatus::UNHEALTHY)),
        ],
        &[],
        &None,
    );
    assert_eq!(card.sections.len(), 3);
    let names: Vec<&str> = card.sections.iter().map(|s| s.facts[0].name.as_str()).collect();
    assert_eq!(names, vec!["a", "b", "c"]);
    assert_eq!(card.sections[0].heading, card.sections[2].heading);
}

#[test]
fn each_health_has_its_heading() {
    let card = build_card(
        &[
            running("a", Some(HealthStatus::STARTING)),
            running("b", Some(HealthStatus::HEALTHY)),
            running("c", Some(HealthStatus::NONE)),
            running("d", Some(HealthStatus::UNHEALTHY)),
            running("e", None),
        ],
        &[],
        &None,
    );
    let headings: Vec<&str> = card.sections.iter().map(|s| s.heading.as_str()).collect();
    assert_eq!(
        headings,
        vec![
            "The following running containers have the health status starting:",
            "The following running containers have the health status healthy:",
            "The following running containers have the health status none:",
            "The following running containers are not healthy:",
            "The following running containers have no health status:",
        ]
    );
    let values: Vec<&str> = card.sections.iter().map(|s| s.facts[0].value.as_str()).collect();
    assert_eq!(values, vec!["starting", "healthy", "none", "unhealthy", "no health status"]);
}

#[test]
fn card_with_a_hostname_and_every_section() {
    let card = build_card(
        &[running("t1", None), running("t2", Some(HealthStatus::UNHEALTHY))],
        &[stopped("t3", Some("exited")), stopped("t4", None)],
        &Some("myhostname".to_string()),
    );
    assert_eq!(card.title, "Problem in containers! 🤕");
    assert_eq!(card.summary, "Problems in containers");
    assert_eq!(card.text, "Server: myhostname.");
    assert_eq!(card.sections.len(), 3);
    assert_eq!(
        card.sections[0].heading,
        "The following running containers have no health status:"
    );
    assert_eq!(card.sections[1].heading, "The following running containers are not healthy:");
    assert_eq!(card.sections[2].heading, "The following containers are not running:");
    assert_eq!(card.sections[2].facts.len(), 2);
    assert_eq!(card.sections[2].facts[0].name, "t3");
    assert_eq!(card.sections[2].facts[0].value, "exited");
    assert_eq!(card.sections[2].facts[1].name, "t4");
    assert_eq!(card.sections[2].facts[1].value, "no status");
}

#[test]
fn card_without_hostname_or_findings() {
    let card = build_card(&[], &[], &None);
    assert_eq!(card.text, "");
    assert!(card.sections.is_empty());
    let only_stopped = build_card(&[], &[stopped("s", Some("dead"))], &None);
    assert_eq!(only_stopped.sections.len(), 1);
    assert_eq!(only_stopped.sections[0].heading, "The following containers are not running:");
}

#[test]
fn encoder_error_becomes_a_format_error() {
    let failure = serde_json::from_str::<u8>("x").unwrap_err();
    let text = failure.to_string();
    assert_eq!(encoded::<Vec<u8>>(Err(failure)), Err(NotifyError::Format { message: text }));
    assert_eq!(encoded::<Vec<u8>>(Ok(vec![1, 2, 3])), Ok(vec![1, 2, 3]));
}
