//! Delivery over a webhook: which request reports the findings, and what
//! the answer to it means.

use vstd::prelude::*;
use vstd::string::*;
use vstd::utf8::encode_utf8;

use crate::containers::{
    HealthStatus, RunningContainerStatus, RunningContainerView, StoppedContainerStatus,
    StoppedContainerView,
};
use crate::error::NotifyError;
use crate::json::{
    document_text, field_value, fields_view, find_field, items_view, lemma_list_view,
    lemma_object_view, Json, JsonView,
};
use crate::msteams::{card_json, card_of, format_message};

verus! {

/// The findings as the plain webhook receives them.
#[derive(Debug, PartialEq, Eq)]
pub struct WebHookNotifyBody {
    pub running_containers: Vec<RunningContainerStatus>,
    pub stopped_containers: Vec<StoppedContainerStatus>,
    pub hostname: Option<String>,
}

/// The findings as a mathematical value.
pub struct WebHookNotifyBodyView {
    pub running_containers: Seq<RunningContainerView>,
    pub stopped_containers: Seq<StoppedContainerView>,
    pub hostname: Option<Seq<char>>,
}

impl DeepView for WebHookNotifyBody {
    type V = WebHookNotifyBodyView;

    open spec fn deep_view(&self) -> WebHookNotifyBodyView {
        WebHookNotifyBodyView {
            running_containers: self.running_containers.deep_view(),
            stopped_containers: self.stopped_containers.deep_view(),
            hostname: self.hostname.deep_view(),
        }
    }
}

impl View for WebHookNotifyBody {
    type V = WebHookNotifyBodyView;

    open spec fn view(&self) -> WebHookNotifyBodyView {
        self.deep_view()
    }
}

/// The health that a word of a document stands for.
pub open spec fn health_of_text(word: Seq<char>) -> Option<HealthStatus> {
    if word == "none"@ {
        Some(HealthStatus::NONE)
    } else if word == "starting"@ {
        Some(HealthStatus::STARTING)
    } else if word == "healthy"@ {
        Some(HealthStatus::HEALTHY)
    } else if word == "unhealthy"@ {
        Some(HealthStatus::UNHEALTHY)
    } else {
        None
    }
}

/// The JSON object of one running container. The key `health` is left out
/// when no health is known; it is never written with a null.
pub open spec fn running_document(container: RunningContainerView) -> JsonView {
    JsonView::Object(
        seq![("name"@, JsonView::Text(container.name))] + match container.health {
            Some(status) => seq![("health"@, JsonView::Text(status.text()))],
            None => Seq::empty(),
        },
    )
}

/// The JSON object of one stopped container. The key `status` is left out
/// when the listing gave none.
pub open spec fn stopped_document(container: StoppedContainerView) -> JsonView {
    JsonView::Object(
        seq![("name"@, JsonView::Text(container.name))] + match container.status {
            Some(status) => seq![("status"@, JsonView::Text(status))],
            None => Seq::empty(),
        },
    )
}

/// The JSON object of the findings: the running containers, the stopped
/// containers, and the host's name if it is known.
pub open spec fn body_document(body: WebHookNotifyBodyView) -> JsonView {
    JsonView::Object(
        seq![
            (
                "running_containers"@,
                JsonView::List(
                    body.running_containers.map_values(
                        |c: RunningContainerView| running_document(c),
                    ),
                ),
            ),
            (
                "stopped_containers"@,
                JsonView::List(
                    body.stopped_containers.map_values(
                        |c: StoppedContainerView| stopped_document(c),
                    ),
                ),
            ),
        ] + match body.hostname {
            Some(name) => seq![("hostname"@, JsonView::Text(name))],
            None => Seq::empty(),
        },
    )
}

/// The JSON text of the findings.
pub open spec fn body_json(body: WebHookNotifyBodyView) -> Seq<char> {
    document_text(body_document(body))
}

/// A text that may be missing: a key that is absent and a key with a null
/// both stand for no text. Anything but a text or a null is refused.
pub open spec fn optional_text(value: Option<JsonView>) -> Option<Option<Seq<char>>> {
    match value {
        None => Some(None),
        Some(JsonView::Null) => Some(None),
        Some(JsonView::Text(text)) => Some(Some(text)),
        Some(_) => None,
    }
}

/// The running container that a document stands for, if it stands for one:
/// an object with a text under `name`, and under `health` nothing or one of
/// the four health words.
pub open spec fn running_of(document: JsonView) -> Option<RunningContainerView> {
    match document {
        JsonView::Object(fields) => match (
            field_value(fields, "name"@),
            optional_text(field_value(fields, "health"@)),
        ) {
            (Some(JsonView::Text(name)), Some(None)) => Some(
                RunningContainerView { name, health: None },
            ),
            (Some(JsonView::Text(name)), Some(Some(word))) => match health_of_text(word) {
                Some(status) => Some(RunningContainerView { name, health: Some(status) }),
                None => None,
            },
            _ => None,
        },
        _ => None,
    }
}

/// The stopped container that a document stands for, if it stands for one:
/// an object with a text under `name`, and under `status` nothing or a
/// text.
pub open spec fn stopped_of(document: JsonView) -> Option<StoppedContainerView> {
    match document {
        JsonView::Object(fields) => match (
            field_value(fields, "name"@),
            optional_text(field_value(fields, "status"@)),
        ) {
            (Some(JsonView::Text(name)), Some(status)) => Some(
                StoppedContainerView { name, status },
            ),
            _ => None,
        },
        _ => None,
    }
}

/// The running containers that a list of documents stands for, if every
/// one of them stands for one.
pub open spec fn all_running_of(items: Seq<JsonView>) -> Option<Seq<RunningContainerView>> {
    if forall|i: int| 0 <= i < items.len() ==> (#[trigger] running_of(items[i])) is Some {
        Some(Seq::new(items.len(), |i: int| running_of(items[i]).unwrap()))
    } else {
        None
    }
}

/// The stopped containers that a list of documents stands for, if every
/// one of them stands for one.
pub open spec fn all_stopped_of(items: Seq<JsonView>) -> Option<Seq<StoppedContainerView>> {
    if forall|i: int| 0 <= i < items.len() ==> (#[trigger] stopped_of(items[i])) is Some {
        Some(Seq::new(items.len(), |i: int| stopped_of(items[i]).unwrap()))
    } else {
        None
    }
}

/// The findings that a document stands for, if it stands for any: an
/// object with a list of running containers under `running_containers`, a
/// list of stopped containers under `stopped_containers`, and under
/// `hostname` nothing or a text. Other keys are passed over.
pub open spec fn body_of(document: JsonView) -> Option<WebHookNotifyBodyView> {
    match document {
        JsonView::Object(fields) => match (
            field_value(fields, "running_containers"@),
            field_value(fields, "stopped_containers"@),
            optional_text(field_value(fields, "hostname"@)),
        ) {
            (Some(JsonView::List(running)), Some(JsonView::List(stopped)), Some(hostname)) => match (
                all_running_of(running),
                all_stopped_of(stopped),
            ) {
                (Some(running_containers), Some(stopped_containers)) => Some(
                    WebHookNotifyBodyView { running_containers, stopped_containers, hostname },
                ),
                _ => None,
            },
            _ => None,
        },
        _ => None,
    }
}

fn text_field(key: &str, text: &str) -> (field: (String, Json))
    ensures
        field.0@ == key@,
        field.1.deep_view() == JsonView::Text(text@),
{
    (String::from_str(key), Json::Text(String::from_str(text)))
}

fn running_to_document(container: &RunningContainerStatus) -> (document: Json)
    ensures
        document.deep_view() == running_document(container@),
{
    let mut fields: Vec<(String, Json)> = Vec::new();
    fields.push(text_field("name", container.name.as_str()));
    if let Some(status) = container.health {
        fields.push(text_field("health", status.as_str()));
    }
    proof {
        lemma_object_view(fields);
        assert(fields_view(fields@) =~= running_document(container@)->Object_0);
    }
    Json::Object(fields)
}

fn stopped_to_document(container: &StoppedContainerStatus) -> (document: Json)
    ensures
        document.deep_view() == stopped_document(container@),
{
    let mut fields: Vec<(String, Json)> = Vec::new();
    fields.push(text_field("name", container.name.as_str()));
    if let Some(status) = &container.status {
        fields.push(text_field("status", status.as_str()));
    }
    proof {
        lemma_object_view(fields);
        assert(fields_view(fields@) =~= stopped_document(container@)->Object_0);
    }
    Json::Object(fields)
}

/// The format error that says what is wrong with a document.
fn malformed(what: &str) -> (error: NotifyError)
    ensures
        error matches NotifyError::Format { message } && message@ == what@,
{
    NotifyError::Format { message: String::from_str(what) }
}

fn health_from_text(word: &String) -> (health: Option<HealthStatus>)
    ensures
        health == health_of_text(word@),
{
    if *word == String::from_str("none") {
        Some(HealthStatus::NONE)
    } else if *word == String::from_str("starting") {
        Some(HealthStatus::STARTING)
    } else if *word == String::from_str("healthy") {
        Some(HealthStatus::HEALTHY)
    } else if *word == String::from_str("unhealthy") {
        Some(HealthStatus::UNHEALTHY)
    } else {
        None
    }
}

fn optional_text_from(value: Option<&Json>) -> (text: Result<Option<String>, NotifyError>)
    ensures
        match optional_text(value.deep_view()) {
            Some(expected) => text matches Ok(t) && t.deep_view() == expected,
            None => text matches Err(e) && e is Format,
        },
{
    match value {
        None => Ok(None),
        Some(Json::Null) => Ok(None),
        Some(Json::Text(text)) => Ok(Some(text.clone())),
        Some(_) => Err(malformed("a text was expected")),
    }
}

fn running_from_document(document: &Json) -> (container: Result<RunningContainerStatus, NotifyError>)
    ensures
        match running_of(document.deep_view()) {
            Some(expected) => container matches Ok(c) && c@ == expected,
            None => container matches Err(e) && e is Format,
        },
{
    if let Json::Object(fields) = document {
        proof {
            lemma_object_view(*fields);
        }
        let name = match find_field(fields, "name") {
            Some(Json::Text(name)) => name.clone(),
            _ => {
                return Err(malformed("a running container has no name"));
            },
        };
        match optional_text_from(find_field(fields, "health"))? {
            None => Ok(RunningContainerStatus { name, health: None }),
            Some(word) => match health_from_text(&word) {
                Some(status) => Ok(RunningContainerStatus { name, health: Some(status) }),
                None => Err(malformed("a health is not one of the four health words")),
            },
        }
    } else {
        Err(malformed("a running container is not an object"))
    }
}

fn stopped_from_document(document: &Json) -> (container: Result<StoppedContainerStatus, NotifyError>)
    ensures
        match stopped_of(document.deep_view()) {
            Some(expected) => container matches Ok(c) && c@ == expected,
            None => container matches Err(e) && e is Format,
        },
{
    if let Json::Object(fields) = document {
        proof {
            lemma_object_view(*fields);
        }
        let name = match find_field(fields, "name") {
            Some(Json::Text(name)) => name.clone(),
            _ => {
                return Err(malformed("a stopped container has no name"));
            },
        };
        let status = optional_text_from(find_field(fields, "status"))?;
        Ok(StoppedContainerStatus { name, status })
    } else {
        Err(malformed("a stopped container is not an object"))
    }
}

fn all_running_from(items: &Vec<Json>) -> (containers: Result<
    Vec<RunningContainerStatus>,
    NotifyError,
>)
    ensures
        match all_running_of(items_view(items@)) {
            Some(expected) => containers matches Ok(list) && list.deep_view() == expected,
            None => containers matches Err(e) && e is Format,
        },
{
    let ghost views = items_view(items@);
    let mut list: Vec<RunningContainerStatus> = Vec::new();
    let mut i: usize = 0;
    while i < items.len()
        invariant
            i <= items.len(),
            views == items_view(items@),
            list.len() == i,
            forall|k: int| 0 <= k < i ==> running_of(views[k]) == Some(#[trigger] list[k]@),
        decreases items.len() - i,
    {
        assert(views[i as int] == items[i as int].deep_view());
        match running_from_document(&items[i]) {
            Ok(container) => list.push(container),
            Err(e) => {
                assert(running_of(views[i as int]) is None);
                return Err(e);
            },
        }
        i += 1;
    }
    proof {
        assert forall|k: int| 0 <= k < views.len() implies (#[trigger] running_of(
            views[k],
        )) is Some by {
            assert(running_of(views[k]) == Some(list[k]@));
        }
        let expected = all_running_of(views).unwrap();
        assert forall|k: int| 0 <= k < list.len() implies list.deep_view()[k] == expected[k] by {
            assert(running_of(views[k]) == Some(list[k]@));
        }
        assert(list.deep_view() =~= expected);
    }
    Ok(list)
}

fn all_stopped_from(items: &Vec<Json>) -> (containers: Result<
    Vec<StoppedContainerStatus>,
    NotifyError,
>)
    ensures
        match all_stopped_of(items_view(items@)) {
            Some(expected) => containers matches Ok(list) && list.deep_view() == expected,
            None => containers matches Err(e) && e is Format,
        },
{
    let ghost views = items_view(items@);
    let mut list: Vec<StoppedContainerStatus> = Vec::new();
    let mut i: usize = 0;
    while i < items.len()
        invariant
            i <= items.len(),
            views == items_view(items@),
            list.len() == i,
            forall|k: int| 0 <= k < i ==> stopped_of(views[k]) == Some(#[trigger] list[k]@),
        decreases items.len() - i,
    {
        assert(views[i as int] == items[i as int].deep_view());
        match stopped_from_document(&items[i]) {
            Ok(container) => list.push(container),
            Err(e) => {
                assert(stopped_of(views[i as int]) is None);
                return Err(e);
            },
        }
        i += 1;
    }
    proof {
        assert forall|k: int| 0 <= k < views.len() implies (#[trigger] stopped_of(
            views[k],
        )) is Some by {
            assert(stopped_of(views[k]) == Some(list[k]@));
        }
        let expected = all_stopped_of(views).unwrap();
        assert forall|k: int| 0 <= k < list.len() implies list.deep_view()[k] == expected[k] by {
            assert(stopped_of(views[k]) == Some(list[k]@));
        }
        assert(list.deep_view() =~= expected);
    }
    Ok(list)
}

impl WebHookNotifyBody {
    /// The findings as a JSON document.
    pub fn to_document(&self) -> (document: Json)
        ensures
            document.deep_view() == body_document(self@),
    {
        let mut running: Vec<Json> = Vec::new();
        let mut i: usize = 0;
        while i < self.running_containers.len()
            invariant
                i <= self.running_containers.len(),
                running.len() == i,
                forall|k: int|
                    0 <= k < i ==> (#[trigger] running[k]).deep_view() == running_document(
                        self.running_containers[k]@,
                    ),
            decreases self.running_containers.len() - i,
        {
            running.push(running_to_document(&self.running_containers[i]));
            i += 1;
        }
        let mut stopped: Vec<Json> = Vec::new();
        let mut j: usize = 0;
        while j < self.stopped_containers.len()
            invariant
                j <= self.stopped_containers.len(),
                stopped.len() == j,
                forall|k: int|
                    0 <= k < j ==> (#[trigger] stopped[k]).deep_view() == stopped_document(
                        self.stopped_containers[k]@,
                    ),
            decreases self.stopped_containers.len() - j,
        {
            stopped.push(stopped_to_document(&self.stopped_containers[j]));
            j += 1;
        }
        proof {
            lemma_list_view(running);
            lemma_list_view(stopped);
            assert(items_view(running@) =~= self@.running_containers.map_values(
                |c: RunningContainerView| running_document(c),
            ));
            assert(items_view(stopped@) =~= self@.stopped_containers.map_values(
                |c: StoppedContainerView| stopped_document(c),
            ));
        }
        let mut fields: Vec<(String, Json)> = Vec::new();
        fields.push((String::from_str("running_containers"), Json::List(running)));
        fields.push((String::from_str("stopped_containers"), Json::List(stopped)));
        if let Some(name) = &self.hostname {
            fields.push(text_field("hostname", name.as_str()));
        }
        proof {
            lemma_object_view(fields);
            assert(fields_view(fields@) =~= body_document(self@)->Object_0);
        }
        Json::Object(fields)
    }

    /// The findings as JSON bytes. It always succeeds.
    pub fn to_vec(&self) -> (bytes: Result<Vec<u8>, NotifyError>)
        ensures
            bytes matches Ok(b) && b@ == encode_utf8(body_json(self@)),
    {
        let document = self.to_document();
        let mut text = String::new();
        document.write(&mut text)?;
        assert(text@ =~= body_json(self@));
        Ok(text.as_str().as_bytes_vec())
    }

    /// The findings that a JSON document stands for, or a format error when
    /// it stands for none.
    pub fn from_document(document: &Json) -> (body: Result<WebHookNotifyBody, NotifyError>)
        ensures
            match body_of(document.deep_view()) {
                Some(expected) => body matches Ok(b) && b@ == expected,
                None => body matches Err(e) && e is Format,
            },
    {
        if let Json::Object(fields) = document {
            proof {
                lemma_object_view(*fields);
            }
            let running = match find_field(fields, "running_containers") {
                Some(Json::List(items)) => items,
                _ => {
                    return Err(malformed("the running containers are missing"));
                },
            };
            let stopped = match find_field(fields, "stopped_containers") {
                Some(Json::List(items)) => items,
                _ => {
                    return Err(malformed("the stopped containers are missing"));
                },
            };
            proof {
                lemma_list_view(*running);
                lemma_list_view(*stopped);
            }
            let hostname = optional_text_from(find_field(fields, "hostname"))?;
            let running_containers = all_running_from(running)?;
            let stopped_containers = all_stopped_from(stopped)?;
            Ok(WebHookNotifyBody { running_containers, stopped_containers, hostname })
        } else {
            Err(malformed("the findings are not an object"))
        }
    }
}

proof fn lemma_words_differ()
    ensures
        "name"@ != "health"@,
        "name"@ != "status"@,
        "running_containers"@ != "stopped_containers"@,
        "running_containers"@ != "hostname"@,
        "stopped_containers"@ != "hostname"@,
        forall|status: HealthStatus| health_of_text(status.text()) == Some(status),
{
    reveal_strlit("name");
    reveal_strlit("health");
    reveal_strlit("status");
    reveal_strlit("running_containers");
    reveal_strlit("stopped_containers");
    reveal_strlit("hostname");
    reveal_strlit("none");
    reveal_strlit("starting");
    reveal_strlit("healthy");
    reveal_strlit("unhealthy");
    assert("name"@.len() == 4 && "health"@.len() == 6 && "status"@.len() == 6);
    assert("running_containers"@[0] != "stopped_containers"@[0]);
    assert("hostname"@.len() == 8 && "running_containers"@.len() == 18
        && "stopped_containers"@.len() == 18);
    assert forall|status: HealthStatus| health_of_text(status.text()) == Some(status) by {
        assert("none"@.len() == 4 && "starting"@.len() == 8 && "healthy"@.len() == 7
            && "unhealthy"@.len() == 9);
    }
}

/// The document of a running container is read back as that container.
/// Its health, when none is known, has no key in the document: no key
/// stands there with a null.
pub proof fn lemma_running_round_trip(container: RunningContainerView)
    ensures
        running_of(running_document(container)) == Some(container),
        container.health is None ==> running_document(container) == JsonView::Object(
            seq![("name"@, JsonView::Text(container.name))],
        ),
{
    lemma_words_differ();
    let fields = running_document(container)->Object_0;
    assert(fields[0] == ("name"@, JsonView::Text(container.name)));
    assert(field_value(fields, "name"@) == Some(JsonView::Text(container.name)));
    let rest = fields.skip(1);
    assert(field_value(fields, "health"@) == field_value(rest, "health"@));
    match container.health {
        Some(status) => {
            assert(rest[0] == ("health"@, JsonView::Text(status.text())));
        },
        None => {
            assert(rest.len() == 0);
            assert(fields =~= seq![("name"@, JsonView::Text(container.name))]);
        },
    }
}

/// The document of a stopped container is read back as that container.
/// Its status, when the listing gave none, has no key in the document.
pub proof fn lemma_stopped_round_trip(container: StoppedContainerView)
    ensures
        stopped_of(stopped_document(container)) == Some(container),
        container.status is None ==> stopped_document(container) == JsonView::Object(
            seq![("name"@, JsonView::Text(container.name))],
        ),
{
    lemma_words_differ();
    let fields = stopped_document(container)->Object_0;
    assert(fields[0] == ("name"@, JsonView::Text(container.name)));
    assert(field_value(fields, "name"@) == Some(JsonView::Text(container.name)));
    let rest = fields.skip(1);
    assert(field_value(fields, "status"@) == field_value(rest, "status"@));
    match container.status {
        Some(status) => {
            assert(rest[0] == ("status"@, JsonView::Text(status)));
        },
        None => {
            assert(rest.len() == 0);
            assert(fields =~= seq![("name"@, JsonView::Text(container.name))]);
        },
    }
}

/// Writing findings as a document and reading the document back gives the
/// same findings: the same containers in the same order, each with what was
/// known of it, and what was not known is absent again.
pub proof fn lemma_body_round_trip(body: WebHookNotifyBodyView)
    ensures
        body_of(body_document(body)) == Some(body),
        body.hostname is None ==> field_value(body_document(body)->Object_0, "hostname"@) is None,
{
    lemma_words_differ();
    let fields = body_document(body)->Object_0;
    let running = body.running_containers.map_values(|c: RunningContainerView| running_document(c));
    let stopped = body.stopped_containers.map_values(|c: StoppedContainerView| stopped_document(c));
    assert(fields[0] == ("running_containers"@, JsonView::List(running)));
    assert(fields[1] == ("stopped_containers"@, JsonView::List(stopped)));
    let after_first = fields.skip(1);
    let after_second = after_first.skip(1);
    assert(after_first[0] == fields[1]);
    assert(field_value(fields, "running_containers"@) == Some(JsonView::List(running)));
    assert(field_value(fields, "stopped_containers"@) == field_value(
        after_first,
        "stopped_containers"@,
    ));
    assert(field_value(fields, "stopped_containers"@) == Some(JsonView::List(stopped)));
    assert(field_value(fields, "hostname"@) == field_value(after_first, "hostname"@));
    assert(field_value(after_first, "hostname"@) == field_value(after_second, "hostname"@));
    match body.hostname {
        Some(name) => {
            assert(after_second[0] == ("hostname"@, JsonView::Text(name)));
        },
        None => {
            assert(after_second.len() == 0);
        },
    }
    assert(optional_text(field_value(fields, "hostname"@)) == Some(body.hostname));
    assert forall|i: int| 0 <= i < running.len() implies (#[trigger] running_of(running[i]))
        == Some(body.running_containers[i]) by {
        lemma_running_round_trip(body.running_containers[i]);
    }
    assert forall|i: int| 0 <= i < stopped.len() implies (#[trigger] stopped_of(stopped[i]))
        == Some(body.stopped_containers[i]) by {
        lemma_stopped_round_trip(body.stopped_containers[i]);
    }
    assert(all_running_of(running).unwrap() =~= body.running_containers);
    assert(all_stopped_of(stopped).unwrap() =~= body.stopped_containers);
}

/// How the findings are written into the body of the request.
#[derive(Clone, Copy, Debug, PartialEq, Eq, Structural)]
pub enum MessageFormat {
    /// The findings as they are, for a program to read.
    Generic,
    /// A chat card, for people to read.
    ChatCard,
}

/// The one request that a notification makes.
#[derive(Debug, PartialEq, Eq)]
pub struct Request {
    pub method: String,
    pub url: String,
    pub content_type: String,
    pub body: Vec<u8>,
}

/// What became of a request.
#[derive(Debug, PartialEq, Eq)]
pub enum Reply {
    /// The webhook answered; the body was read to its end.
    Answered { status: u16, body: String },
    /// No answer came, or it could not be read.
    Failed { reason: String },
}

/// Whether a status code reports success: those from 200 to 299 do.
pub open spec fn is_success(status: u16) -> bool {
    200 <= status < 300
}

/// The body that reports the findings in the given format.
pub open spec fn message_bytes(
    format: MessageFormat,
    running: Seq<RunningContainerView>,
    stopped: Seq<StoppedContainerView>,
    hostname: Option<Seq<char>>,
) -> Seq<u8> {
    match format {
        MessageFormat::Generic => encode_utf8(
            body_json(
                WebHookNotifyBodyView {
                    running_containers: running,
                    stopped_containers: stopped,
                    hostname,
                },
            ),
        ),
        MessageFormat::ChatCard => card_json(card_of(running, stopped, hostname)),
    }
}

/// Whether `request` is what notifying of the findings comes to. With no
/// finding it is no request at all, and that is a success. With a finding
/// it is one POST of JSON to `url` with the findings in the given format as
/// its body.
pub open spec fn reports(
    format: MessageFormat,
    url: Seq<char>,
    running: Seq<RunningContainerView>,
    stopped: Seq<StoppedContainerView>,
    hostname: Option<Seq<char>>,
    request: Result<Option<Request>, NotifyError>,
) -> bool {
    if running.len() == 0 && stopped.len() == 0 {
        request == Ok::<Option<Request>, NotifyError>(None)
    } else {
        &&& request matches Ok(Some(r))
        &&& r.method@ == "POST"@
        &&& r.url@ == url
        &&& r.content_type@ == "application/json"@
        &&& r.body@ == message_bytes(format, running, stopped, hostname)
    }
}

/// A notifier for one kind of webhook.
pub struct Webhook {
    message_formatter: Option<MessageFormat>,
}

impl Default for Webhook {
    /// A notifier that writes the generic format.
    fn default() -> (webhook: Self)
        ensures
            webhook.format() == MessageFormat::Generic,
    {
        Webhook { message_formatter: None }
    }
}

impl Webhook {
    /// The format that this notifier writes: the one it was made with, the
    /// generic one when it was made with none.
    pub closed spec fn format(&self) -> MessageFormat {
        match self.message_formatter {
            Some(format) => format,
            None => MessageFormat::Generic,
        }
    }

    pub fn new(message_formatter: Option<MessageFormat>) -> (webhook: Self)
        ensures
            webhook.format() == match message_formatter {
                Some(format) => format,
                None => MessageFormat::Generic,
            },
    {
        Webhook { message_formatter }
    }

    /// The request that reports the findings to `url`, or none when there is
    /// nothing to report: with no finding, nothing is sent and the
    /// notification has succeeded. With a finding, exactly one request is
    /// made, a POST of JSON.
    pub fn notify(
        &self,
        url: &str,
        running_containers: Vec<RunningContainerStatus>,
        stopped_containers: Vec<StoppedContainerStatus>,
        hostname: Option<String>,
    ) -> (request: Result<Option<Request>, NotifyError>)
        ensures
            reports(
                self.format(),
                url@,
                running_containers.deep_view(),
                stopped_containers.deep_view(),
                hostname.deep_view(),
                request,
            ),
            running_containers.len() == 0 && stopped_containers.len() == 0 ==> request == Ok::<
                Option<Request>,
                NotifyError,
            >(None),
            running_containers.len() + stopped_containers.len() > 0 ==> request matches Ok(Some(_)),
    {
        if running_containers.len() == 0 && stopped_containers.len() == 0 {
            return Ok(None);
        }
        let body = match self.message_formatter {
            Some(MessageFormat::ChatCard) => format_message(
                running_containers.as_slice(),
                stopped_containers.as_slice(),
                hostname,
            )?,
            _ => {
                let findings = WebHookNotifyBody { running_containers, stopped_containers, hostname };
                findings.to_vec()?
            },
        };
        Ok(
            Some(
                Request {
                    method: String::from_str("POST"),
                    url: String::from_str(url),
                    content_type: String::from_str("application/json"),
                    body,
                },
            ),
        )
    }

    /// What the answer to the request means: success when the status is
    /// from 200 to 299, and a delivery error with the status and the body
    /// otherwise, or with the reason when there was no answer to read.
    pub fn conclude(reply: Reply) -> (outcome: Result<(), NotifyError>)
        ensures
            match reply {
                Reply::Answered { status, body } => if is_success(status) {
                    outcome is Ok
                } else {
                    outcome == Err::<(), NotifyError>(
                        NotifyError::Delivery { status: Some(status), body },
                    )
                },
                Reply::Failed { reason } => outcome == Err::<(), NotifyError>(
                    NotifyError::Delivery { status: None, body: reason },
                ),
            },
    {
        match reply {
            Reply::Answered { status, body } => {
                if 200 <= status && status < 300 {
                    Ok(())
                } else {
                    Err(NotifyError::Delivery { status: Some(status), body })
                }
            },
            Reply::Failed { reason } => Err(NotifyError::Delivery { status: None, body: reason }),
        }
    }
}

} // verus!
