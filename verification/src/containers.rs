//! What the engine reports of its containers, and how that is classified
//! into running containers that are not healthy and containers that ought to
//! run but do not.

use vstd::prelude::*;
use vstd::string::*;

use crate::error::NotifyError;

verus! {

/// The outcome of a container's health probe, as the engine names it.
#[allow(non_camel_case_types)]
#[derive(Clone, Copy, Debug, PartialEq, Eq, Structural)]
pub enum HealthStatus {
    /// The container has no health check.
    NONE,
    /// The health check has not reported yet.
    STARTING,
    HEALTHY,
    UNHEALTHY,
}

impl HealthStatus {
    /// The word by which the engine and the notifications write the status.
    pub open spec fn text(self) -> Seq<char> {
        match self {
            HealthStatus::NONE => "none"@,
            HealthStatus::STARTING => "starting"@,
            HealthStatus::HEALTHY => "healthy"@,
            HealthStatus::UNHEALTHY => "unhealthy"@,
        }
    }

    pub fn as_str(&self) -> (word: &'static str)
        ensures
            word@ == self.text(),
    {
        match self {
            HealthStatus::NONE => "none",
            HealthStatus::STARTING => "starting",
            HealthStatus::HEALTHY => "healthy",
            HealthStatus::UNHEALTHY => "unhealthy",
        }
    }
}

/// The health part of an inspected container's state.
#[derive(Clone, Copy, Debug, PartialEq, Eq, Structural)]
pub struct Health {
    pub status: Option<HealthStatus>,
}

/// The lifecycle state of an inspected container.
#[derive(Clone, Copy, Debug, PartialEq, Eq, Structural)]
pub struct ContainerState {
    pub health: Option<Health>,
}

/// What inspecting one container yields. Every level may be missing.
#[derive(Clone, Copy, Debug, PartialEq, Eq, Structural)]
pub struct ContainerDetail {
    pub state: Option<ContainerState>,
}

/// One entry of a container listing.
#[derive(Debug, PartialEq, Eq)]
pub struct ContainerRecord {
    pub id: Option<String>,
    pub names: Option<Vec<String>>,
    /// The coarse lifecycle status, such as `exited`.
    pub state: Option<String>,
}

/// An entry of a listing as a mathematical value.
pub struct ContainerRecordView {
    pub id: Option<Seq<char>>,
    pub names: Option<Seq<Seq<char>>>,
    pub state: Option<Seq<char>>,
}

impl DeepView for ContainerRecord {
    type V = ContainerRecordView;

    open spec fn deep_view(&self) -> ContainerRecordView {
        ContainerRecordView {
            id: self.id.deep_view(),
            names: self.names.deep_view(),
            state: self.state.deep_view(),
        }
    }
}

impl View for ContainerRecord {
    type V = ContainerRecordView;

    open spec fn view(&self) -> ContainerRecordView {
        self.deep_view()
    }
}

/// A running container and the health that inspecting it showed, absent
/// when none could be read.
#[derive(Debug, PartialEq, Eq)]
pub struct RunningContainerStatus {
    pub name: String,
    pub health: Option<HealthStatus>,
}

/// A running container's status as a mathematical value.
pub struct RunningContainerView {
    pub name: Seq<char>,
    pub health: Option<HealthStatus>,
}

impl DeepView for RunningContainerStatus {
    type V = RunningContainerView;

    open spec fn deep_view(&self) -> RunningContainerView {
        RunningContainerView { name: self.name@, health: self.health }
    }
}

impl View for RunningContainerStatus {
    type V = RunningContainerView;

    open spec fn view(&self) -> RunningContainerView {
        self.deep_view()
    }
}

impl RunningContainerStatus {
    /// A status names its container: the name is never empty.
    pub open spec fn well_formed(&self) -> bool {
        self.name@.len() > 0
    }
}

impl Clone for RunningContainerStatus {
    fn clone(&self) -> (copy: Self)
        ensures
            copy@ == self@,
    {
        RunningContainerStatus { name: self.name.clone(), health: self.health }
    }
}

/// A container that carries the watched label and does not run, with the
/// lifecycle status that the listing gave.
#[derive(Debug, PartialEq, Eq)]
pub struct StoppedContainerStatus {
    pub name: String,
    pub status: Option<String>,
}

/// A stopped container's status as a mathematical value.
pub struct StoppedContainerView {
    pub name: Seq<char>,
    pub status: Option<Seq<char>>,
}

impl DeepView for StoppedContainerStatus {
    type V = StoppedContainerView;

    open spec fn deep_view(&self) -> StoppedContainerView {
        StoppedContainerView { name: self.name@, status: self.status.deep_view() }
    }
}

impl View for StoppedContainerStatus {
    type V = StoppedContainerView;

    open spec fn view(&self) -> StoppedContainerView {
        self.deep_view()
    }
}

impl StoppedContainerStatus {
    /// A status names its container: the name is never empty.
    pub open spec fn well_formed(&self) -> bool {
        self.name@.len() > 0
    }
}

impl Clone for StoppedContainerStatus {
    fn clone(&self) -> (copy: Self)
        ensures
            copy@ == self@,
    {
        StoppedContainerStatus { name: self.name.clone(), status: clone_text(&self.status) }
    }
}

pub(crate) fn clone_text(text: &Option<String>) -> (copy: Option<String>)
    ensures
        copy.deep_view() == text.deep_view(),
{
    match text {
        Some(t) => Some(t.clone()),
        None => None,
    }
}

/// A name as the notifications show it: without the one separator that the
/// engine may put in front.
pub open spec fn strip_separator(name: Seq<char>) -> Seq<char> {
    if name.len() > 0 && name[0] == '/' {
        name.skip(1)
    } else {
        name
    }
}

/// The first listed name that is not empty once its separator is stripped,
/// in that stripped form.
pub open spec fn first_name(names: Seq<Seq<char>>) -> Option<Seq<char>>
    decreases names.len(),
{
    if names.len() == 0 {
        None
    } else if strip_separator(names[0]).len() > 0 {
        Some(strip_separator(names[0]))
    } else {
        first_name(names.skip(1))
    }
}

/// The name under which a listed container is reported: its first name, or
/// its id when it has no name. A name or an id that is empty counts as
/// missing, so the result is never empty.
pub open spec fn container_name(record: ContainerRecordView) -> Option<Seq<char>> {
    let listed = match record.names {
        Some(names) => first_name(names),
        None => None,
    };
    match (listed, record.id) {
        (Some(name), _) => Some(name),
        (None, Some(id)) => if id.len() > 0 {
            Some(id)
        } else {
            None
        },
        (None, None) => None,
    }
}

/// Whether every container of the listing can be named.
pub open spec fn all_named(records: Seq<ContainerRecordView>) -> bool {
    forall|i: int| 0 <= i < records.len() ==> (#[trigger] container_name(records[i])) is Some
}

/// The health that an inspection shows. A failed inspection and one from
/// which the state, the health or its status is missing all show none.
pub open spec fn inspected_health(inspection: Result<ContainerDetail, NotifyError>) -> Option<
    HealthStatus,
> {
    match inspection {
        Ok(ContainerDetail { state: Some(ContainerState { health: Some(health) }) }) => health.status,
        _ => None,
    }
}

/// The health recorded for the container at place `i` of a listing, given
/// the inspections in the listing's order. A missing inspection counts as a
/// failed one.
pub open spec fn health_at(inspections: Seq<Result<ContainerDetail, NotifyError>>, i: int) -> Option<
    HealthStatus,
> {
    if 0 <= i < inspections.len() {
        inspected_health(inspections[i])
    } else {
        None
    }
}

/// The names of a listing's containers in its order, or nothing when one
/// of them cannot be named.
pub open spec fn listed_names(records: Seq<ContainerRecordView>) -> Option<Seq<Seq<char>>> {
    if all_named(records) {
        Some(Seq::new(records.len(), |i: int| container_name(records[i]).unwrap()))
    } else {
        None
    }
}

/// What classifying the running containers of a listing gives: one status
/// for each listed container, in the listing's order, or nothing when a
/// container cannot be named.
pub open spec fn running_statuses(
    records: Seq<ContainerRecordView>,
    inspections: Seq<Result<ContainerDetail, NotifyError>>,
) -> Option<Seq<RunningContainerView>> {
    if all_named(records) {
        Some(
            Seq::new(
                records.len(),
                |i: int|
                    RunningContainerView {
                        name: container_name(records[i]).unwrap(),
                        health: health_at(inspections, i),
                    },
            ),
        )
    } else {
        None
    }
}

/// What classifying the stopped containers of a listing gives: one status
/// for each listed container, in the listing's order, with the lifecycle
/// status of the listing, or nothing when a container cannot be named.
pub open spec fn stopped_statuses(records: Seq<ContainerRecordView>) -> Option<
    Seq<StoppedContainerView>,
> {
    if all_named(records) {
        Some(
            Seq::new(
                records.len(),
                |i: int|
                    StoppedContainerView {
                        name: container_name(records[i]).unwrap(),
                        status: records[i].state,
                    },
            ),
        )
    } else {
        None
    }
}

fn strip_name(name: &str) -> (stripped: String)
    ensures
        stripped@ == strip_separator(name@),
{
    let length: usize = name.unicode_len();
    if length > 0 && name.get_char(0) == '/' {
        String::from_str(name.substring_char(1, length))
    } else {
        String::from_str(name)
    }
}

/// The name under which a listed container is reported, or
/// `NotifyError::DataIntegrity` when the listing gives it neither a name nor
/// an id.
pub fn get_container_name(container: &ContainerRecord) -> (name: Result<String, NotifyError>)
    ensures
        match container_name(container@) {
            Some(expected) => name matches Ok(n) && n@ == expected,
            None => name == Err::<String, NotifyError>(NotifyError::DataIntegrity),
        },
        name matches Ok(n) ==> n@.len() > 0,
{
    if let Some(names) = &container.names {
        let mut i: usize = 0;
        assert(names.deep_view().skip(0) =~= names.deep_view());
        while i < names.len()
            invariant
                i <= names.len(),
                container.names == Some(*names),
                first_name(names.deep_view()) == first_name(names.deep_view().skip(i as int)),
            decreases names.len() - i,
        {
            let stripped = strip_name(names[i].as_str());
            proof {
                let rest = names.deep_view().skip(i as int);
                assert(rest[0] == names[i as int]@);
                assert(rest.skip(1) =~= names.deep_view().skip(i + 1));
            }
            if stripped.unicode_len() > 0 {
                return Ok(stripped);
            }
            i += 1;
        }
    }
    match &container.id {
        Some(id) => {
            if id.as_str().unicode_len() > 0 {
                Ok(id.clone())
            } else {
                Err(NotifyError::DataIntegrity)
            }
        },
        None => Err(NotifyError::DataIntegrity),
    }
}

/// The names of the listed containers, in the listing's order: the
/// containers to inspect. Fails when one of them cannot be named.
pub fn container_names(containers: &Vec<ContainerRecord>) -> (names: Result<Vec<String>, NotifyError>)
    ensures
        match listed_names(containers.deep_view()) {
            Some(expected) => names matches Ok(list) && list.deep_view() == expected,
            None => names == Err::<Vec<String>, NotifyError>(NotifyError::DataIntegrity),
        },
{
    let mut list: Vec<String> = Vec::new();
    let mut i: usize = 0;
    while i < containers.len()
        invariant
            i <= containers.len(),
            list.len() == i,
            forall|j: int| 0 <= j < i ==> container_name(containers[j]@) == Some(#[trigger] list[j]@),
        decreases containers.len() - i,
    {
        match get_container_name(&containers[i]) {
            Ok(name) => list.push(name),
            Err(e) => {
                assert(container_name(containers.deep_view()[i as int]) is None);
                return Err(e);
            },
        }
        i += 1;
    }
    assert forall|j: int| 0 <= j < containers.len() implies (#[trigger] container_name(
        containers.deep_view()[j],
    )) is Some by {
        assert(container_name(containers[j]@) == Some(list[j]@));
    }
    let ghost expected = listed_names(containers.deep_view()).unwrap();
    assert forall|k: int| 0 <= k < list.len() implies list.deep_view()[k] == expected[k] by {
        assert(container_name(containers[k]@) == Some(list[k]@));
    }
    assert(list.deep_view() =~= expected);
    Ok(list)
}

/// The running containers of a listing with the health that their
/// inspections showed, in the listing's order. `inspections` holds, place
/// for place, what inspecting each listed container gave. No inspection can
/// make the classification fail: it fails only when a container cannot be
/// named.
pub fn check_running_containers(
    containers: &Vec<ContainerRecord>,
    inspections: &Vec<Result<ContainerDetail, NotifyError>>,
) -> (running: Result<Vec<RunningContainerStatus>, NotifyError>)
    ensures
        match running_statuses(containers.deep_view(), inspections@) {
            Some(expected) => running matches Ok(list) && list.deep_view() == expected,
            None => running == Err::<Vec<RunningContainerStatus>, NotifyError>(
                NotifyError::DataIntegrity,
            ),
        },
        running matches Ok(list) ==> forall|i: int|
            0 <= i < list.len() ==> (#[trigger] list[i]).well_formed(),
{
    let mut list: Vec<RunningContainerStatus> = Vec::new();
    let mut i: usize = 0;
    while i < containers.len()
        invariant
            i <= containers.len(),
            list.len() == i,
            forall|j: int|
                0 <= j < i ==> (#[trigger] list[j]@) == (RunningContainerView {
                    name: container_name(containers[j]@).unwrap(),
                    health: health_at(inspections@, j),
                }) && container_name(containers[j]@) is Some && list[j].name@.len() > 0,
        decreases containers.len() - i,
    {
        let name = match get_container_name(&containers[i]) {
            Ok(name) => name,
            Err(e) => {
                assert(container_name(containers.deep_view()[i as int]) is None);
                return Err(e);
            },
        };
        let health = if i < inspections.len() {
            extract_health(&inspections[i])
        } else {
            None
        };
        list.push(RunningContainerStatus { name, health });
        i += 1;
    }
    assert forall|j: int| 0 <= j < containers.len() implies (#[trigger] container_name(
        containers.deep_view()[j],
    )) is Some by {
        assert(list[j]@.name == container_name(containers[j]@).unwrap());
    }
    let ghost expected = running_statuses(containers.deep_view(), inspections@).unwrap();
    assert forall|k: int| 0 <= k < list.len() implies list.deep_view()[k] == expected[k] by {
        assert(list[k]@.name == container_name(containers[k]@).unwrap());
    }
    assert(list.deep_view() =~= expected);
    assert forall|k: int| 0 <= k < list.len() implies (#[trigger] list[k]).well_formed() by {
        assert(list[k]@.name.len() > 0);
    }
    Ok(list)
}

/// The health that one inspection shows, read leniently: whatever is
/// missing, and a failed inspection too, gives no health and no error.
pub fn extract_health(inspection: &Result<ContainerDetail, NotifyError>) -> (health: Option<
    HealthStatus,
>)
    ensures
        health == inspected_health(*inspection),
        inspection is Err ==> health is None,
        inspection matches Ok(detail) && detail.state is None ==> health is None,
        inspection matches Ok(detail) && detail.state matches Some(state) && state.health is None
            ==> health is None,
{
    match inspection {
        Ok(detail) => match detail.state {
            Some(state) => match state.health {
                Some(health) => health.status,
                None => None,
            },
            None => None,
        },
        Err(_) => None,
    }
}

/// The containers of a listing that do not run, each with the lifecycle
/// status that the listing itself gave, in the listing's order. Nothing is
/// inspected.
pub fn check_not_running_containers(containers: &Vec<ContainerRecord>) -> (stopped: Result<
    Vec<StoppedContainerStatus>,
    NotifyError,
>)
    ensures
        match stopped_statuses(containers.deep_view()) {
            Some(expected) => stopped matches Ok(list) && list.deep_view() == expected,
            None => stopped == Err::<Vec<StoppedContainerStatus>, NotifyError>(
                NotifyError::DataIntegrity,
            ),
        },
        stopped matches Ok(list) ==> forall|i: int|
            0 <= i < list.len() ==> (#[trigger] list[i]).well_formed(),
{
    let mut list: Vec<StoppedContainerStatus> = Vec::new();
    let mut i: usize = 0;
    while i < containers.len()
        invariant
            i <= containers.len(),
            list.len() == i,
            forall|j: int|
                0 <= j < i ==> (#[trigger] list[j]@) == (StoppedContainerView {
                    name: container_name(containers[j]@).unwrap(),
                    status: containers[j]@.state,
                }) && container_name(containers[j]@) is Some && list[j].name@.len() > 0,
        decreases containers.len() - i,
    {
        let name = match get_container_name(&containers[i]) {
            Ok(name) => name,
            Err(e) => {
                assert(container_name(containers.deep_view()[i as int]) is None);
                return Err(e);
            },
        };
        let status = clone_text(&containers[i].state);
        list.push(StoppedContainerStatus { name, status });
        i += 1;
    }
    assert forall|j: int| 0 <= j < containers.len() implies (#[trigger] container_name(
        containers.deep_view()[j],
    )) is Some by {
        assert(list[j]@.name == container_name(containers[j]@).unwrap());
    }
    let ghost expected = stopped_statuses(containers.deep_view()).unwrap();
    assert forall|k: int| 0 <= k < list.len() implies list.deep_view()[k] == expected[k] by {
        assert(list[k]@.name == container_name(containers[k]@).unwrap());
    }
    assert(list.deep_view() =~= expected);
    assert forall|k: int| 0 <= k < list.len() implies (#[trigger] list[k]).well_formed() by {
        assert(list[k]@.name.len() > 0);
    }
    Ok(list)
}

/// The conditions of one listing request. A container is listed when, for
/// each condition that names any value, it has one of the values named.
#[derive(Debug, PartialEq, Eq)]
pub struct ContainerFilter {
    /// Whether containers that do not run are listed too.
    pub all: bool,
    pub status: Vec<String>,
    pub health: Vec<HealthStatus>,
    pub label: Vec<String>,
}

/// The conditions of a listing request as a mathematical value.
pub struct ContainerFilterView {
    pub all: bool,
    pub status: Seq<Seq<char>>,
    pub health: Seq<HealthStatus>,
    pub label: Seq<Seq<char>>,
}

impl DeepView for ContainerFilter {
    type V = ContainerFilterView;

    open spec fn deep_view(&self) -> ContainerFilterView {
        ContainerFilterView {
            all: self.all,
            status: self.status.deep_view(),
            health: self.health@,
            label: self.label.deep_view(),
        }
    }
}

impl View for ContainerFilter {
    type V = ContainerFilterView;

    open spec fn view(&self) -> ContainerFilterView {
        self.deep_view()
    }
}

/// The listing of the running containers whose health is a cause for
/// concern: unhealthy or still starting, and without a health check too
/// when `report_no_health` asks for those.
pub open spec fn running_filter_view(report_no_health: bool) -> ContainerFilterView {
    ContainerFilterView {
        all: true,
        status: seq!["running"@],
        health: if report_no_health {
            seq![HealthStatus::UNHEALTHY, HealthStatus::STARTING, HealthStatus::NONE]
        } else {
            seq![HealthStatus::UNHEALTHY, HealthStatus::STARTING]
        },
        label: Seq::empty(),
    }
}

/// The listing of the containers that carry `label` and are in any
/// lifecycle status but running.
pub open spec fn stopped_filter_view(label: Seq<char>) -> ContainerFilterView {
    ContainerFilterView {
        all: true,
        status: seq!["created"@, "paused"@, "restarting"@, "removing"@, "exited"@, "dead"@],
        health: Seq::empty(),
        label: seq![label],
    }
}

pub fn running_filter(report_no_health: bool) -> (filter: ContainerFilter)
    ensures
        filter@ == running_filter_view(report_no_health),
{
    let mut status: Vec<String> = Vec::new();
    status.push(String::from_str("running"));
    let mut health: Vec<HealthStatus> = Vec::new();
    health.push(HealthStatus::UNHEALTHY);
    health.push(HealthStatus::STARTING);
    if report_no_health {
        health.push(HealthStatus::NONE);
    }
    let filter = ContainerFilter { all: true, status, health, label: Vec::new() };
    proof {
        let expected = running_filter_view(report_no_health);
        assert(filter@.status =~= expected.status);
        assert(filter@.health =~= expected.health);
        assert(filter@.label =~= expected.label);
    }
    filter
}

pub fn stopped_filter(label: &str) -> (filter: ContainerFilter)
    ensures
        filter@ == stopped_filter_view(label@),
{
    let mut status: Vec<String> = Vec::new();
    status.push(String::from_str("created"));
    status.push(String::from_str("paused"));
    status.push(String::from_str("restarting"));
    status.push(String::from_str("removing"));
    status.push(String::from_str("exited"));
    status.push(String::from_str("dead"));
    let mut labels: Vec<String> = Vec::new();
    labels.push(String::from_str(label));
    let filter = ContainerFilter { all: true, status, health: Vec::new(), label: labels };
    proof {
        let expected = stopped_filter_view(label@);
        assert(filter@.status =~= expected.status);
        assert(filter@.health =~= expected.health);
        assert(filter@.label =~= expected.label);
    }
    filter
}

/// An inspection that failed, or from which the state, the health or its
/// status is missing, records no health for its container, and leaves the
/// classification of the whole listing a success.
pub proof fn lemma_inspection_is_lenient(
    records: Seq<ContainerRecordView>,
    inspections: Seq<Result<ContainerDetail, NotifyError>>,
    i: int,
)
    requires
        all_named(records),
        0 <= i < records.len(),
        i < inspections.len() ==> {
            ||| inspections[i] is Err
            ||| inspections[i] matches Ok(detail) && detail.state is None
            ||| inspections[i] matches Ok(detail) && detail.state matches Some(state)
                && state.health is None
            ||| inspections[i] matches Ok(detail) && detail.state matches Some(state)
                && state.health matches Some(health) && health.status is None
        },
    ensures
        running_statuses(records, inspections) matches Some(list) && list.len() == records.len()
            && list[i].health is None,
{
}

/// Whether a listing can be classified does not depend on what the
/// inspections gave, and neither do the names.
pub proof fn lemma_inspections_decide_health_only(
    records: Seq<ContainerRecordView>,
    first: Seq<Result<ContainerDetail, NotifyError>>,
    second: Seq<Result<ContainerDetail, NotifyError>>,
)
    ensures
        running_statuses(records, first) is Some <==> running_statuses(records, second) is Some,
        running_statuses(records, first) matches Some(a) ==> running_statuses(
            records,
            second,
        ) matches Some(b) && a.len() == b.len() && forall|i: int|
            0 <= i < a.len() ==> (#[trigger] a[i]).name == b[i].name,
{
}

/// A stopped container is reported with exactly the lifecycle status of its
/// entry in the listing, at the same place.
pub proof fn lemma_stopped_status_is_listed(records: Seq<ContainerRecordView>, i: int)
    requires
        all_named(records),
        0 <= i < records.len(),
    ensures
        stopped_statuses(records) matches Some(list) && list.len() == records.len()
            && list[i].status == records[i].state,
{
}

/// A first name that begins with the separator loses that one character
/// and no more.
pub proof fn lemma_name_loses_one_separator(record: ContainerRecordView, rest: Seq<char>)
    requires
        record.names matches Some(names) && names.len() > 0 && names[0] == seq!['/'] + rest,
        rest.len() > 0,
    ensures
        container_name(record) == Some(rest),
{
    let names = record.names.unwrap();
    assert(names[0].skip(1) =~= rest);
}

/// A first name that does not begin with the separator is kept as it is.
pub proof fn lemma_name_without_separator_is_kept(record: ContainerRecordView)
    requires
        record.names matches Some(names) && names.len() > 0 && names[0].len() > 0 && names[0][0]
            != '/',
    ensures
        container_name(record) == Some(record.names.unwrap()[0]),
{
}

/// A container without any name goes by its id.
pub proof fn lemma_nameless_container_goes_by_id(record: ContainerRecordView)
    requires
        record.names is None || record.names == Some(Seq::<Seq<char>>::empty()),
        record.id matches Some(id) && id.len() > 0,
    ensures
        container_name(record) == record.id,
{
}

/// No container is ever reported under an empty name.
pub proof fn lemma_names_are_not_empty(record: ContainerRecordView)
    ensures
        container_name(record) matches Some(name) ==> name.len() > 0,
{
    if let Some(names) = record.names {
        lemma_first_name_is_not_empty(names);
    }
}

proof fn lemma_first_name_is_not_empty(names: Seq<Seq<char>>)
    ensures
        first_name(names) matches Some(name) ==> name.len() > 0,
    decreases names.len(),
{
    if names.len() > 0 && strip_separator(names[0]).len() == 0 {
        lemma_first_name_is_not_empty(names.skip(1));
    }
}

} // verus!
