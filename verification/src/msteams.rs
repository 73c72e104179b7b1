//! The chat card: the notification as an ordered list of sections, each a
//! heading over facts, and its JSON form.

use vstd::prelude::*;
use vstd::string::*;

use crate::containers::{
    HealthStatus, RunningContainerStatus, RunningContainerView, StoppedContainerStatus,
    StoppedContainerView,
};
use crate::error::NotifyError;
use crate::grouping::{health_runs, lemma_run_length_bounds, run_end, run_length};
use crate::json::encoded;

verus! {

/// One line of a section: what it is about, and what holds of it.
#[derive(Debug, PartialEq, Eq)]
pub struct Fact {
    pub name: String,
    pub value: String,
}

/// A fact as a mathematical value.
pub struct FactView {
    pub name: Seq<char>,
    pub value: Seq<char>,
}

impl DeepView for Fact {
    type V = FactView;

    open spec fn deep_view(&self) -> FactView {
        FactView { name: self.name@, value: self.value@ }
    }
}

impl View for Fact {
    type V = FactView;

    open spec fn view(&self) -> FactView {
        self.deep_view()
    }
}

/// A heading over the facts that belong under it.
#[derive(Debug, PartialEq, Eq)]
pub struct Section {
    pub heading: String,
    pub facts: Vec<Fact>,
}

/// A section as a mathematical value.
pub struct SectionView {
    pub heading: Seq<char>,
    pub facts: Seq<FactView>,
}

impl DeepView for Section {
    type V = SectionView;

    open spec fn deep_view(&self) -> SectionView {
        SectionView { heading: self.heading@, facts: self.facts.deep_view() }
    }
}

impl View for Section {
    type V = SectionView;

    open spec fn view(&self) -> SectionView {
        self.deep_view()
    }
}

/// A card as the chat service takes it.
#[derive(Debug, PartialEq, Eq)]
pub struct Card {
    pub title: String,
    pub summary: String,
    /// The lead line above the sections; empty when the card has none.
    pub text: String,
    pub sections: Vec<Section>,
}

/// A card as a mathematical value.
pub struct CardView {
    pub title: Seq<char>,
    pub summary: Seq<char>,
    pub text: Seq<char>,
    pub sections: Seq<SectionView>,
}

impl DeepView for Card {
    type V = CardView;

    open spec fn deep_view(&self) -> CardView {
        CardView {
            title: self.title@,
            summary: self.summary@,
            text: self.text@,
            sections: self.sections.deep_view(),
        }
    }
}

impl View for Card {
    type V = CardView;

    open spec fn view(&self) -> CardView {
        self.deep_view()
    }
}

/// What a card says of a running container's health.
pub open spec fn health_value(health: Option<HealthStatus>) -> Seq<char> {
    match health {
        Some(status) => status.text(),
        None => "no health status"@,
    }
}

/// The heading over a run of containers of one health. There is one
/// heading for unhealthy containers, one for each other health that the
/// engine reported, and one for containers of which no health is known.
pub open spec fn running_heading(health: Option<HealthStatus>) -> Seq<char> {
    match health {
        Some(HealthStatus::UNHEALTHY) => "The following running containers are not healthy:"@,
        Some(status) => "The following running containers have the health status "@
            + status.text() + ":"@,
        None => "The following running containers have no health status:"@,
    }
}

/// The fact that a card states of a running container.
pub open spec fn running_fact(container: RunningContainerView) -> FactView {
    FactView { name: container.name, value: health_value(container.health) }
}

/// The fact that a card states of a stopped container.
pub open spec fn stopped_fact(container: StoppedContainerView) -> FactView {
    FactView {
        name: container.name,
        value: match container.status {
            Some(status) => status,
            None => "no status"@,
        },
    }
}

/// The section for one run of running containers: the heading of the run's
/// health, and one fact for each container of the run, in order.
pub open spec fn run_section(run: Seq<RunningContainerView>) -> SectionView {
    SectionView {
        heading: running_heading(run[0].health),
        facts: run.map_values(|container: RunningContainerView| running_fact(container)),
    }
}

/// One section for each run of health among the running containers.
pub open spec fn running_sections(running: Seq<RunningContainerView>) -> Seq<SectionView> {
    health_runs(running).map_values(|run: Seq<RunningContainerView>| run_section(run))
}

/// The one section that lists every stopped container.
pub open spec fn stopped_section(stopped: Seq<StoppedContainerView>) -> SectionView {
    SectionView {
        heading: "The following containers are not running:"@,
        facts: stopped.map_values(|container: StoppedContainerView| stopped_fact(container)),
    }
}

/// The line that names the server; no line when the server is not known.
pub open spec fn lead_line(hostname: Option<Seq<char>>) -> Seq<char> {
    match hostname {
        Some(name) => "Server: "@ + name + "."@,
        None => Seq::empty(),
    }
}

/// The card that reports the given containers: the sections of the running
/// ones first, then, if any container is stopped, the section of the
/// stopped ones.
pub open spec fn card_of(
    running: Seq<RunningContainerView>,
    stopped: Seq<StoppedContainerView>,
    hostname: Option<Seq<char>>,
) -> CardView {
    CardView {
        title: "Problem in containers! 🤕"@,
        summary: "Problems in containers"@,
        text: lead_line(hostname),
        sections: running_sections(running) + if stopped.len() > 0 {
            seq![stopped_section(stopped)]
        } else {
            Seq::empty()
        },
    }
}

/// The sections of the running containers follow the runs of health, one
/// section for each run and in the same order, and their facts, laid end
/// to end, are the facts of the running containers in the order of the
/// list. So containers of one health share a section only where they are
/// neighbours, and no container is moved to join others of its health.
pub proof fn lemma_sections_follow_runs(running: Seq<RunningContainerView>)
    ensures
        running_sections(running).len() == health_runs(running).len(),
        forall|r: int|
            0 <= r < health_runs(running).len() ==> (#[trigger] running_sections(running)[r])
                == run_section(health_runs(running)[r]),
        running_sections(running).map_values(|section: SectionView| section.facts).flatten()
            == running.map_values(|container: RunningContainerView| running_fact(container)),
    decreases running.len(),
{
    let facts_of = |section: SectionView| section.facts;
    let fact_of = |container: RunningContainerView| running_fact(container);
    if running.len() > 0 {
        lemma_run_length_bounds(running);
        let n = run_length(running) as int;
        let first = running.take(n);
        let rest = running.skip(n);
        lemma_sections_follow_runs(rest);
        assert(health_runs(running) == seq![first] + health_runs(rest));
        assert(running_sections(running) =~= seq![run_section(first)] + running_sections(rest));
        let facts = running_sections(running).map_values(facts_of);
        assert(facts.first() == first.map_values(fact_of));
        assert(facts.drop_first() =~= running_sections(rest).map_values(facts_of));
        assert(first.map_values(fact_of) + rest.map_values(fact_of) =~= running.map_values(
            fact_of,
        ));
    } else {
        assert(running_sections(running).map_values(facts_of).flatten() =~= running.map_values(
            fact_of,
        ));
    }
}

fn heading_for(health: Option<HealthStatus>) -> (heading: String)
    ensures
        heading@ == running_heading(health),
{
    match health {
        Some(HealthStatus::UNHEALTHY) => String::from_str(
            "The following running containers are not healthy:",
        ),
        Some(status) => {
            let mut heading = String::from_str(
                "The following running containers have the health status ",
            );
            heading.append(status.as_str());
            heading.append(":");
            heading
        },
        None => String::from_str("The following running containers have no health status:"),
    }
}

fn value_for(health: Option<HealthStatus>) -> (value: String)
    ensures
        value@ == health_value(health),
{
    match health {
        Some(status) => String::from_str(status.as_str()),
        None => String::from_str("no health status"),
    }
}

fn section_for_run(running: &[RunningContainerStatus], start: usize, end: usize) -> (section:
    Section)
    requires
        start < end <= running.len(),
    ensures
        section@ == run_section(running.deep_view().subrange(start as int, end as int)),
{
    let ghost run = running.deep_view().subrange(start as int, end as int);
    let mut facts: Vec<Fact> = Vec::new();
    let mut i: usize = start;
    while i < end
        invariant
            start <= i <= end <= running.len(),
            run == running.deep_view().subrange(start as int, end as int),
            facts.len() == i - start,
            forall|k: int| 0 <= k < facts.len() ==> (#[trigger] facts[k]@) == running_fact(run[k]),
        decreases end - i,
    {
        let container = &running[i];
        assert(run[i - start] == container@);
        facts.push(Fact { name: container.name.clone(), value: value_for(container.health) });
        i += 1;
    }
    proof {
        assert(run[0] == running[start as int]@);
        assert forall|k: int| 0 <= k < facts.len() implies facts.deep_view()[k] == run_section(
            run,
        ).facts[k] by {
            assert(facts[k]@ == running_fact(run[k]));
        }
        assert(facts.deep_view() =~= run_section(run).facts);
    }
    Section { heading: heading_for(running[start].health), facts }
}

fn running_sections_for(running: &[RunningContainerStatus]) -> (sections: Vec<Section>)
    ensures
        sections.deep_view() == running_sections(running.deep_view()),
{
    let ghost all = running.deep_view();
    let mut sections: Vec<Section> = Vec::new();
    let mut start: usize = 0;
    proof {
        assert(all.skip(0) =~= all);
        assert(sections.deep_view() + running_sections(all) =~= running_sections(all));
    }
    while start < running.len()
        invariant
            start <= running.len(),
            all == running.deep_view(),
            running_sections(all) == sections.deep_view() + running_sections(
                all.skip(start as int),
            ),
        decreases running.len() - start,
    {
        let end = run_end(running, start);
        let section = section_for_run(running, start, end);
        proof {
            let rest = all.skip(start as int);
            let n = end - start;
            assert(rest.take(n) =~= all.subrange(start as int, end as int));
            assert(rest.skip(n) =~= all.skip(end as int));
            assert(health_runs(rest) == seq![rest.take(n)] + health_runs(rest.skip(n)));
            assert(running_sections(rest) =~= seq![run_section(rest.take(n))] + running_sections(
                rest.skip(n),
            ));
            let before = sections.deep_view();
            assert(before.push(section@) + running_sections(all.skip(end as int)) =~= before
                + running_sections(rest));
        }
        let ghost before = sections.deep_view();
        sections.push(section);
        assert(sections.deep_view() =~= before.push(section@));
        start = end;
    }
    proof {
        assert(running_sections(all.skip(start as int)) =~= Seq::<SectionView>::empty());
        assert(sections.deep_view() + Seq::<SectionView>::empty() =~= sections.deep_view());
    }
    sections
}

fn stopped_section_for(stopped: &[StoppedContainerStatus]) -> (section: Section)
    ensures
        section@ == stopped_section(stopped.deep_view()),
{
    let mut facts: Vec<Fact> = Vec::new();
    let mut i: usize = 0;
    while i < stopped.len()
        invariant
            i <= stopped.len(),
            facts.len() == i,
            forall|k: int| 0 <= k < i ==> (#[trigger] facts[k]@) == stopped_fact(stopped[k]@),
        decreases stopped.len() - i,
    {
        let container = &stopped[i];
        let value = match &container.status {
            Some(status) => status.clone(),
            None => String::from_str("no status"),
        };
        facts.push(Fact { name: container.name.clone(), value });
        i += 1;
    }
    proof {
        let expected = stopped_section(stopped.deep_view()).facts;
        assert forall|k: int| 0 <= k < facts.len() implies facts.deep_view()[k] == expected[k] by {
            assert(facts[k]@ == stopped_fact(stopped[k]@));
        }
        assert(facts.deep_view() =~= expected);
    }
    Section { heading: String::from_str("The following containers are not running:"), facts }
}

/// The card that reports the given containers.
pub fn build_card(
    running_containers: &[RunningContainerStatus],
    stopped_containers: &[StoppedContainerStatus],
    hostname: &Option<String>,
) -> (card: Card)
    ensures
        card@ == card_of(
            running_containers.deep_view(),
            stopped_containers.deep_view(),
            hostname.deep_view(),
        ),
{
    let mut sections = running_sections_for(running_containers);
    if stopped_containers.len() > 0 {
        let ghost before = sections.deep_view();
        let section = stopped_section_for(stopped_containers);
        sections.push(section);
        assert(sections.deep_view() =~= before + seq![section@]);
    } else {
        assert(sections.deep_view() + Seq::<SectionView>::empty() =~= sections.deep_view());
    }
    let text = match hostname {
        Some(name) => {
            let mut line = String::from_str("Server: ");
            line.append(name.as_str());
            line.append(".");
            line
        },
        None => String::new(),
    };
    Card {
        title: String::from_str("Problem in containers! 🤕"),
        summary: String::from_str("Problems in containers"),
        text,
        sections,
    }
}

/// The JSON form of a card, as `serde_json::to_vec` writes the
/// `mhteams::Message` that holds the card's title, summary, text and
/// sections.
pub uninterp spec fn card_json(card: CardView) -> Seq<u8>;

/// Builds the `mhteams::Message` of a card, with `Message::new`, `title`,
/// `summary`, `text` and `sections`, `Section::new`, `text` and `facts`, and
/// `Fact::new`, and encodes it with `serde_json::to_vec`. Trusted: the
/// encoder succeeds, and its bytes are those that `card_json` names; they
/// depend on the card alone. A message holds only texts, numbers, flags and
/// lists of these under fixed keys, so the encoder can fail only where its
/// writer does, and it writes into a byte vector, which never does.
#[verifier::external_body]
fn encode_card(card: &Card) -> (bytes: Result<Vec<u8>, serde_json::Error>)
    ensures
        bytes is Ok,
        bytes matches Ok(b) ==> b@ == card_json(card@),
{
    let sections = card.sections.iter().map(|section| {
        let facts = section.facts.iter().map(|f| mhteams::Fact::new(&f.name, &f.value)).collect();
        mhteams::Section::new().text(&section.heading).facts(facts)
    }).collect();
    let message = mhteams::Message::new()
        .title(&card.title)
        .summary(&card.summary)
        .text(&card.text)
        .sections(sections);
    serde_json::to_vec(&message)
}

/// The chat card for the given containers, as the bytes to send. It always
/// succeeds.
pub fn format_message(
    running_containers: &[RunningContainerStatus],
    stopped_containers: &[StoppedContainerStatus],
    hostname: Option<String>,
) -> (message: Result<Vec<u8>, NotifyError>)
    ensures
        message matches Ok(bytes) && bytes@ == card_json(
            card_of(
                running_containers.deep_view(),
                stopped_containers.deep_view(),
                hostname.deep_view(),
            ),
        ),
{
    let card = build_card(running_containers, stopped_containers, &hostname);
    encoded(encode_card(&card))
}

} // verus!
