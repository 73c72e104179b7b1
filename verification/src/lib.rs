//! A single-shot probe of a container engine: it classifies the containers
//! that run without being healthy and those that should run but do not, and
//! prepares the notification that reports them.

use vstd::prelude::*;

use crate::args::{Args, Command};
use crate::containers::{
    check_not_running_containers, check_running_containers, container_names, listed_names,
    running_filter, running_filter_view, running_statuses, stopped_filter, stopped_filter_view,
    stopped_statuses, ContainerDetail, ContainerFilter, ContainerRecord, RunningContainerStatus,
    RunningContainerView, StoppedContainerView,
};
use crate::error::NotifyError;
use crate::print::{running_containers, running_report, stopped_containers, stopped_report};
use crate::webhook::{reports, MessageFormat, Request, Webhook};

pub mod args;
pub mod containers;
pub mod error;
pub mod grouping;
pub mod json;
pub mod msteams;
pub mod print;
pub mod webhook;

verus! {

/// How severe a log message is, from the most to the least severe.
#[derive(Clone, Copy, Debug, PartialEq, Eq, Structural)]
pub enum Level {
    Error,
    Warn,
    Info,
    Debug,
    Trace,
}

/// The most verbose level that a logger lets through; `Off` lets nothing
/// through.
#[derive(Clone, Copy, Debug, PartialEq, Eq, Structural)]
pub enum LevelFilter {
    Off,
    Error,
    Warn,
    Info,
    Debug,
    Trace,
}

impl Level {
    /// The place of the level in the order of verbosity: 1 for `Error`, up
    /// to 5 for `Trace`.
    pub open spec fn rank(self) -> int {
        match self {
            Level::Error => 1,
            Level::Warn => 2,
            Level::Info => 3,
            Level::Debug => 4,
            Level::Trace => 5,
        }
    }
}

impl LevelFilter {
    /// The rank of the most verbose level that passes the filter, 0 when
    /// none does.
    pub open spec fn rank(self) -> int {
        match self {
            LevelFilter::Off => 0,
            LevelFilter::Error => 1,
            LevelFilter::Warn => 2,
            LevelFilter::Info => 3,
            LevelFilter::Debug => 4,
            LevelFilter::Trace => 5,
        }
    }

    /// Whether a message of the given level passes the filter.
    pub open spec fn admits(self, level: Level) -> bool {
        level.rank() <= self.rank()
    }
}

/// The filter that lets through the messages up to the requested level, and
/// nothing when no level was requested.
pub fn to_level_filter(level: Option<Level>) -> (filter: LevelFilter)
    ensures
        filter.rank() == match level {
            Some(l) => l.rank(),
            None => 0,
        },
        forall|message: Level|
            filter.admits(message) <==> (level matches Some(l) && message.rank() <= l.rank()),
{
    match level {
        None => LevelFilter::Off,
        Some(level) => match level {
            Level::Error => LevelFilter::Error,
            Level::Warn => LevelFilter::Warn,
            Level::Info => LevelFilter::Info,
            Level::Debug => LevelFilter::Debug,
            Level::Trace => LevelFilter::Trace,
        },
    }
}

/// A probe that waits for the listing of the running containers.
#[derive(Debug, PartialEq, Eq)]
pub struct RunningListing {
    pub args: Args,
}

/// A probe that waits for the inspections of the listed containers.
#[derive(Debug, PartialEq, Eq)]
pub struct Inspection {
    pub args: Args,
    pub listing: Vec<ContainerRecord>,
}

/// A probe that waits for the listing of the stopped containers.
#[derive(Debug, PartialEq, Eq)]
pub struct StoppedListing {
    pub args: Args,
    pub running: Vec<RunningContainerStatus>,
}

/// What is left to do once both classifications are made.
#[derive(Debug, PartialEq, Eq)]
pub enum Dispatch {
    /// Show these lines on the console.
    Print { lines: Vec<String> },
    /// Make this request, and let `Webhook::conclude` judge the answer.
    Send { request: Request },
    /// There is nothing to report, and so nothing to do.
    Nothing,
}

/// Whether `next` is the dispatch that the configuration asks for, given
/// both classifications. The console shows the running containers, then the
/// stopped ones. The two webhooks get one request, in their own format, and
/// none when there is no finding.
pub open spec fn dispatches(
    args: Args,
    running: Seq<RunningContainerView>,
    stopped: Seq<StoppedContainerView>,
    next: Result<Dispatch, NotifyError>,
) -> bool {
    match args.command {
        Command::Print {  } => next matches Ok(Dispatch::Print { lines }) && lines.deep_view()
            == running_report(running) + stopped_report(stopped),
        Command::NotifyTeams { callback_url } => sends(
            MessageFormat::ChatCard,
            callback_url@,
            running,
            stopped,
            args.hostname.deep_view(),
            next,
        ),
        Command::NotifyWebhook { callback_url } => sends(
            MessageFormat::Generic,
            callback_url@,
            running,
            stopped,
            args.hostname.deep_view(),
            next,
        ),
    }
}

/// Whether `next` hands on what notifying of the findings comes to.
pub open spec fn sends(
    format: MessageFormat,
    url: Seq<char>,
    running: Seq<RunningContainerView>,
    stopped: Seq<StoppedContainerView>,
    hostname: Option<Seq<char>>,
    next: Result<Dispatch, NotifyError>,
) -> bool {
    match next {
        Ok(Dispatch::Send { request }) => reports(
            format,
            url,
            running,
            stopped,
            hostname,
            Ok(Some(request)),
        ),
        Ok(Dispatch::Nothing) => reports(format, url, running, stopped, hostname, Ok(None)),
        Ok(Dispatch::Print { .. }) => false,
        Err(_) => false,
    }
}

/// Begins a probe: the probe waits for the listing that the returned filter
/// asks of the engine.
pub fn run(args: Args) -> (first: (RunningListing, ContainerFilter))
    ensures
        first.0.args == args,
        first.1@ == running_filter_view(args.report_no_health),
{
    let filter = running_filter(args.report_no_health);
    (RunningListing { args }, filter)
}

impl RunningListing {
    /// Takes the listing of the running containers, and names the
    /// containers to inspect, all of them and in the listing's order. A
    /// listing that failed ends the probe with the engine's error, and a
    /// container without a name with a data-integrity error.
    pub fn listed(self, listing: Result<Vec<ContainerRecord>, NotifyError>) -> (next: Result<
        (Inspection, Vec<String>),
        NotifyError,
    >)
        ensures
            match listing {
                Ok(records) => match listed_names(records.deep_view()) {
                    Some(names) => next matches Ok((state, targets)) && state.args == self.args
                        && state.listing == records && targets.deep_view() == names,
                    None => next == Err::<(Inspection, Vec<String>), NotifyError>(
                        NotifyError::DataIntegrity,
                    ),
                },
                Err(e) => next == Err::<(Inspection, Vec<String>), NotifyError>(e),
            },
    {
        let records = listing?;
        let targets = container_names(&records)?;
        Ok((Inspection { args: self.args, listing: records }, targets))
    }
}

impl Inspection {
    /// Takes what inspecting each listed container gave, place for place,
    /// and classifies the running containers. The probe then waits for the
    /// listing that the returned filter asks for: that of the stopped
    /// containers with the configured label. No inspection can end the
    /// probe.
    pub fn inspected(self, inspections: Vec<Result<ContainerDetail, NotifyError>>) -> (next: Result<
        (StoppedListing, ContainerFilter),
        NotifyError,
    >)
        ensures
            match running_statuses(self.listing.deep_view(), inspections@) {
                Some(running) => next matches Ok((state, filter)) && state.args == self.args
                    && state.running.deep_view() == running && filter@ == stopped_filter_view(
                    self.args.label@,
                ),
                None => next == Err::<(StoppedListing, ContainerFilter), NotifyError>(
                    NotifyError::DataIntegrity,
                ),
            },
    {
        let running = check_running_containers(&self.listing, &inspections)?;
        let filter = stopped_filter(self.args.label.as_str());
        Ok((StoppedListing { args: self.args, running }, filter))
    }
}

impl StoppedListing {
    /// Takes the listing of the stopped containers, classifies them without
    /// inspecting any, and says how the findings are dispatched. A listing
    /// that failed ends the probe with the engine's error.
    pub fn listed(self, listing: Result<Vec<ContainerRecord>, NotifyError>) -> (next: Result<
        Dispatch,
        NotifyError,
    >)
        ensures
            match listing {
                Ok(records) => match stopped_statuses(records.deep_view()) {
                    Some(stopped) => dispatches(self.args, self.running.deep_view(), stopped, next),
                    None => next == Err::<Dispatch, NotifyError>(NotifyError::DataIntegrity),
                },
                Err(e) => next == Err::<Dispatch, NotifyError>(e),
            },
    {
        let records = listing?;
        let stopped = check_not_running_containers(&records)?;
        let StoppedListing { args, running } = self;
        let Args { hostname, command, .. } = args;
        match command {
            Command::Print {  } => {
                let mut lines = running_containers(running.as_slice());
                let mut rest = stopped_containers(stopped.as_slice());
                let ghost first = lines.deep_view();
                let ghost second = rest.deep_view();
                lines.append(&mut rest);
                assert(lines.deep_view() =~= first + second);
                Ok(Dispatch::Print { lines })
            },
            Command::NotifyTeams { callback_url } => {
                let webhook = Webhook::new(Some(MessageFormat::ChatCard));
                match webhook.notify(callback_url.as_str(), running, stopped, hostname)? {
                    Some(request) => Ok(Dispatch::Send { request }),
                    None => Ok(Dispatch::Nothing),
                }
            },
            Command::NotifyWebhook { callback_url } => {
                let webhook = Webhook::default();
                match webhook.notify(callback_url.as_str(), running, stopped, hostname)? {
                    Some(request) => Ok(Dispatch::Send { request }),
                    None => Ok(Dispatch::Nothing),
                }
            },
        }
    }
}

} // verus!
