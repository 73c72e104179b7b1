//! The console channel: the findings as lines of text.

use vstd::prelude::*;
use vstd::string::*;

use crate::containers::{
    HealthStatus, RunningContainerStatus, RunningContainerView, StoppedContainerStatus,
    StoppedContainerView,
};
use crate::grouping::{health_runs, lemma_run_length_bounds, run_end, run_length};

verus! {

/// The line that stands above a run of running containers of one health.
pub open spec fn console_heading(health: Option<HealthStatus>) -> Seq<char> {
    match health {
        Some(HealthStatus::UNHEALTHY) => "Running, unhealthy containers:"@,
        Some(status) => "Running containers ("@ + status.text() + "):"@,
        None => "Running containers without health status:"@,
    }
}

/// The lines for one run: its heading, then the name of each container.
pub open spec fn run_lines(run: Seq<RunningContainerView>) -> Seq<Seq<char>> {
    seq![console_heading(run[0].health)] + run.map_values(|c: RunningContainerView| c.name)
}

/// The lines of all the runs of health, one run after the other.
pub open spec fn runs_lines(running: Seq<RunningContainerView>) -> Seq<Seq<char>> {
    health_runs(running).map_values(|run: Seq<RunningContainerView>| run_lines(run)).flatten()
}

/// What the console shows of the running containers: their runs of health,
/// or one line that says that there is none.
pub open spec fn running_report(running: Seq<RunningContainerView>) -> Seq<Seq<char>> {
    if running.len() == 0 {
        seq!["No running containers."@]
    } else {
        runs_lines(running)
    }
}

/// What the console shows of the stopped containers: a heading and their
/// names, or one line that says that there is none.
pub open spec fn stopped_report(stopped: Seq<StoppedContainerView>) -> Seq<Seq<char>> {
    if stopped.len() == 0 {
        seq!["No container that was supposed to be running is stopped."@]
    } else {
        seq!["The following containers are stopped:"@] + stopped.map_values(
            |c: StoppedContainerView| c.name,
        )
    }
}

proof fn lemma_runs_lines_unfold(running: Seq<RunningContainerView>)
    requires
        running.len() > 0,
    ensures
        runs_lines(running) == run_lines(running.take(run_length(running) as int)) + runs_lines(
            running.skip(run_length(running) as int),
        ),
{
    lemma_run_length_bounds(running);
    let n = run_length(running) as int;
    let f = |run: Seq<RunningContainerView>| run_lines(run);
    let mapped = health_runs(running).map_values(f);
    let later = health_runs(running.skip(n)).map_values(f);
    assert(health_runs(running) == seq![running.take(n)] + health_runs(running.skip(n)));
    assert(mapped.first() == run_lines(running.take(n)));
    assert(mapped.drop_first() =~= later);
}

fn heading_for(health: Option<HealthStatus>) -> (heading: String)
    ensures
        heading@ == console_heading(health),
{
    match health {
        Some(HealthStatus::UNHEALTHY) => String::from_str("Running, unhealthy containers:"),
        Some(status) => {
            let mut heading = String::from_str("Running containers (");
            heading.append(status.as_str());
            heading.append("):");
            heading
        },
        None => String::from_str("Running containers without health status:"),
    }
}

/// The lines that the console shows of the running containers.
pub fn running_containers(containers: &[RunningContainerStatus]) -> (lines: Vec<String>)
    ensures
        lines.deep_view() == running_report(containers.deep_view()),
{
    let ghost all = containers.deep_view();
    let mut lines: Vec<String> = Vec::new();
    if containers.len() == 0 {
        lines.push(String::from_str("No running containers."));
        assert(lines.deep_view() =~= running_report(all));
        return lines;
    }
    let mut start: usize = 0;
    proof {
        assert(all.skip(0) =~= all);
        assert(lines.deep_view() + runs_lines(all) =~= runs_lines(all));
    }
    while start < containers.len()
        invariant
            start <= containers.len(),
            all == containers.deep_view(),
            runs_lines(all) == lines.deep_view() + runs_lines(all.skip(start as int)),
        decreases containers.len() - start,
    {
        let end = run_end(containers, start);
        let ghost before = lines.deep_view();
        let ghost run = all.subrange(start as int, end as int);
        lines.push(heading_for(containers[start].health));
        proof {
            let rest = all.skip(start as int);
            assert(rest.take(end - start) =~= run);
            assert(rest.skip(end - start) =~= all.skip(end as int));
            lemma_runs_lines_unfold(rest);
            assert(run[0] == containers[start as int]@);
            assert(lines.deep_view() =~= before + run_lines(run).take(1));
        }
        let mut i: usize = start;
        while i < end
            invariant
                start <= i <= end <= containers.len(),
                all == containers.deep_view(),
                run == all.subrange(start as int, end as int),
                lines.deep_view() == before + run_lines(run).take(1 + i - start),
            decreases end - i,
        {
            let ghost so_far = lines.deep_view();
            lines.push(containers[i].name.clone());
            proof {
                assert(run[i - start] == containers[i as int]@);
                assert(run_lines(run)[1 + i - start] == run[i - start].name);
                assert(lines.deep_view() =~= so_far.push(containers[i as int].name@));
                assert(run_lines(run).take(1 + i - start).push(run_lines(run)[1 + i - start])
                    =~= run_lines(run).take(2 + i - start));
                assert(lines.deep_view() =~= before + run_lines(run).take(2 + i - start));
            }
            i += 1;
        }
        proof {
            assert(run_lines(run).take(1 + end - start) =~= run_lines(run));
            assert(before + run_lines(run) + runs_lines(all.skip(end as int)) =~= before + (
            run_lines(run) + runs_lines(all.skip(end as int))));
        }
        start = end;
    }
    proof {
        assert(runs_lines(all.skip(start as int)) =~= Seq::<Seq<char>>::empty());
        assert(lines.deep_view() + Seq::<Seq<char>>::empty() =~= lines.deep_view());
    }
    lines
}

/// The lines that the console shows of the stopped containers.
pub fn stopped_containers(containers: &[StoppedContainerStatus]) -> (lines: Vec<String>)
    ensures
        lines.deep_view() == stopped_report(containers.deep_view()),
{
    let ghost all = containers.deep_view();
    let mut lines: Vec<String> = Vec::new();
    if containers.len() == 0 {
        lines.push(String::from_str("No container that was supposed to be running is stopped."));
        assert(lines.deep_view() =~= stopped_report(all));
        return lines;
    }
    lines.push(String::from_str("The following containers are stopped:"));
    let mut i: usize = 0;
    assert(lines.deep_view() =~= stopped_report(all).take(1));
    while i < containers.len()
        invariant
            0 < containers.len(),
            i <= containers.len(),
            all == containers.deep_view(),
            lines.deep_view() == stopped_report(all).take(1 + i),
        decreases containers.len() - i,
    {
        let ghost so_far = lines.deep_view();
        lines.push(containers[i].name.clone());
        proof {
            assert(stopped_report(all)[1 + i] == all[i as int].name);
            assert(lines.deep_view() =~= so_far.push(containers[i as int].name@));
            assert(lines.deep_view() =~= stopped_report(all).take(2 + i));
        }
        i += 1;
    }
    assert(stopped_report(all).take(1 + i) =~= stopped_report(all));
    lines
}

} // verus!
