//! Runs of health: how a list of running containers falls into groups of
//! neighbours that share one health. Containers of equal health that do not
//! stand next to each other stay in separate groups.

use vstd::prelude::*;

use crate::containers::{HealthStatus, RunningContainerStatus, RunningContainerView};

verus! {

/// How many containers at the front of the list share the health of the
/// first one, without a gap.
pub open spec fn run_length(running: Seq<RunningContainerView>) -> nat
    decreases running.len(),
{
    if running.len() == 0 {
        0
    } else if running.len() == 1 || running[1].health != running[0].health {
        1
    } else {
        1 + run_length(running.skip(1))
    }
}

/// The list cut into its runs: the longest front part of one health first,
/// then the runs of what remains.
pub open spec fn health_runs(running: Seq<RunningContainerView>) -> Seq<Seq<RunningContainerView>>
    decreases running.len(),
{
    if running.len() == 0 {
        Seq::empty()
    } else {
        let n = run_length(running) as int;
        if 0 < n <= running.len() {
            seq![running.take(n)] + health_runs(running.skip(n))
        } else {
            Seq::empty()
        }
    }
}

/// A run is never empty and never longer than the list.
pub proof fn lemma_run_length_bounds(running: Seq<RunningContainerView>)
    ensures
        running.len() > 0 ==> 0 < run_length(running) <= running.len(),
        running.len() == 0 ==> run_length(running) == 0,
    decreases running.len(),
{
    if running.len() > 1 && running[1].health == running[0].health {
        lemma_run_length_bounds(running.skip(1));
    }
}

/// The run at the front is exactly the longest front part of one health:
/// a front part of `n` containers of equal health, followed by nothing or by
/// a container of another health, is that run.
pub proof fn lemma_run_length_is(running: Seq<RunningContainerView>, n: int)
    requires
        0 < n <= running.len(),
        forall|k: int| 0 <= k < n ==> (#[trigger] running[k]).health == running[0].health,
        n == running.len() || running[n].health != running[0].health,
    ensures
        run_length(running) == n,
    decreases n,
{
    if n > 1 {
        let rest = running.skip(1);
        assert(running[1].health == running[0].health);
        assert forall|k: int| 0 <= k < n - 1 implies (#[trigger] rest[k]).health
            == rest[0].health by {
            assert(rest[k] == running[k + 1]);
        }
        lemma_run_length_is(rest, n - 1);
    }
}

/// All the containers of the front run share the health of the first, and
/// the container after the run, if there is one, does not.
pub proof fn lemma_run_is_maximal(running: Seq<RunningContainerView>)
    requires
        running.len() > 0,
    ensures
        forall|k: int|
            0 <= k < run_length(running) ==> (#[trigger] running[k]).health == running[0].health,
        run_length(running) < running.len() ==> running[run_length(running) as int].health
            != running[0].health,
    decreases running.len(),
{
    if running.len() > 1 && running[1].health == running[0].health {
        let rest = running.skip(1);
        lemma_run_is_maximal(rest);
        lemma_run_length_bounds(rest);
        assert forall|k: int| 0 <= k < run_length(running) implies (#[trigger] running[k]).health
            == running[0].health by {
            if k > 0 {
                assert(rest[k - 1] == running[k]);
            }
        }
        if run_length(running) < running.len() {
            assert(rest[run_length(rest) as int] == running[run_length(running) as int]);
        }
    }
}

/// Grouping goes by neighbourhood. The runs, laid end to end, are the list
/// itself, so no container moves. No run is empty, each run has one
/// health, and two runs that follow each other differ in health: a run
/// stops only where the health changes, and starts anew even where an
/// earlier run had the same health.
pub proof fn lemma_runs_are_neighbourhoods(running: Seq<RunningContainerView>)
    ensures
        health_runs(running).flatten() == running,
        forall|r: int|
            0 <= r < health_runs(running).len() ==> (#[trigger] health_runs(running)[r]).len() > 0,
        forall|r: int, k: int|
            0 <= r < health_runs(running).len() && 0 <= k < health_runs(running)[r].len()
                ==> (#[trigger] health_runs(running)[r][k]).health == health_runs(
                running,
            )[r][0].health,
        forall|r: int|
            0 <= r < health_runs(running).len() - 1 ==> (#[trigger] health_runs(
                running,
            )[r]).last().health != health_runs(running)[r + 1][0].health,
    decreases running.len(),
{
    if running.len() > 0 {
        lemma_run_length_bounds(running);
        lemma_run_is_maximal(running);
        let n = run_length(running) as int;
        let rest = running.skip(n);
        let runs = health_runs(running);
        let later = health_runs(rest);
        lemma_runs_are_neighbourhoods(rest);
        assert(runs == seq![running.take(n)] + later);
        assert(runs.first() == running.take(n));
        assert(runs.drop_first() =~= later);
        assert(runs.flatten() =~= running.take(n) + rest);
        assert(running.take(n) + rest =~= running);
        assert forall|r: int| 0 <= r < runs.len() implies (#[trigger] runs[r]).len() > 0 by {
            if r > 0 {
                assert(runs[r] == later[r - 1]);
            }
        }
        assert forall|r: int, k: int| 0 <= r < runs.len() && 0 <= k < runs[r].len() implies (
        #[trigger] runs[r][k]).health == runs[r][0].health by {
            if r > 0 {
                assert(runs[r] == later[r - 1]);
            } else {
                assert(runs[0][k] == running[k]);
            }
        }
        assert forall|r: int| 0 <= r < runs.len() - 1 implies (#[trigger] runs[r]).last().health
            != runs[r + 1][0].health by {
            assert(runs[r + 1] == later[r]);
            if r > 0 {
                assert(runs[r] == later[r - 1]);
            } else {
                lemma_run_length_bounds(rest);
                assert(later[0] == rest.take(run_length(rest) as int));
                assert(later[0][0] == running[n]);
                assert(runs[0].last() == running[n - 1]);
            }
        }
    } else {
        assert(health_runs(running).flatten() =~= running);
    }
}

/// The place after the last container of the run that begins at `start`.
pub fn run_end(running: &[RunningContainerStatus], start: usize) -> (end: usize)
    requires
        start < running.len(),
    ensures
        start < end <= running.len(),
        end - start == run_length(running.deep_view().skip(start as int)),
{
    let health = running[start].health;
    let mut end: usize = start + 1;
    while end < running.len() && same_health(running[end].health, health)
        invariant
            start < end <= running.len(),
            health == running[start as int].health,
            forall|k: int| start <= k < end ==> (#[trigger] running[k]).health == health,
        decreases running.len() - end,
    {
        end += 1;
    }
    proof {
        let rest = running.deep_view().skip(start as int);
        assert forall|k: int| 0 <= k < end - start implies (#[trigger] rest[k]).health
            == rest[0].health by {
            assert(rest[k] == running[start + k]@);
        }
        if end < running.len() {
            assert(rest[end - start] == running[end as int]@);
        }
        lemma_run_length_is(rest, end - start);
    }
    end
}

/// Whether two containers count as neighbours of one health.
pub fn same_health(a: Option<HealthStatus>, b: Option<HealthStatus>) -> (same: bool)
    ensures
        same == (a == b),
{
    match (a, b) {
        (None, None) => true,
        (Some(x), Some(y)) => x == y,
        _ => false,
    }
}

} // verus!
