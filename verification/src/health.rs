//! Readiness of the service, driven by periodic checks of the feature store.
//!
//! The service is ready at startup, once the store has been reached. Two failed
//! checks in a row make it unready; the next successful one makes it ready
//! again.

use vstd::prelude::*;

verus! {

/// Failed checks in a row that make the service unready.
pub const FAILURE_LIMIT: u32 = 2;

/// What a check asks the health service to report.
#[derive(Clone, Copy, Debug, PartialEq, Eq, Structural)]
pub enum HealthAction {
    /// Nothing changes.
    Keep,
    /// The service is ready again.
    SetServing,
    /// The service is no longer ready.
    SetNotServing,
}

/// Follows the checks of the feature store.
#[derive(Clone, Copy, Debug)]
pub struct HealthMonitor {
    /// Failed checks since the last successful one.
    pub consecutive_failures: u32,
}

/// Number of failed checks at the end of a history.
pub open spec fn trailing_failures(history: Seq<bool>) -> nat
    decreases history.len(),
{
    if history.len() == 0 || history.last() {
        0
    } else {
        1 + trailing_failures(history.drop_last())
    }
}

/// True if the service is ready after a history of checks.
pub open spec fn ready_after(history: Seq<bool>) -> bool {
    trailing_failures(history) < FAILURE_LIMIT
}

impl HealthMonitor {
    /// True if this is where a history of checks leads.
    pub open spec fn has_seen(self, history: Seq<bool>) -> bool {
        self.consecutive_failures == trailing_failures(history)
    }

    /// The monitor after one more check.
    pub open spec fn after(self, reachable: bool) -> HealthMonitor {
        HealthMonitor {
            consecutive_failures: if reachable {
                0
            } else {
                (self.consecutive_failures + 1) as u32
            },
        }
    }

    /// What one more check asks the health service to report.
    pub open spec fn reaction(self, reachable: bool) -> HealthAction {
        if reachable && self.consecutive_failures >= FAILURE_LIMIT {
            HealthAction::SetServing
        } else if !reachable && self.consecutive_failures + 1 == FAILURE_LIMIT {
            HealthAction::SetNotServing
        } else {
            HealthAction::Keep
        }
    }

    /// Starts after the store has been reached.
    pub fn new() -> (monitor: Self)
        ensures
            monitor.has_seen(Seq::empty()),
            monitor.consecutive_failures == 0,
    {
        HealthMonitor { consecutive_failures: 0 }
    }

    /// Takes the outcome of a check and says what to report.
    pub fn record(&mut self, reachable: bool) -> (action: HealthAction)
        requires
            !reachable ==> old(self).consecutive_failures < u32::MAX,
        ensures
            *final(self) == old(self).after(reachable),
            action == old(self).reaction(reachable),
    {
        if reachable {
            let restored = self.consecutive_failures >= FAILURE_LIMIT;
            self.consecutive_failures = 0;
            if restored {
                HealthAction::SetServing
            } else {
                HealthAction::Keep
            }
        } else {
            self.consecutive_failures = self.consecutive_failures + 1;
            if self.consecutive_failures == FAILURE_LIMIT {
                HealthAction::SetNotServing
            } else {
                HealthAction::Keep
            }
        }
    }
}

impl Default for HealthMonitor {
    fn default() -> (monitor: Self)
        ensures
            monitor.consecutive_failures == 0,
    {
        HealthMonitor::new()
    }
}

/// Law: a monitor that is told every check knows how many of the last ones
/// failed, and asks for a report exactly if readiness changes with the check:
/// to ready or to unready, as the case may be.
pub proof fn law_report_on_change_only(
    monitor: HealthMonitor,
    history: Seq<bool>,
    reachable: bool,
)
    requires
        monitor.has_seen(history),
        !reachable ==> monitor.consecutive_failures < u32::MAX,
    ensures
        monitor.after(reachable).has_seen(history.push(reachable)),
        monitor.reaction(reachable) == HealthAction::SetServing <==> !ready_after(history) && ready_after(
            history.push(reachable),
        ),
        monitor.reaction(reachable) == HealthAction::SetNotServing <==> ready_after(history) && !ready_after(
            history.push(reachable),
        ),
{
    assert(history.push(reachable).drop_last() =~= history);
}

/// Law: the service is unready exactly if the last two checks failed.
pub proof fn law_two_failures_make_unready(history: Seq<bool>)
    ensures
        !ready_after(history) <==> history.len() >= 2 && !history.last() && !history[history.len()
            - 2],
{
    reveal_with_fuel(trailing_failures, 3);
    if history.len() >= 1 && !history.last() {
        let rest = history.drop_last();
        if rest.len() >= 1 {
            assert(rest.last() == history[history.len() - 2]);
        }
    }
}

/// Law: a check that succeeds ends the failures in a row, and one that fails adds
/// one; a report is asked for exactly when the second failure in a row comes in,
/// and when a success follows two or more.
pub proof fn law_reactions(monitor: HealthMonitor, reachable: bool)
    requires
        monitor.consecutive_failures < u32::MAX,
    ensures
        reachable ==> monitor.after(reachable).consecutive_failures == 0,
        !reachable ==> monitor.after(reachable).consecutive_failures
            == monitor.consecutive_failures + 1,
        monitor.reaction(reachable) == HealthAction::SetServing <==> reachable
            && monitor.consecutive_failures >= 2,
        monitor.reaction(reachable) == HealthAction::SetNotServing <==> !reachable
            && monitor.consecutive_failures == 1,
{
}

/// Law: the failures in a row are the failed checks behind the last success.
pub proof fn law_trailing_failures(history: Seq<bool>)
    ensures
        trailing_failures(history.push(true)) == 0,
        trailing_failures(history.push(false)) == trailing_failures(history) + 1,
        trailing_failures(Seq::<bool>::empty()) == 0,
{
    assert(history.push(false).drop_last() =~= history);
}

/// Law: a monitor has seen a history exactly if it counts the failed checks at
/// its end.
pub proof fn law_what_a_monitor_has_seen(monitor: HealthMonitor, history: Seq<bool>, n: int)
    requires
        0 <= n <= history.len(),
        forall|i: int| history.len() - n <= i < history.len() ==> !#[trigger] history[i],
        n < history.len() ==> history[history.len() - n - 1],
    ensures
        monitor.has_seen(history) <==> monitor.consecutive_failures == n,
{
    lemma_trailing(history, n);
}

/// The failed checks at the end of a history are counted.
proof fn lemma_trailing(history: Seq<bool>, n: int)
    requires
        0 <= n <= history.len(),
        forall|i: int| history.len() - n <= i < history.len() ==> !#[trigger] history[i],
        n < history.len() ==> history[history.len() - n - 1],
    ensures
        trailing_failures(history) == n,
    decreases n,
{
    if n > 0 {
        let front = history.drop_last();
        assert(!history[history.len() - 1]);
        assert forall|i: int| front.len() - (n - 1) <= i < front.len() implies !#[trigger] front[i]
            by {
            assert(front[i] == history[i]);
        }
        if n < history.len() {
            assert(front[front.len() - (n - 1) - 1] == history[history.len() - n - 1]);
        }
        lemma_trailing(front, n - 1);
    } else if history.len() > 0 {
        assert(history[history.len() - 1]);
    }
}

} // verus!
