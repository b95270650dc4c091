use vstd::prelude::*;

use crate::policy::{allowance_for, allowance_spec, Sample, ThresholdPolicy};

verus! {

/// What one reconciliation cycle asks of the disruption-budget client.
#[derive(Clone, Copy, Debug, PartialEq, Eq, Structural)]
pub enum CycleAction {
    /// Nothing to write: the probe failed, or the condition is already recorded.
    Skip,
    /// Write the allowance that records this has-players condition.
    Patch { has_players: bool },
}

/// The condition recorded by an eviction allowance read at startup: only an
/// allowance of exactly zero means that players were present.
pub open spec fn seeded_spec(allowance: Option<i32>) -> bool {
    allowance == Some(0i32)
}

/// The action of one cycle, given the last known condition, the policy and the
/// probe's outcome (`None` when the probe failed).
pub open spec fn cycle_action(
    last_has_players: bool,
    policy: ThresholdPolicy,
    probe: Option<Sample>,
) -> CycleAction {
    match probe {
        None => CycleAction::Skip,
        Some(s) => if policy.satisfied_by(s) == last_has_players {
            CycleAction::Skip
        } else {
            CycleAction::Patch { has_players: policy.satisfied_by(s) }
        },
    }
}

/// The last known has-players state after a patch towards `target` was
/// attempted: it moves only when the write was confirmed.
pub open spec fn committed_state(last_has_players: bool, target: bool, succeeded: bool) -> bool {
    if succeeded {
        target
    } else {
        last_has_players
    }
}

/// The single piece of process state: the has-players condition that the
/// remote eviction allowance is known to record, and the fixed policy.
#[derive(Clone, Copy, Debug)]
pub struct Reconciler {
    pub last_has_players: bool,
    pub policy: ThresholdPolicy,
}

impl Reconciler {
    pub open spec fn wf(self) -> bool {
        self.policy.wf()
    }

    /// Seeds the state from the allowance read at startup; `None` stands for
    /// an unreadable object, a missing field or a non-integer value.
    pub fn seeded(policy: ThresholdPolicy, allowance: Option<i32>) -> (r: Reconciler)
        requires
            policy.wf(),
        ensures
            r.wf(),
            r.policy == policy,
            r.last_has_players == seeded_spec(allowance),
    {
        let last_has_players = match allowance {
            Some(a) => a == 0,
            None => false,
        };
        Reconciler { last_has_players, policy }
    }

    /// Decides one cycle: a failed probe and an unchanged condition both skip
    /// the write; a changed condition asks for a patch towards it.
    pub fn plan_cycle(&self, probe: Option<Sample>) -> (r: CycleAction)
        requires
            self.wf(),
        ensures
            r == cycle_action(self.last_has_players, self.policy, probe),
    {
        match probe {
            None => CycleAction::Skip,
            Some(s) => {
                let has_players = self.policy.has_players(s);
                if has_players == self.last_has_players {
                    CycleAction::Skip
                } else {
                    CycleAction::Patch { has_players }
                }
            },
        }
    }

    /// Records the outcome of a patch towards `target`: a confirmed write
    /// commits the new condition, a failed one leaves the state as it was.
    pub fn record_patch(&mut self, target: bool, succeeded: bool)
        ensures
            final(self).policy == old(self).policy,
            final(self).last_has_players == committed_state(
                old(self).last_has_players,
                target,
                succeeded,
            ),
    {
        if succeeded {
            self.last_has_players = target;
        }
    }
}

/// The JSON merge patch that sets only the eviction allowance.
pub open spec fn merge_patch_text(allowance: u32) -> Seq<char> {
    if allowance == 0 {
        "{\"spec\":{\"maxUnavailable\":0}}"@
    } else {
        "{\"spec\":{\"maxUnavailable\":1}}"@
    }
}

/// The body of the merge patch that records the has-players condition.
pub fn merge_patch_body(has_players: bool) -> (r: String)
    ensures
        r@ == merge_patch_text(allowance_spec(has_players)),
{
    let allowance = allowance_for(has_players);
    if allowance == 0 {
        "{\"spec\":{\"maxUnavailable\":0}}".to_owned()
    } else {
        "{\"spec\":{\"maxUnavailable\":1}}".to_owned()
    }
}

/// An idle cycle issues no write: when the probe's condition equals the last
/// known state, the cycle skips the patch.
pub proof fn lemma_unchanged_condition_skips(
    last_has_players: bool,
    policy: ThresholdPolicy,
    s: Sample,
)
    requires
        policy.satisfied_by(s) == last_has_players,
    ensures
        cycle_action(last_has_players, policy, Some(s)) == CycleAction::Skip,
{
}

/// A failed probe changes nothing: the cycle skips, and the state it leaves
/// is the state it found.
pub proof fn lemma_failed_probe_is_inert(last_has_players: bool, policy: ThresholdPolicy)
    ensures
        cycle_action(last_has_players, policy, None) == CycleAction::Skip,
{
}

/// After a cycle's patch is confirmed, a later cycle that observes the same
/// condition issues no second patch; after a failed patch it asks again.
pub proof fn lemma_committed_patch_is_not_repeated(
    last_has_players: bool,
    policy: ThresholdPolicy,
    first: Sample,
    second: Sample,
    succeeded: bool,
)
    requires
        cycle_action(last_has_players, policy, Some(first)) is Patch,
        policy.satisfied_by(second) == policy.satisfied_by(first),
    ensures
        succeeded ==> cycle_action(
            committed_state(last_has_players, policy.satisfied_by(first), succeeded),
            policy,
            Some(second),
        ) == CycleAction::Skip,
        !succeeded ==> cycle_action(
            committed_state(last_has_players, policy.satisfied_by(first), succeeded),
            policy,
            Some(second),
        ) == cycle_action(last_has_players, policy, Some(first)),
{
}

} // verus!
