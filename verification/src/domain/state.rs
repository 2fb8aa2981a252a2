//! The lives of a run and of an effect.
use vstd::prelude::*;

verus! {

#[derive(Clone, Copy, Debug, PartialEq, Eq, Structural)]
pub enum RunState {
    Queued,
    RetryWait,
    Leased,
    Running,
    Succeeded,
    Failed,
    Cancelled,
    NeedsReconciliation,
}

#[derive(Clone, Copy, Debug, PartialEq, Eq, Structural)]
pub enum EffectState {
    Prepared,
    Dispatching,
    Committed,
    DefinitelyFailed,
    OutcomeUnknown,
}

/// A step that the life of a run or an effect does not have.
#[derive(Clone, Copy, Debug, PartialEq, Eq, Structural)]
pub struct InvalidTransition;

impl EffectState {
    /// The remote outcome may or may not have happened.
    pub open spec fn is_unresolved(self) -> bool {
        self is Dispatching || self is OutcomeUnknown
    }

    /// The outcome is known.
    pub open spec fn is_resolved_outcome(self) -> bool {
        self is Committed || self is DefinitelyFailed
    }

    /// The steps of an effect. Out of an unknown outcome leads only evidence
    /// of the outcome, or an eligible retry.
    pub open spec fn may_become(self, to: EffectState, evidenced: bool, retry: bool) -> bool {
        match self {
            EffectState::Prepared => to is Dispatching,
            EffectState::Dispatching => to.is_resolved_outcome() || to is OutcomeUnknown,
            EffectState::OutcomeUnknown => (evidenced && to.is_resolved_outcome()) || (retry
                && to is Dispatching),
            EffectState::Committed => false,
            EffectState::DefinitelyFailed => false,
        }
    }

    pub fn unresolved(self) -> (r: bool)
        ensures
            r == self.is_unresolved(),
    {
        matches!(self, EffectState::Dispatching | EffectState::OutcomeUnknown)
    }

    /// Unknown outcomes require explicit evidence or an eligible idempotent retry.
    pub fn transition(
        self,
        to: EffectState,
        evidenced_resolution: bool,
        eligible_retry: bool,
    ) -> (r: Result<EffectState, InvalidTransition>)
        ensures
            r == (if self.may_become(to, evidenced_resolution, eligible_retry) {
                Ok(to)
            } else {
                Err(InvalidTransition)
            }),
    {
        let settled = matches!(to, EffectState::Committed | EffectState::DefinitelyFailed);
        let allowed = match self {
            EffectState::Prepared => matches!(to, EffectState::Dispatching),
            EffectState::Dispatching => settled || matches!(to, EffectState::OutcomeUnknown),
            EffectState::OutcomeUnknown => (evidenced_resolution && settled) || (eligible_retry
                && matches!(to, EffectState::Dispatching)),
            _ => false,
        };
        if allowed {
            Ok(to)
        } else {
            Err(InvalidTransition)
        }
    }
}

impl RunState {
    /// Nothing more happens to the run.
    pub open spec fn is_terminal(self) -> bool {
        self is Succeeded || self is Failed || self is Cancelled
    }

    /// The steps of a run, leaving out whether an effect is unresolved.
    pub open spec fn may_follow(self, to: RunState, explicit_resume: bool) -> bool {
        match self {
            RunState::Queued => to is Leased || to is Cancelled || to is Failed,
            RunState::Leased => to is Running || to is Queued || to is RetryWait || to is Cancelled
                || to is Failed || to is NeedsReconciliation,
            RunState::Running => to is Succeeded || to is Failed || to is Cancelled || to is Queued
                || to is RetryWait || to is NeedsReconciliation,
            RunState::RetryWait => to is Queued || to is Cancelled || to is Failed
                || to is NeedsReconciliation,
            RunState::NeedsReconciliation => to is Failed || (to is Queued && explicit_resume),
            RunState::Succeeded => false,
            RunState::Failed => false,
            RunState::Cancelled => false,
        }
    }

    /// States that claim more than is known while an effect is unresolved.
    pub open spec fn needs_resolved_effects(self) -> bool {
        self.is_terminal() || self is Queued || self is RetryWait
    }

    /// The steps of a run.
    pub open spec fn may_become(self, to: RunState, unresolved: bool, explicit_resume: bool) -> bool {
        !(unresolved && to.needs_resolved_effects()) && self.may_follow(to, explicit_resume)
    }

    pub fn terminal(self) -> (r: bool)
        ensures
            r == self.is_terminal(),
    {
        matches!(self, RunState::Succeeded | RunState::Failed | RunState::Cancelled)
    }

    pub fn transition(
        self,
        to: RunState,
        unresolved: bool,
        explicit_resume: bool,
    ) -> (r: Result<RunState, InvalidTransition>)
        ensures
            r == (if self.may_become(to, unresolved, explicit_resume) {
                Ok(to)
            } else {
                Err(InvalidTransition)
            }),
    {
        if unresolved && matches!(
            to,
            RunState::Succeeded | RunState::Cancelled | RunState::Queued | RunState::RetryWait
                | RunState::Failed
        ) {
            return Err(InvalidTransition);
        }
        let allowed = match self {
            RunState::Queued => matches!(
                to,
                RunState::Leased | RunState::Cancelled | RunState::Failed
            ),
            RunState::Leased => matches!(
                to,
                RunState::Running | RunState::Queued | RunState::RetryWait | RunState::Cancelled
                    | RunState::Failed | RunState::NeedsReconciliation
            ),
            RunState::Running => matches!(
                to,
                RunState::Succeeded | RunState::Failed | RunState::Cancelled | RunState::Queued
                    | RunState::RetryWait | RunState::NeedsReconciliation
            ),
            RunState::RetryWait => matches!(
                to,
                RunState::Queued | RunState::Cancelled | RunState::Failed
                    | RunState::NeedsReconciliation
            ),
            RunState::NeedsReconciliation => matches!(to, RunState::Failed) || (explicit_resume
                && matches!(to, RunState::Queued)),
            _ => false,
        };
        if allowed {
            Ok(to)
        } else {
            Err(InvalidTransition)
        }
    }
}

/// A run that has ended stays as it ended.
pub proof fn terminal_runs_are_final(from: RunState, to: RunState, unresolved: bool, resume: bool)
    requires
        from.is_terminal(),
    ensures
        !from.may_become(to, unresolved, resume),
{
}

/// While an effect is unresolved no run ends, is queued again or waits for a
/// retry: all that is left to it is to be leased, to run, or to be reconciled.
pub proof fn ambiguity_bars_clean_ends(from: RunState, to: RunState, resume: bool)
    requires
        from.may_become(to, true, resume),
    ensures
        to is Leased || to is Running || to is NeedsReconciliation,
{
}

/// A run whose effects may have happened can always be set aside for
/// reconciliation once it has been leased.
pub proof fn ambiguity_can_be_reconciled(from: RunState, unresolved: bool, resume: bool)
    requires
        from is Leased || from is Running || from is RetryWait,
    ensures
        from.may_become(RunState::NeedsReconciliation, unresolved, resume),
{
}

/// Reconciliation ends in failure, or in the queue upon an explicit resume.
pub proof fn reconciliation_needs_a_decision(to: RunState, unresolved: bool, resume: bool)
    requires
        RunState::NeedsReconciliation.may_become(to, unresolved, resume),
    ensures
        !unresolved,
        to is Failed || (to is Queued && resume),
{
}

/// A known outcome is never revised.
pub proof fn resolved_effects_are_final(
    from: EffectState,
    to: EffectState,
    evidenced: bool,
    retry: bool,
)
    requires
        from.is_resolved_outcome(),
    ensures
        !from.may_become(to, evidenced, retry),
{
}

/// An unknown outcome is left only upon evidence or an eligible retry.
pub proof fn unknown_outcomes_need_cause(to: EffectState, evidenced: bool, retry: bool)
    requires
        EffectState::OutcomeUnknown.may_become(to, evidenced, retry),
    ensures
        (evidenced && to.is_resolved_outcome()) || (retry && to is Dispatching),
{
}

/// No outcome is recorded for an effect that was never dispatched.
pub proof fn outcomes_follow_dispatch(
    from: EffectState,
    to: EffectState,
    evidenced: bool,
    retry: bool,
)
    requires
        from.may_become(to, evidenced, retry),
        to.is_resolved_outcome() || to is OutcomeUnknown,
    ensures
        from.is_unresolved(),
{
}

/// The runs of a state come from few others: a run is leased out of the queue,
/// runs under its lease, and succeeds while it runs; back to the queue it comes
/// from everywhere but the queue and its ends.
pub proof fn runs_come_to_a_state_by_few_ways(
    from: RunState,
    to: RunState,
    unresolved: bool,
    resume: bool,
)
    requires
        from.may_become(to, unresolved, resume),
    ensures
        to is Leased ==> from is Queued,
        to is Running ==> from is Leased,
        to is Succeeded ==> from is Running,
        to is RetryWait ==> from is Leased || from is Running,
        to is NeedsReconciliation ==> from is Leased || from is Running || from is RetryWait,
        to is Cancelled ==> from is Queued || from is Leased || from is Running
            || from is RetryWait,
        to is Queued ==> from is Leased || from is Running || from is RetryWait || (
        from is NeedsReconciliation && resume),
        to is Failed ==> !(from is Succeeded || from is Failed || from is Cancelled),
        to != from,
{
}

/// Where no effect is unresolved, every step of a run's ordinary life is open:
/// to its lease, to its start, to each of its ends, and back to the queue.
pub proof fn ordinary_life_is_open(from: RunState, resume: bool)
    ensures
        RunState::Queued.may_become(RunState::Leased, false, resume),
        RunState::Leased.may_become(RunState::Running, false, resume),
        RunState::Running.may_become(RunState::Succeeded, false, resume),
        from is Leased || from is Running || from is RetryWait ==> from.may_become(
            RunState::Queued,
            false,
            resume,
        ),
        from is Leased || from is Running ==> from.may_become(RunState::RetryWait, false, resume),
        from is Queued || from is Leased || from is Running || from is RetryWait
            ==> from.may_become(RunState::Cancelled, false, resume),
        !(from is Succeeded || from is Failed || from is Cancelled) ==> from.may_become(
            RunState::Failed,
            false,
            resume,
        ),
        RunState::NeedsReconciliation.may_become(RunState::Queued, false, true),
        RunState::Queued.may_become(RunState::Leased, true, resume),
        RunState::Leased.may_become(RunState::Running, true, resume),
{
}

/// A run has ended exactly where no step leads on, whatever is decided.
pub proof fn ends_are_where_no_step_leads_on(state: RunState)
    ensures
        state.is_terminal() <==> forall|to: RunState| !#[trigger] state.may_become(to, false, true),
{
    assert(state.may_become(RunState::Failed, false, true) || state is Succeeded || state is Failed
        || state is Cancelled);
}

/// An effect is unresolved exactly where evidence could still settle it either
/// way.
pub proof fn unresolved_effects_could_still_be_settled(state: EffectState)
    ensures
        state.is_unresolved() <==> state.may_become(EffectState::Committed, true, false),
        state.is_unresolved() <==> state.may_become(EffectState::DefinitelyFailed, true, false),
{
}

/// The life of an effect: it is dispatched once prepared, or again upon an
/// eligible retry of an unknown outcome; a dispatch ends in any outcome, and
/// evidence settles an unknown one. Nothing leads back to its preparation.
pub proof fn effects_are_dispatched_then_settled(
    from: EffectState,
    to: EffectState,
    evidenced: bool,
    retry: bool,
)
    ensures
        !from.may_become(EffectState::Prepared, evidenced, retry),
        from.may_become(EffectState::Dispatching, evidenced, retry) <==> from is Prepared || (
        from is OutcomeUnknown && retry),
        from.may_become(EffectState::OutcomeUnknown, evidenced, retry) <==> from is Dispatching,
        to is Committed || to is DefinitelyFailed ==> (from.may_become(to, evidenced, retry) <==>
        from is Dispatching || (from is OutcomeUnknown && evidenced)),
{
}

/// A run with an effect unresolved may neither end nor wait to be tried again.
pub proof fn ends_and_retries_need_resolved_effects(state: RunState)
    ensures
        state.needs_resolved_effects() <==> !(state is Leased || state is Running
            || state is NeedsReconciliation),
{
}

/// What may follow each state: every step of the life of a run, and no other.
pub proof fn steps_of_a_run(from: RunState, to: RunState, explicit_resume: bool)
    ensures
        from.may_follow(to, explicit_resume) ==> !(from is Succeeded || from is Failed
            || from is Cancelled),
        to is Leased ==> (from.may_follow(to, explicit_resume) <==> from is Queued),
        to is Running ==> (from.may_follow(to, explicit_resume) <==> from is Leased),
        to is Succeeded ==> (from.may_follow(to, explicit_resume) <==> from is Running),
        to is RetryWait ==> (from.may_follow(to, explicit_resume) <==> from is Leased
            || from is Running),
        to is Queued ==> (from.may_follow(to, explicit_resume) <==> from is Leased
            || from is Running || from is RetryWait || (from is NeedsReconciliation
            && explicit_resume)),
        to is Cancelled ==> (from.may_follow(to, explicit_resume) <==> from is Queued
            || from is Leased || from is Running || from is RetryWait),
        to is Failed ==> (from.may_follow(to, explicit_resume) <==> !(from is Succeeded
            || from is Failed || from is Cancelled)),
        to is NeedsReconciliation ==> (from.may_follow(to, explicit_resume) <==> from is Leased
            || from is Running || from is RetryWait),
{
}

} // verus!
