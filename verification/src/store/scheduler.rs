//! The durable scheduler and the fencing of leases. Every change of a slot is
//! made under the scheduler's lock, then that of the tenant, then that of the run.
use vstd::prelude::*;

use crate::bytes;
use crate::domain::limits::PAYLOAD_BYTES;
use crate::domain::state::RunState;
use crate::ids;
use crate::ids::Uuid;
use crate::runtime::ipc;
use crate::store;
use crate::store::{
    digest_array, has_open, has_uncertain, live_grant, live_until, state_name, state_payload,
    worker_identifier, GrantTime, Store, StoreError,
};
use crate::text;

verus! {

/// What a worker gets with a claimed run.
#[derive(Debug)]
pub struct Lease {
    pub tenant: Uuid,
    pub run: Uuid,
    pub epoch: i64,
    pub expires_at: String,
    pub module_digest: [u8; 32],
    pub module: Vec<u8>,
    pub input: Vec<u8>,
    pub limits_json: String,
}

#[derive(Debug)]
pub struct Heartbeat {
    pub expires_at: String,
    pub cancel_requested: bool,
}

#[derive(Clone, Copy, Debug, PartialEq, Eq, Structural)]
pub struct ClaimPolicy {
    pub max_active_global: u8,
    pub max_active_per_tenant: u8,
    pub max_attempts: u8,
    pub lease_ms: u64,
}

#[derive(Clone, Copy, Debug, PartialEq, Eq, Structural)]
pub struct ReapPolicy {
    pub max_attempts: u8,
    pub max_pending_global: u64,
    pub max_pending_tenant: u64,
}

/// What became of a run whose lease had expired, or that waited for a retry.
#[derive(Clone, Copy, Debug, PartialEq, Eq, Structural)]
pub enum Reaped {
    Requeued,
    WaitingForQueue,
    NeedsReconciliation,
    Cancelled,
    Failed,
}

/// The part of a stored run that scheduling reads and writes.
#[derive(Debug)]
pub struct RunRow {
    pub state: String,
    /// The run holds one of its tenant's active slots.
    pub held: bool,
    pub owner: Option<String>,
    /// When the lease ends, in microseconds, where there is one.
    pub lease_until_us: Option<i64>,
    pub epoch: i64,
    pub attempt: i32,
    pub cancel_requested: bool,
}

/// The part of a stored run that scheduling reads and writes.
#[verifier::ext_equal]
pub struct RunRowView {
    pub state: Seq<char>,
    pub held: bool,
    pub owner: Option<Seq<char>>,
    pub lease_until_us: Option<i64>,
    pub epoch: int,
    pub attempt: int,
    pub cancel_requested: bool,
}

impl View for RunRow {
    type V = RunRowView;

    open spec fn view(&self) -> RunRowView {
        RunRowView {
            state: self.state@,
            held: self.held,
            owner: ipc::optional_text(self.owner),
            lease_until_us: self.lease_until_us,
            epoch: self.epoch as int,
            attempt: self.attempt as int,
            cancel_requested: self.cancel_requested,
        }
    }
}

/// An event that goes with a change.
#[derive(Debug)]
pub struct NewEvent {
    pub kind: &'static str,
    pub payload: String,
}

impl NewEvent {
    /// The event has this kind and says this.
    pub open spec fn says(self, kind: Seq<char>, payload: Seq<char>) -> bool {
        self.kind@ == kind && self.payload@ == payload
    }
}

impl RunRowView {
    /// The lease ends after now.
    pub open spec fn is_running_at(self, now_us: i64) -> bool {
        self.lease_until_us matches Some(until) && until > now_us
    }

    /// The lease has ended by now.
    pub open spec fn has_ended_by(self, now_us: i64) -> bool {
        self.lease_until_us matches Some(until) && until <= now_us
    }

    /// The worker holds the run's lease at the epoch, and the lease is live.
    pub open spec fn is_leased_to(self, worker: Seq<char>, epoch: i64, now_us: i64) -> bool {
        &&& self.owner == Some(worker)
        &&& self.epoch == epoch
        &&& self.is_running_at(now_us)
        &&& self.held
    }

    /// Once leased to a worker for a while, at the next epoch and attempt.
    pub open spec fn leased(self, worker: Seq<char>, until_us: i64) -> RunRowView {
        RunRowView {
            state: store::name_of(RunState::Leased),
            held: true,
            owner: Some(worker),
            lease_until_us: Some(until_us),
            epoch: self.epoch + 1,
            attempt: self.attempt + 1,
            ..self
        }
    }

    /// With its lease renewed.
    pub open spec fn renewed(self, until_us: i64) -> RunRowView {
        RunRowView { lease_until_us: Some(until_us), ..self }
    }

    /// In another state.
    pub open spec fn moved(self, state: RunState) -> RunRowView {
        RunRowView { state: store::name_of(state), ..self }
    }

    /// In another state, with its slot and its lease given up.
    pub open spec fn released(self, state: RunState) -> RunRowView {
        RunRowView {
            state: store::name_of(state),
            held: false,
            owner: None,
            lease_until_us: None,
            ..self
        }
    }
}

/// Whether a text is the stored name of a state.
fn is_state(stored: &str, state: RunState) -> (r: bool)
    ensures
        r == (stored@ == store::name_of(state)),
{
    text::text_equal(stored, state_name(state))
}

/// Whether an owner is the worker.
fn is_owner(owner: &Option<String>, worker: &str) -> (r: bool)
    ensures
        r == (ipc::optional_text(*owner) == Some(worker@)),
{
    match owner {
        Some(owner) => text::text_equal(owner.as_str(), worker),
        None => false,
    }
}

/// A queued run of a tenant.
#[derive(Clone, Copy, Debug, PartialEq, Eq, Structural)]
pub struct QueuedRun {
    pub run: Uuid,
    pub created_us: i64,
    pub attempt: i32,
    pub cancel_requested: bool,
}

impl QueuedRun {
    /// The run may be tried: it is not to be cancelled, and has attempts left.
    pub open spec fn is_due(self, max_attempts: u8) -> bool {
        !self.cancel_requested && self.attempt < max_attempts
    }

    /// The run was queued before the other, or at once and comes first.
    pub open spec fn comes_before(self, other: QueuedRun) -> bool {
        ||| self.created_us < other.created_us
        ||| self.created_us == other.created_us && self.run.value <= other.run.value
    }
}

/// A tenant with its queued runs.
#[derive(Debug)]
pub struct TenantCandidate {
    pub tenant: Uuid,
    pub active_count: i32,
    pub active_limit: i32,
    /// When the tenant was last served, as a place in the order of dispatches.
    pub last_served_seq: i64,
    pub queued: Vec<QueuedRun>,
}

/// The run is due, and comes before every other of the queue that is.
pub open spec fn is_oldest(queued: Seq<QueuedRun>, max_attempts: u8, chosen: QueuedRun) -> bool {
    &&& queued.contains(chosen)
    &&& chosen.is_due(max_attempts)
    &&& forall|i: int|
        0 <= i < queued.len() && (#[trigger] queued[i]).is_due(max_attempts)
            ==> chosen.comes_before(queued[i])
}

/// No run of the queue is due.
pub open spec fn none_due(queued: Seq<QueuedRun>, max_attempts: u8) -> bool {
    forall|i: int| 0 <= i < queued.len() ==> !(#[trigger] queued[i]).is_due(max_attempts)
}

/// The oldest run of a queue that may be tried.
fn oldest_run(queued: &[QueuedRun], max_attempts: u8) -> (r: Option<QueuedRun>)
    ensures
        match r {
            Some(chosen) => is_oldest(queued@, max_attempts, chosen),
            None => none_due(queued@, max_attempts),
        },
{
    let mut best: Option<QueuedRun> = None;
    let mut i: usize = 0;
    while i < queued.len()
        invariant
            i <= queued.len(),
            match best {
                Some(chosen) => {
                    &&& queued@.contains(chosen)
                    &&& chosen.is_due(max_attempts)
                    &&& forall|k: int|
                        0 <= k < i && (#[trigger] queued@[k]).is_due(max_attempts)
                            ==> chosen.comes_before(queued@[k])
                },
                None => forall|k: int|
                    0 <= k < i ==> !(#[trigger] queued@[k]).is_due(max_attempts),
            },
        decreases queued.len() - i,
    {
        let candidate = queued[i];
        if !candidate.cancel_requested && candidate.attempt < max_attempts as i32 {
            let better = match best {
                Some(chosen) => candidate.created_us < chosen.created_us || (candidate.created_us
                    == chosen.created_us && candidate.run.value < chosen.run.value),
                None => true,
            };
            if better {
                best = Some(candidate);
            }
        }
        i = i + 1;
    }
    best
}

impl TenantCandidate {
    /// The worker may serve the tenant, which has a run to serve and room for it.
    pub open spec fn is_eligible(self, allowed: Seq<Uuid>, policy: ClaimPolicy) -> bool {
        &&& allowed.contains(self.tenant)
        &&& !none_due(self.queued@, policy.max_attempts)
        &&& self.active_count < self.active_limit
        &&& self.active_count < policy.max_active_per_tenant
    }

    /// The tenant was served longer ago, or as long ago and comes first.
    pub open spec fn comes_before(self, other: TenantCandidate) -> bool {
        ||| self.last_served_seq < other.last_served_seq
        ||| self.last_served_seq == other.last_served_seq && self.tenant.value
            <= other.tenant.value
    }
}

/// The candidate at a place is eligible, and comes before every other that is.
pub open spec fn is_next(
    candidates: Seq<TenantCandidate>,
    allowed: Seq<Uuid>,
    policy: ClaimPolicy,
    at: int,
) -> bool {
    &&& 0 <= at < candidates.len()
    &&& candidates[at].is_eligible(allowed, policy)
    &&& forall|i: int|
        0 <= i < candidates.len() && (#[trigger] candidates[i]).is_eligible(allowed, policy)
            ==> candidates[at].comes_before(candidates[i])
}

/// The tenant that was served longest ago among those that may be served, and
/// the oldest of its runs that may be tried.
fn next_tenant(candidates: &[TenantCandidate], allowed: &[Uuid], policy: ClaimPolicy) -> (r: Option<
    (usize, QueuedRun),
>)
    ensures
        match r {
            Some((at, chosen)) => {
                &&& is_next(candidates@, allowed@, policy, at as int)
                &&& is_oldest(candidates@[at as int].queued@, policy.max_attempts, chosen)
            },
            None => forall|i: int|
                0 <= i < candidates@.len() ==> !(#[trigger] candidates@[i]).is_eligible(
                    allowed@,
                    policy,
                ),
        },
{
    let mut best: Option<(usize, QueuedRun)> = None;
    let mut i: usize = 0;
    while i < candidates.len()
        invariant
            i <= candidates.len(),
            match best {
                Some((at, chosen)) => {
                    &&& at < i
                    &&& candidates@[at as int].is_eligible(allowed@, policy)
                    &&& is_oldest(candidates@[at as int].queued@, policy.max_attempts, chosen)
                    &&& forall|k: int|
                        0 <= k < i && (#[trigger] candidates@[k]).is_eligible(allowed@, policy)
                            ==> candidates@[at as int].comes_before(candidates@[k])
                },
                None => forall|k: int|
                    0 <= k < i ==> !(#[trigger] candidates@[k]).is_eligible(allowed@, policy),
            },
        decreases candidates.len() - i,
    {
        let candidate = &candidates[i];
        let oldest = oldest_run(candidate.queued.as_slice(), policy.max_attempts);
        let room = candidate.active_count < candidate.active_limit && candidate.active_count
            < policy.max_active_per_tenant as i32 && ids::holds_id(allowed, candidate.tenant);
        if let Some(run) = oldest {
            assert(!none_due(candidate.queued@, policy.max_attempts)) by {
                let k = choose|k: int|
                    0 <= k < candidate.queued@.len() && candidate.queued@[k] == run;
                assert(candidate.queued@[k].is_due(policy.max_attempts));
            }
            let better = match &best {
                Some((at, _)) => {
                    let chosen = &candidates[*at];
                    candidate.last_served_seq < chosen.last_served_seq || (candidate.last_served_seq
                        == chosen.last_served_seq && candidate.tenant.value < chosen.tenant.value)
                },
                None => true,
            };
            if room && better {
                best = Some((i, run));
            }
        }
        i = i + 1;
    }
    best
}

impl ClaimPolicy {
    /// One to four runs at a time, one per tenant, one to three attempts, and
    /// leases of up to six seconds.
    pub open spec fn is_valid(self) -> bool {
        &&& 1 <= self.max_active_global <= 4
        &&& self.max_active_per_tenant == 1
        &&& 1 <= self.max_attempts <= 3
        &&& 1 <= self.lease_ms <= 6000
    }

    fn valid(&self) -> (r: bool)
        ensures
            r == self.is_valid(),
    {
        1 <= self.max_active_global && self.max_active_global <= 4 && self.max_active_per_tenant
            == 1 && 1 <= self.max_attempts && self.max_attempts <= 3 && 1 <= self.lease_ms
            && self.lease_ms <= 6000
    }
}

/// A worker may ask for a run.
pub open spec fn may_claim(
    worker: Seq<char>,
    allowed: Seq<Uuid>,
    available_slots: u8,
    policy: ClaimPolicy,
) -> bool {
    &&& text::is_alias(worker)
    &&& 1 <= allowed.len() <= 1024
    &&& 1 <= available_slots <= 2
    &&& policy.is_valid()
}

/// What the event of a claim says.
pub open spec fn claim_payload_text(epoch: int, worker: Seq<char>) -> Seq<char> {
    "{\"epoch\":"@ + text::integer_chars(epoch) + ",\"worker_id\":\""@ + worker + "\"}"@
}

/// What the event of a claim says. A worker's name needs no escape in it.
fn claim_payload(epoch: i64, worker: &str) -> (r: String)
    ensures
        r@ == claim_payload_text(epoch as int, worker@),
{
    let mut out = text::copy_text("{\"epoch\":");
    let number = text::integer_text(epoch);
    out.append(number.as_str());
    out.append(",\"worker_id\":\"");
    out.append(worker);
    out.append("\"}");
    out
}

/// What is read of a chosen run before it is leased.
#[derive(Debug)]
pub struct ClaimFacts {
    pub active_count: i32,
    pub active_limit: i32,
    pub row: RunRow,
    /// The grants of the run's chain, or why the chain could not be loaded.
    pub grants: Result<Vec<GrantTime>, StoreError>,
    /// The last place in the order of dispatches.
    pub dispatch_seq: i64,
    pub module_digest: Vec<u8>,
    /// The clock, in microseconds.
    pub now_us: i64,
}

/// What to do with a chosen run.
#[derive(Debug)]
pub enum ClaimPlan {
    /// Its grant is not live: it fails.
    Deny { row: RunRow, error_code: &'static str, events: Vec<NewEvent> },
    /// It is leased.
    Lease {
        row: RunRow,
        active_count: i32,
        dispatch_seq: i64,
        module_digest: [u8; 32],
        event: NewEvent,
    },
}

impl ClaimFacts {
    /// The slot or the run is not as a chosen one must be.
    pub open spec fn is_corrupt(self, policy: ClaimPolicy) -> bool {
        ||| self.active_count < 0
        ||| self.active_count >= self.active_limit
        ||| self.active_count >= policy.max_active_per_tenant
        ||| self.row@.state != store::name_of(RunState::Queued)
        ||| self.row@.held
        ||| self.row@.epoch == i64::MAX
        ||| self.row@.attempt >= policy.max_attempts
    }
}

/// When a lease taken or renewed now ends: after its time, or with the grant.
pub open spec fn lease_end(now_us: i64, lease_ms: u64, grant_expires_us: i64) -> i64 {
    if now_us + 1000 * lease_ms <= grant_expires_us {
        (now_us + 1000 * lease_ms) as i64
    } else {
        grant_expires_us
    }
}

fn lease_end_us(now_us: i64, lease_ms: u64, grant_expires_us: i64) -> (r: i64)
    ensures
        r == lease_end(now_us, lease_ms, grant_expires_us),
{
    let timed: i128 = now_us as i128 + 1000 * lease_ms as i128;
    if timed <= grant_expires_us as i128 {
        timed as i64
    } else {
        grant_expires_us
    }
}

/// A lease outlives none of the grants that the run stands on, nor its own
/// time; and it has some time, as long as the grants are live.
pub proof fn lease_never_outlives_its_grants(now_us: i64, lease_ms: u64, grants: Seq<GrantTime>)
    requires
        store::are_live(grants, now_us),
    ensures
        ({
            let end = lease_end(now_us, lease_ms, store::earliest_expiry(grants));
            &&& forall|i: int| 0 <= i < grants.len() ==> end <= (#[trigger] grants[i]).expires_us
            &&& end <= now_us + 1000 * lease_ms
            &&& lease_ms > 0 ==> end > now_us
        }),
{
    store::earliest_expiry_is_first(grants);
    let k = choose|k: int|
        0 <= k < grants.len() && (#[trigger] grants[k]).expires_us == store::earliest_expiry(
            grants,
        );
    assert(grants[k].is_live(now_us));
}

impl Store {
    /// Choose the run that a worker gets, if any: the oldest of the tenant that
    /// was served longest ago. The tenants allowed come from the worker's
    /// credential, never from its request.
    pub fn choose_run(
        worker: &str,
        allowed_tenants: &[Uuid],
        available_slots: u8,
        policy: ClaimPolicy,
        active: i64,
        worker_active: i64,
        candidates: &[TenantCandidate],
    ) -> (r: Result<Option<(Uuid, Uuid)>, StoreError>)
        ensures
            if !may_claim(worker@, allowed_tenants@, available_slots, policy) {
                r is Err && r->Err_0.refuses("invalid claim parameters"@)
            } else if !(0 <= active <= 4) {
                r is Err && r->Err_0 is CorruptScheduler
            } else if active >= policy.max_active_global || worker_active >= 2 {
                r == Ok::<Option<(Uuid, Uuid)>, StoreError>(None)
            } else {
                match r {
                    Ok(Some((tenant, run))) => exists|at: int, chosen: QueuedRun|
                        {
                            &&& #[trigger] is_next(candidates@, allowed_tenants@, policy, at)
                            &&& candidates@[at].tenant == tenant
                            &&& #[trigger] is_oldest(
                                candidates@[at].queued@,
                                policy.max_attempts,
                                chosen,
                            )
                            &&& chosen.run == run
                        },
                    Ok(None) => forall|i: int|
                        0 <= i < candidates@.len() ==> !(#[trigger] candidates@[i]).is_eligible(
                            allowed_tenants@,
                            policy,
                        ),
                    Err(_) => false,
                }
            },
    {
        if !worker_identifier(worker) || allowed_tenants.len() == 0 || allowed_tenants.len() > 1024
            || available_slots < 1 || available_slots > 2 || !policy.valid() {
            return Err(StoreError::Configuration("invalid claim parameters"));
        }
        if active < 0 || active > 4 {
            return Err(StoreError::CorruptScheduler);
        }
        if active >= policy.max_active_global as i64 || worker_active >= 2 {
            return Ok(None);
        }
        match next_tenant(candidates, allowed_tenants, policy) {
            Some((at, chosen)) => {
                assert(is_next(candidates@, allowed_tenants@, policy, at as int));
                assert(is_oldest(candidates@[at as int].queued@, policy.max_attempts, chosen));
                Ok(Some((candidates[at].tenant, chosen.run)))
            },
            None => Ok(None),
        }
    }

    /// Claim a chosen run: lease it, or fail it where its grant is not live.
    pub fn claim_run(worker: &str, policy: ClaimPolicy, facts: ClaimFacts) -> (r: Result<
        ClaimPlan,
        StoreError,
    >)
        ensures
            if !text::is_alias(worker@) || !policy.is_valid() {
                r is Err && r->Err_0.refuses("invalid claim parameters"@)
            } else if facts.is_corrupt(policy) {
                r is Err && r->Err_0 is CorruptScheduler
            } else {
                match facts.grants {
                    Err(error) => r == Err::<ClaimPlan, StoreError>(error),
                    Ok(grants) => if !store::are_live(grants@, facts.now_us) {
                        r matches Ok(ClaimPlan::Deny { row, error_code, events }) && {
                            &&& row@ == facts.row@.moved(RunState::Failed)
                            &&& error_code@ == "GRANT_DENIED"@
                            &&& events@.len() == 2
                            &&& events@[0].says("grant.denied"@, "{\"reason\":\"inactive\"}"@)
                            &&& events@[1].says(
                                "run.failed"@,
                                "{\"state\":\"failed\",\"error_code\":\"GRANT_DENIED\"}"@,
                            )
                        }
                    } else if facts.dispatch_seq == i64::MAX {
                        r is Err && r->Err_0 is CorruptScheduler
                    } else if facts.module_digest@.len() != 32 {
                        r is Err && r->Err_0 is IncompatibleSchema
                    } else {
                        r matches Ok(
                            ClaimPlan::Lease {
                                row,
                                active_count,
                                dispatch_seq,
                                module_digest,
                                event,
                            },
                        ) && {
                            &&& row@ == facts.row@.leased(
                                worker@,
                                lease_end(
                                    facts.now_us,
                                    policy.lease_ms,
                                    store::earliest_expiry(grants@),
                                ),
                            )
                            &&& active_count == facts.active_count + 1
                            &&& dispatch_seq == facts.dispatch_seq + 1
                            &&& module_digest@ == facts.module_digest@
                            &&& event.says(
                                "lease.claimed"@,
                                claim_payload_text(facts.row@.epoch + 1, worker@),
                            )
                        }
                    },
                }
            },
    {
        if !worker_identifier(worker) || !policy.valid() {
            return Err(StoreError::Configuration("invalid claim parameters"));
        }
        if facts.active_count < 0 || facts.active_count >= facts.active_limit || facts.active_count
            >= policy.max_active_per_tenant as i32 {
            return Err(StoreError::CorruptScheduler);
        }
        let row = facts.row;
        if !is_state(row.state.as_str(), RunState::Queued) || row.held || row.epoch == i64::MAX
            || row.attempt >= policy.max_attempts as i32 {
            return Err(StoreError::CorruptScheduler);
        }
        let grants = match facts.grants {
            Ok(grants) => grants,
            Err(error) => return Err(error),
        };
        let grant_expires_us: i64 = match live_until(grants.as_slice(), facts.now_us) {
            Some(expires_us) => expires_us,
            None => {
                let mut events: Vec<NewEvent> = Vec::new();
                events.push(
                    NewEvent {
                        kind: "grant.denied",
                        payload: text::copy_text("{\"reason\":\"inactive\"}"),
                    },
                );
                events.push(
                    NewEvent {
                        kind: "run.failed",
                        payload: text::copy_text(
                            "{\"state\":\"failed\",\"error_code\":\"GRANT_DENIED\"}",
                        ),
                    },
                );
                let failed = RunRow { state: text::copy_text(state_name(RunState::Failed)), ..row };
                return Ok(ClaimPlan::Deny { row: failed, error_code: "GRANT_DENIED", events });
            },
        };
        if facts.dispatch_seq == i64::MAX {
            return Err(StoreError::CorruptScheduler);
        }
        let module_digest = match digest_array(facts.module_digest.as_slice()) {
            Some(digest) => digest,
            None => return Err(StoreError::IncompatibleSchema),
        };
        let epoch: i64 = row.epoch + 1;
        let leased = RunRow {
            state: text::copy_text(state_name(RunState::Leased)),
            held: true,
            owner: Some(text::copy_text(worker)),
            lease_until_us: Some(lease_end_us(facts.now_us, policy.lease_ms, grant_expires_us)),
            epoch,
            attempt: row.attempt + 1,
            cancel_requested: row.cancel_requested,
        };
        Ok(
            ClaimPlan::Lease {
                row: leased,
                active_count: facts.active_count + 1,
                dispatch_seq: facts.dispatch_seq + 1,
                module_digest,
                event: NewEvent { kind: "lease.claimed", payload: claim_payload(epoch, worker) },
            },
        )
    }
}

/// What is read of a run when a worker reports on it.
#[derive(Debug)]
pub struct LeaseFacts {
    pub tenant: Uuid,
    pub row: RunRow,
    /// The clock, in microseconds.
    pub now_us: i64,
}

impl LeaseFacts {
    /// The worker holds the run's live lease at the epoch.
    pub open spec fn is_leased_to(self, worker: Seq<char>, epoch: i64) -> bool {
        self.row@.is_leased_to(worker, epoch, self.now_us)
    }

    fn leased_to(&self, worker: &str, epoch: i64) -> (r: bool)
        ensures
            r == self.is_leased_to(worker@, epoch),
    {
        let live = match self.row.lease_until_us {
            Some(until) => until > self.now_us,
            None => false,
        };
        is_owner(&self.row.owner, worker) && self.row.epoch == epoch && live && self.row.held
    }
}

/// The run is one that the worker may report on.
pub open spec fn is_known(facts: Option<LeaseFacts>, allowed: Seq<Uuid>) -> bool {
    facts matches Some(facts) && allowed.contains(facts.tenant)
}

/// How a lease is renewed, and what the worker is told.
#[derive(Debug)]
pub struct HeartbeatPlan {
    pub row: RunRow,
    pub cancel_requested: bool,
}

/// How a run starts.
#[derive(Debug)]
pub struct StartPlan {
    pub row: RunRow,
    pub event: NewEvent,
}

impl RunRowView {
    /// The run is leased or running.
    pub open spec fn is_active(self) -> bool {
        self.state == store::name_of(RunState::Leased) || self.state == store::name_of(RunState::Running)
    }
}

impl Store {
    /// Renew a lease. Database time and the stored owner and epoch decide: a
    /// worker that missed the end of its lease cannot revive it.
    pub fn heartbeat_run(
        worker: &str,
        allowed_tenants: &[Uuid],
        epoch: i64,
        lease_ms: u64,
        facts: Option<LeaseFacts>,
        grant: Option<GrantTime>,
    ) -> (r: Result<HeartbeatPlan, StoreError>)
        ensures
            if !text::is_alias(worker@) || epoch <= 0 || !(1 <= lease_ms <= 6000) {
                r is Err && r->Err_0.refuses("invalid heartbeat parameters"@)
            } else if !is_known(facts, allowed_tenants@) {
                r is Err && r->Err_0 is RunNotFound
            } else if !facts->0.is_leased_to(worker@, epoch) || !facts->0.row@.is_active()
                || !store::is_live_grant(grant, facts->0.now_us) {
                r is Err && r->Err_0 is LeaseConflict
            } else {
                r matches Ok(plan) && {
                    &&& plan.row@ == facts->0.row@.renewed(
                        lease_end(facts->0.now_us, lease_ms, grant->0.expires_us),
                    )
                    &&& plan.cancel_requested == facts->0.row.cancel_requested
                }
            },
    {
        if !worker_identifier(worker) || epoch <= 0 || lease_ms < 1 || lease_ms > 6000 {
            return Err(StoreError::Configuration("invalid heartbeat parameters"));
        }
        let facts = match facts {
            Some(facts) => facts,
            None => return Err(StoreError::RunNotFound),
        };
        if !ids::holds_id(allowed_tenants, facts.tenant) {
            return Err(StoreError::RunNotFound);
        }
        let active = is_state(facts.row.state.as_str(), RunState::Leased) || is_state(
            facts.row.state.as_str(),
            RunState::Running,
        );
        if !facts.leased_to(worker, epoch) || !active || !live_grant(grant, facts.now_us) {
            return Err(StoreError::LeaseConflict);
        }
        let grant_expires_us: i64 = match grant {
            Some(grant) => grant.expires_us,
            None => return Err(StoreError::LeaseConflict),
        };
        let cancel_requested = facts.row.cancel_requested;
        let row = RunRow {
            lease_until_us: Some(lease_end_us(facts.now_us, lease_ms, grant_expires_us)),
            ..facts.row
        };
        Ok(HeartbeatPlan { row, cancel_requested })
    }

    /// Record that the runner is ready, under the live lease alone. Said again
    /// of a running run, it changes nothing and leaves no event.
    pub fn mark_run_started(
        worker: &str,
        allowed_tenants: &[Uuid],
        epoch: i64,
        facts: Option<LeaseFacts>,
    ) -> (r: Result<Option<StartPlan>, StoreError>)
        ensures
            if !text::is_alias(worker@) || epoch <= 0 {
                r is Err && r->Err_0.refuses("invalid started parameters"@)
            } else if !is_known(facts, allowed_tenants@) {
                r is Err && r->Err_0 is RunNotFound
            } else if !facts->0.is_leased_to(worker@, epoch) || !facts->0.row@.is_active() {
                r is Err && r->Err_0 is LeaseConflict
            } else if facts->0.row@.state == store::name_of(RunState::Leased) {
                r matches Ok(Some(plan)) && {
                    &&& plan.row@ == facts->0.row@.moved(RunState::Running)
                    &&& plan.event.says("runner.started"@, store::state_payload_text(RunState::Running))
                }
            } else {
                r == Ok::<Option<StartPlan>, StoreError>(None)
            },
    {
        if !worker_identifier(worker) || epoch <= 0 {
            return Err(StoreError::Configuration("invalid started parameters"));
        }
        let facts = match facts {
            Some(facts) => facts,
            None => return Err(StoreError::RunNotFound),
        };
        if !ids::holds_id(allowed_tenants, facts.tenant) {
            return Err(StoreError::RunNotFound);
        }
        let leased = is_state(facts.row.state.as_str(), RunState::Leased);
        let running = is_state(facts.row.state.as_str(), RunState::Running);
        if !facts.leased_to(worker, epoch) || !(leased || running) {
            return Err(StoreError::LeaseConflict);
        }
        if !leased {
            return Ok(None);
        }
        let row = RunRow { state: text::copy_text(state_name(RunState::Running)), ..facts.row };
        Ok(
            Some(
                StartPlan {
                    row,
                    event: NewEvent {
                        kind: "runner.started",
                        payload: state_payload(RunState::Running),
                    },
                },
            ),
        )
    }
}

impl ReapPolicy {
    pub open spec fn is_valid(self) -> bool {
        &&& 1 <= self.max_attempts <= 3
        &&& 1 <= self.max_pending_global <= 1000
        &&& 1 <= self.max_pending_tenant <= 100
        &&& self.max_pending_tenant <= self.max_pending_global
    }

    fn check(&self) -> (r: Result<(), StoreError>)
        ensures
            match r {
                Ok(()) => self.is_valid(),
                Err(error) => !self.is_valid() && error.refuses("invalid reaper limits"@),
            },
    {
        if self.max_attempts < 1 || self.max_attempts > 3 || self.max_pending_global < 1
            || self.max_pending_global > 1000 || self.max_pending_tenant < 1
            || self.max_pending_tenant > 100 || self.max_pending_tenant > self.max_pending_global {
            return Err(StoreError::Configuration("invalid reaper limits"));
        }
        Ok(())
    }
}

impl Reaped {
    /// The state that the run is left in.
    pub open spec fn state(self) -> RunState {
        match self {
            Reaped::Requeued => RunState::Queued,
            Reaped::WaitingForQueue => RunState::RetryWait,
            Reaped::NeedsReconciliation => RunState::NeedsReconciliation,
            Reaped::Cancelled => RunState::Cancelled,
            Reaped::Failed => RunState::Failed,
        }
    }

    /// The kind of event that it leaves.
    pub open spec fn event(self) -> Seq<char> {
        match self {
            Reaped::Requeued => "run.requeued"@,
            Reaped::WaitingForQueue => "run.retry_wait"@,
            Reaped::NeedsReconciliation => "run.needs_reconciliation"@,
            Reaped::Cancelled => "run.cancelled"@,
            Reaped::Failed => "run.failed"@,
        }
    }

    /// What becomes of a run. An effect that may have happened bars every
    /// replay; then a cancellation counts, then the attempts, then the room.
    pub open spec fn verdict(uncertain: bool, cancel: bool, spent: bool, full: bool) -> Reaped {
        if uncertain {
            Reaped::NeedsReconciliation
        } else if cancel {
            Reaped::Cancelled
        } else if spent {
            Reaped::Failed
        } else if full {
            Reaped::WaitingForQueue
        } else {
            Reaped::Requeued
        }
    }

    fn decide(uncertain: bool, cancel: bool, spent: bool, full: bool) -> (r: Reaped)
        ensures
            r == Reaped::verdict(uncertain, cancel, spent, full),
    {
        if uncertain {
            Reaped::NeedsReconciliation
        } else if cancel {
            Reaped::Cancelled
        } else if spent {
            Reaped::Failed
        } else if full {
            Reaped::WaitingForQueue
        } else {
            Reaped::Requeued
        }
    }

    fn run_state(self) -> (r: RunState)
        ensures
            r == self.state(),
    {
        match self {
            Reaped::Requeued => RunState::Queued,
            Reaped::WaitingForQueue => RunState::RetryWait,
            Reaped::NeedsReconciliation => RunState::NeedsReconciliation,
            Reaped::Cancelled => RunState::Cancelled,
            Reaped::Failed => RunState::Failed,
        }
    }

    fn new_event(self) -> (r: NewEvent)
        ensures
            r.says(self.event(), store::state_payload_text(self.state())),
    {
        let kind: &'static str = match self {
            Reaped::Requeued => "run.requeued",
            Reaped::WaitingForQueue => "run.retry_wait",
            Reaped::NeedsReconciliation => "run.needs_reconciliation",
            Reaped::Cancelled => "run.cancelled",
            Reaped::Failed => "run.failed",
        };
        NewEvent { kind, payload: state_payload(self.run_state()) }
    }
}

/// A run that waits for a retry, and how full its tenant's queue is.
#[derive(Clone, Copy, Debug, PartialEq, Eq, Structural)]
pub struct WaitingCandidate {
    pub tenant: Uuid,
    pub run: Uuid,
    pub tenant_pending: i64,
    pub queue_limit: i32,
}

impl WaitingCandidate {
    /// The tenant's queue has room under its own limit and the policy's.
    pub open spec fn has_room(self, policy: ReapPolicy) -> bool {
        &&& self.tenant_pending < self.queue_limit
        &&& self.tenant_pending < policy.max_pending_tenant
    }
}

/// A run that holds a slot.
#[derive(Debug)]
pub struct HeldRun {
    pub tenant: Uuid,
    pub run: Uuid,
    pub state: String,
    pub lease_until_us: Option<i64>,
}

impl HeldRun {
    /// The run is active, and its lease has ended.
    pub open spec fn is_expired(self, now_us: i64) -> bool {
        &&& self.state@ == store::name_of(RunState::Leased) || self.state@ == store::name_of(
            RunState::Running,
        )
        &&& self.lease_until_us matches Some(until) && until <= now_us
    }

    /// The lease ended before the other, or at once and comes first.
    pub open spec fn ended_before(self, other: HeldRun) -> bool {
        ||| self.lease_until_us->0 < other.lease_until_us->0
        ||| self.lease_until_us->0 == other.lease_until_us->0 && self.run.value <= other.run.value
    }

    fn expired(&self, now_us: i64) -> (r: bool)
        ensures
            r == self.is_expired(now_us),
    {
        let ended = match self.lease_until_us {
            Some(until) => until <= now_us,
            None => false,
        };
        ended && (is_state(self.state.as_str(), RunState::Leased) || is_state(
            self.state.as_str(),
            RunState::Running,
        ))
    }

    /// Whether the lease ends before that of another run.
    fn ends_sooner(&self, other: &HeldRun) -> (r: bool)
        ensures
            self.lease_until_us is Some && other.lease_until_us is Some ==> r
                == !other.ended_before(*self),
    {
        match (self.lease_until_us, other.lease_until_us) {
            (Some(own), Some(until)) => own < until || (own == until && self.run.value
                < other.run.value),
            _ => false,
        }
    }
}

/// The run at a place has an ended lease, and it ended before every other.
pub open spec fn is_first_ended(candidates: Seq<HeldRun>, now_us: i64, at: int) -> bool {
    &&& 0 <= at < candidates.len()
    &&& candidates[at].is_expired(now_us)
    &&& forall|i: int|
        0 <= i < candidates.len() && (#[trigger] candidates[i]).is_expired(now_us)
            ==> candidates[at].ended_before(candidates[i])
}

/// What is read of a run that waits for a retry.
#[derive(Debug)]
pub struct WaitingFacts {
    pub tenant: Uuid,
    pub run: Uuid,
    pub row: RunRow,
    /// The states of the run's effects.
    pub effects: Vec<String>,
}

/// What is read of a run whose lease seemed to have expired.
#[derive(Debug)]
pub struct ExpiredFacts {
    pub tenant: Uuid,
    pub run: Uuid,
    pub active_count: i32,
    pub queue_limit: i32,
    pub row: RunRow,
    /// The clock, in microseconds.
    pub now_us: i64,
    /// The states of the run's effects.
    pub effects: Vec<String>,
    pub tenant_pending: i64,
}

/// What to do with a run that was reassessed.
#[derive(Debug)]
pub struct ReapPlan {
    pub tenant: Uuid,
    pub run: Uuid,
    pub outcome: Reaped,
    pub row: RunRow,
    /// The tenant's active runs, where the run gives up its slot.
    pub active_count: Option<i32>,
    pub events: Vec<NewEvent>,
}

impl ExpiredFacts {
    /// The queues have no room for the run.
    pub open spec fn is_full(self, policy: ReapPolicy, global_pending: i64) -> bool {
        ||| global_pending >= policy.max_pending_global
        ||| self.tenant_pending >= self.queue_limit
        ||| self.tenant_pending >= policy.max_pending_tenant
    }
}

impl Store {
    /// Choose the waiting run to reassess, if any: the first, in the order of
    /// their creation, whose tenant's queue has room, while there is room at all.
    pub fn choose_waiting(
        policy: ReapPolicy,
        global_pending: i64,
        candidates: &[WaitingCandidate],
    ) -> (r: Result<Option<(Uuid, Uuid)>, StoreError>)
        ensures
            if !policy.is_valid() {
                r is Err && r->Err_0.refuses("invalid reaper limits"@)
            } else {
                match r {
                    Ok(Some((tenant, run))) => {
                        &&& global_pending < policy.max_pending_global
                        &&& exists|i: int|
                            {
                                &&& 0 <= i < candidates@.len()
                                &&& (#[trigger] candidates@[i]).has_room(policy)
                                &&& candidates@[i].tenant == tenant
                                &&& candidates@[i].run == run
                                &&& forall|j: int|
                                    0 <= j < i ==> !(#[trigger] candidates@[j]).has_room(policy)
                            }
                    },
                    Ok(None) => global_pending >= policy.max_pending_global || forall|i: int|
                        0 <= i < candidates@.len() ==> !(#[trigger] candidates@[i]).has_room(
                            policy,
                        ),
                    Err(_) => false,
                }
            },
    {
        match policy.check() {
            Ok(()) => {},
            Err(error) => return Err(error),
        }
        if global_pending >= policy.max_pending_global as i64 {
            return Ok(None);
        }
        let mut i: usize = 0;
        while i < candidates.len()
            invariant
                i <= candidates.len(),
                policy.is_valid(),
                global_pending < policy.max_pending_global,
                forall|k: int| 0 <= k < i ==> !(#[trigger] candidates@[k]).has_room(policy),
            decreases candidates.len() - i,
        {
            let candidate = candidates[i];
            if candidate.tenant_pending < candidate.queue_limit as i64 && candidate.tenant_pending
                < policy.max_pending_tenant as i64 {
                assert(candidates@[i as int].has_room(policy));
                return Ok(Some((candidate.tenant, candidate.run)));
            }
            i = i + 1;
        }
        Ok(None)
    }

    /// Choose the lease to end, if any: the one that ended first.
    pub fn choose_expired(now_us: i64, candidates: &[HeldRun]) -> (r: Option<(Uuid, Uuid)>)
        ensures
            match r {
                Some((tenant, run)) => exists|at: int|
                    {
                        &&& #[trigger] is_first_ended(candidates@, now_us, at)
                        &&& candidates@[at].tenant == tenant
                        &&& candidates@[at].run == run
                    },
                None => forall|i: int|
                    0 <= i < candidates@.len() ==> !(#[trigger] candidates@[i]).is_expired(now_us),
            },
    {
        let mut best: Option<usize> = None;
        let mut i: usize = 0;
        while i < candidates.len()
            invariant
                i <= candidates.len(),
                match best {
                    Some(at) => {
                        &&& at < i
                        &&& candidates@[at as int].is_expired(now_us)
                        &&& forall|k: int|
                            0 <= k < i && (#[trigger] candidates@[k]).is_expired(now_us)
                                ==> candidates@[at as int].ended_before(candidates@[k])
                    },
                    None => forall|k: int|
                        0 <= k < i ==> !(#[trigger] candidates@[k]).is_expired(now_us),
                },
            decreases candidates.len() - i,
        {
            let candidate = &candidates[i];
            if candidate.expired(now_us) {
                let better = match best {
                    Some(at) => candidate.ends_sooner(&candidates[at]),
                    None => true,
                };
                if better {
                    best = Some(i);
                }
            }
            i = i + 1;
        }
        match best {
            Some(at) => {
                assert(is_first_ended(candidates@, now_us, at as int));
                Some((candidates[at].tenant, candidates[at].run))
            },
            None => None,
        }
    }

    /// Reassess a run that waits for a retry.
    pub fn promote_waiting(policy: ReapPolicy, facts: WaitingFacts) -> (r: Result<
        ReapPlan,
        StoreError,
    >)
        ensures
            if facts.row@.state != store::name_of(RunState::RetryWait) || facts.row@.held {
                r is Err && r->Err_0 is CorruptScheduler
            } else {
                let outcome = Reaped::verdict(
                    store::any_uncertain(facts.effects@),
                    facts.row@.cancel_requested,
                    facts.row@.attempt >= policy.max_attempts,
                    false,
                );
                r matches Ok(plan) && {
                    &&& plan.tenant == facts.tenant
                    &&& plan.run == facts.run
                    &&& plan.outcome == outcome
                    &&& plan.row@ == facts.row@.moved(outcome.state())
                    &&& plan.active_count is None
                    &&& plan.events@.len() == 1
                    &&& plan.events@[0].says(outcome.event(), store::state_payload_text(outcome.state()))
                }
            },
    {
        if !is_state(facts.row.state.as_str(), RunState::RetryWait) || facts.row.held {
            return Err(StoreError::CorruptScheduler);
        }
        let outcome = Reaped::decide(
            has_uncertain(facts.effects.as_slice()),
            facts.row.cancel_requested,
            facts.row.attempt >= policy.max_attempts as i32,
            false,
        );
        let mut events: Vec<NewEvent> = Vec::new();
        events.push(outcome.new_event());
        let row = RunRow {
            state: text::copy_text(state_name(outcome.run_state())),
            ..facts.row
        };
        Ok(
            ReapPlan {
                tenant: facts.tenant,
                run: facts.run,
                outcome,
                row,
                active_count: None,
                events,
            },
        )
    }

    /// Reassess one run: a waiting one that was chosen, or else one whose lease
    /// has expired. An effect that is in flight or unknown bars its replay.
    pub fn reap_one(
        policy: ReapPolicy,
        global_pending: i64,
        waiting: Option<WaitingFacts>,
        expired: Option<ExpiredFacts>,
    ) -> (r: Result<Option<ReapPlan>, StoreError>)
        ensures
            if !policy.is_valid() {
                r is Err && r->Err_0.refuses("invalid reaper limits"@)
            } else if waiting is Some {
                let facts = waiting->0;
                if facts.row@.state != store::name_of(RunState::RetryWait) || facts.row@.held {
                    r is Err && r->Err_0 is CorruptScheduler
                } else {
                    let outcome = Reaped::verdict(
                        store::any_uncertain(facts.effects@),
                        facts.row@.cancel_requested,
                        facts.row@.attempt >= policy.max_attempts,
                        false,
                    );
                    r matches Ok(Some(plan)) && {
                        &&& plan.tenant == facts.tenant
                        &&& plan.run == facts.run
                        &&& plan.outcome == outcome
                        &&& plan.row@ == facts.row@.moved(outcome.state())
                        &&& plan.active_count is None
                        &&& plan.events@.len() == 1
                        &&& plan.events@[0].says(
                            outcome.event(),
                            store::state_payload_text(outcome.state()),
                        )
                    }
                }
            } else if expired is None {
                r == Ok::<Option<ReapPlan>, StoreError>(None)
            } else {
                let facts = expired->0;
                if facts.active_count <= 0 || !facts.row@.held {
                    r is Err && r->Err_0 is CorruptScheduler
                } else if !facts.row@.has_ended_by(facts.now_us) {
                    r == Ok::<Option<ReapPlan>, StoreError>(None)
                } else {
                    let outcome = Reaped::verdict(
                        store::any_uncertain(facts.effects@),
                        facts.row@.cancel_requested,
                        facts.row@.attempt >= policy.max_attempts,
                        facts.is_full(policy, global_pending),
                    );
                    r matches Ok(Some(plan)) && {
                        &&& plan.tenant == facts.tenant
                        &&& plan.run == facts.run
                        &&& plan.outcome == outcome
                        &&& plan.row@ == facts.row@.released(outcome.state())
                        &&& plan.active_count == Some((facts.active_count - 1) as i32)
                        &&& plan.events@.len() == 2
                        &&& plan.events@[0].says("lease.expired"@, "{\"expired\":true}"@)
                        &&& plan.events@[1].says(
                            outcome.event(),
                            store::state_payload_text(outcome.state()),
                        )
                    }
                }
            },
    {
        match policy.check() {
            Ok(()) => {},
            Err(error) => return Err(error),
        }
        if let Some(facts) = waiting {
            return match Store::promote_waiting(policy, facts) {
                Ok(plan) => Ok(Some(plan)),
                Err(error) => Err(error),
            };
        }
        let facts = match expired {
            Some(facts) => facts,
            None => return Ok(None),
        };
        if facts.active_count <= 0 || !facts.row.held {
            return Err(StoreError::CorruptScheduler);
        }
        // A heartbeat does not take the scheduler's lock. It can renew between
        // the choice of a candidate and the lock of its row: nothing expired then.
        let ended = match facts.row.lease_until_us {
            Some(until) => until <= facts.now_us,
            None => false,
        };
        if !ended {
            return Ok(None);
        }
        let full = global_pending >= policy.max_pending_global as i64 || facts.tenant_pending
            >= facts.queue_limit as i64 || facts.tenant_pending
            >= policy.max_pending_tenant as i64;
        let outcome = Reaped::decide(
            has_uncertain(facts.effects.as_slice()),
            facts.row.cancel_requested,
            facts.row.attempt >= policy.max_attempts as i32,
            full,
        );
        let mut events: Vec<NewEvent> = Vec::new();
        events.push(
            NewEvent { kind: "lease.expired", payload: text::copy_text("{\"expired\":true}") },
        );
        events.push(outcome.new_event());
        let row = RunRow {
            state: text::copy_text(state_name(outcome.run_state())),
            held: false,
            owner: None,
            lease_until_us: None,
            ..facts.row
        };
        Ok(
            Some(
                ReapPlan {
                    tenant: facts.tenant,
                    run: facts.run,
                    outcome,
                    row,
                    active_count: Some(facts.active_count - 1),
                    events,
                },
            ),
        )
    }
}

/// What a run ends with may be stored: an output or an error code, not both,
/// each within its bounds.
pub open spec fn is_result(output: Option<&[u8]>, error_code: Option<&str>) -> bool {
    &&& output matches Some(output) ==> output@.len() <= PAYLOAD_BYTES
    &&& error_code matches Some(code) ==> text::is_error_code(code@)
    &&& output is None || error_code is None
}

/// How a running run ends: cancelled where that was asked for, else failed
/// where there is an error, else with success.
pub open spec fn end_state(cancel: bool, failed: bool) -> RunState {
    if cancel {
        RunState::Cancelled
    } else if failed {
        RunState::Failed
    } else {
        RunState::Succeeded
    }
}

/// The kind of event that the end of a run leaves.
pub open spec fn end_event(state: RunState) -> Seq<char> {
    match state {
        RunState::Cancelled => "run.cancelled"@,
        RunState::Failed => "run.failed"@,
        _ => "run.succeeded"@,
    }
}

/// How a run is ended, and what is kept of it.
#[derive(Debug)]
pub struct FinishPlan {
    pub state: RunState,
    pub row: RunRow,
    pub output: Option<Vec<u8>>,
    pub error_code: Option<String>,
    pub active_count: i32,
    pub event: NewEvent,
}

impl FinishPlan {
    /// The plan keeps the result that was given, however the run ends.
    pub open spec fn keeps(self, output: Option<&[u8]>, error_code: Option<&str>) -> bool {
        &&& match output {
            Some(output) => self.output matches Some(kept) && kept@ == output@,
            None => self.output is None,
        }
        &&& match error_code {
            Some(code) => self.error_code matches Some(kept) && kept@ == code@,
            None => self.error_code is None,
        }
    }
}

impl Store {
    /// End a run under its live lease, and release its slot with it. The
    /// result is kept, also of a cancelled run. No run ends while one of its
    /// effects has no outcome.
    pub fn finish_run(
        worker: &str,
        allowed_tenants: &[Uuid],
        epoch: i64,
        output: Option<&[u8]>,
        error_code: Option<&str>,
        facts: Option<LeaseFacts>,
        active_count: i32,
        effects: &[String],
    ) -> (r: Result<FinishPlan, StoreError>)
        ensures
            if !text::is_alias(worker@) || epoch <= 0 || !is_result(output, error_code) {
                r is Err && r->Err_0.refuses("invalid finish parameters"@)
            } else if !is_known(facts, allowed_tenants@) {
                r is Err && r->Err_0 is RunNotFound
            } else if active_count <= 0 {
                r is Err && r->Err_0 is CorruptScheduler
            } else if facts->0.row@.state != store::name_of(RunState::Running) || !facts->0.is_leased_to(
                worker@,
                epoch,
            ) || store::any_open(effects@) {
                r is Err && r->Err_0 is LeaseConflict
            } else {
                let state = end_state(facts->0.row@.cancel_requested, error_code is Some);
                r matches Ok(plan) && {
                    &&& plan.state == state
                    &&& plan.row@ == facts->0.row@.released(state)
                    &&& plan.keeps(output, error_code)
                    &&& plan.active_count == active_count - 1
                    &&& plan.event.says(end_event(state), store::state_payload_text(state))
                }
            },
    {
        let output_ok = match output {
            Some(output) => output.len() <= PAYLOAD_BYTES,
            None => true,
        };
        let code_ok = match error_code {
            Some(code) => text::error_code_text(code),
            None => true,
        };
        if !worker_identifier(worker) || epoch <= 0 || !output_ok || !code_ok || (output.is_some()
            && error_code.is_some()) {
            return Err(StoreError::Configuration("invalid finish parameters"));
        }
        let facts = match facts {
            Some(facts) => facts,
            None => return Err(StoreError::RunNotFound),
        };
        if !ids::holds_id(allowed_tenants, facts.tenant) {
            return Err(StoreError::RunNotFound);
        }
        if active_count <= 0 {
            return Err(StoreError::CorruptScheduler);
        }
        if !is_state(facts.row.state.as_str(), RunState::Running) || !facts.leased_to(worker, epoch)
            || has_open(effects) {
            return Err(StoreError::LeaseConflict);
        }
        let (state, kind): (RunState, &'static str) = if facts.row.cancel_requested {
            (RunState::Cancelled, "run.cancelled")
        } else if error_code.is_some() {
            (RunState::Failed, "run.failed")
        } else {
            (RunState::Succeeded, "run.succeeded")
        };
        let row = RunRow {
            state: text::copy_text(state_name(state)),
            held: false,
            owner: None,
            lease_until_us: None,
            ..facts.row
        };
        let kept_output = match output {
            Some(output) => Some(bytes::copy_bytes(output)),
            None => None,
        };
        let kept_code = match error_code {
            Some(code) => Some(text::copy_text(code)),
            None => None,
        };
        Ok(
            FinishPlan {
                state,
                row,
                output: kept_output,
                error_code: kept_code,
                active_count: active_count - 1,
                event: NewEvent { kind, payload: state_payload(state) },
            },
        )
    }
}

/// A new lease fences every earlier one: of a run that was leased again, only
/// the new worker holds the lease, and only at the new epoch.
pub proof fn new_lease_fences_the_old(
    row: RunRowView,
    new_worker: Seq<char>,
    until_us: i64,
    worker: Seq<char>,
    epoch: i64,
    now_us: i64,
)
    requires
        row.leased(new_worker, until_us).is_leased_to(worker, epoch, now_us),
    ensures
        worker == new_worker,
        epoch == row.epoch + 1,
        now_us < until_us,
        !row.is_leased_to(worker, epoch, now_us),
{
}

/// Epochs only grow, and only with a new lease: renewing the lease of a run, and
/// starting, ending or reaping it, keeps its epoch.
pub proof fn epochs_only_grow(
    row: RunRowView,
    worker: Seq<char>,
    until_us: i64,
    state: RunState,
)
    ensures
        row.leased(worker, until_us).epoch == row.epoch + 1,
        row.renewed(until_us).epoch == row.epoch,
        row.moved(state).epoch == row.epoch,
        row.released(state).epoch == row.epoch,
{
}

/// Nobody holds the lease of a run that gave up its slot, and no expiry of it is
/// left for the reaper to find.
pub proof fn released_run_is_nobodys(
    row: RunRowView,
    state: RunState,
    worker: Seq<char>,
    epoch: i64,
    now_us: i64,
)
    ensures
        !row.released(state).is_leased_to(worker, epoch, now_us),
        !row.released(state).has_ended_by(now_us),
{
}

/// A lease that has ended is nobody's, though its run was not yet reaped; and it
/// stays so, as the clock goes on.
pub proof fn ended_lease_is_nobodys(
    row: RunRowView,
    worker: Seq<char>,
    epoch: i64,
    now_us: i64,
    later_us: i64,
)
    requires
        row.has_ended_by(now_us),
        now_us <= later_us,
    ensures
        row.has_ended_by(later_us),
        !row.is_leased_to(worker, epoch, later_us),
{
}

/// What the reaper makes of a run is a step of the run's life, and no effect
/// that may have happened is ever replayed by it.
pub proof fn reaping_is_a_step_of_the_life(
    from: RunState,
    uncertain: bool,
    cancel: bool,
    spent: bool,
    full: bool,
)
    requires
        from is Leased || from is Running || (from is RetryWait && !full),
    ensures
        from.may_become(Reaped::verdict(uncertain, cancel, spent, full).state(), uncertain, false),
        uncertain ==> Reaped::verdict(uncertain, cancel, spent, full)
            == Reaped::NeedsReconciliation,
{
}

/// Claiming, denying, starting and ending a run are steps of its life.
pub proof fn scheduling_is_a_step_of_the_life(cancel: bool, failed: bool)
    ensures
        RunState::Queued.may_become(RunState::Leased, false, false),
        RunState::Queued.may_become(RunState::Failed, false, false),
        RunState::Leased.may_become(RunState::Running, false, false),
        RunState::Running.may_become(end_state(cancel, failed), false, false),
        end_state(cancel, failed).is_terminal(),
{
}

/// A run whose cancellation was asked for is neither queued again nor reported
/// as a success.
pub proof fn cancellation_is_honoured(uncertain: bool, spent: bool, full: bool, failed: bool)
    ensures
        Reaped::verdict(uncertain, true, spent, full) == Reaped::Cancelled || Reaped::verdict(
            uncertain,
            true,
            spent,
            full,
        ) == Reaped::NeedsReconciliation,
        end_state(true, failed) == RunState::Cancelled,
{
}

/// The attempts of a run are bounded: a claim that is not refused leaves at
/// most the allowed number, and a run that has had them is not queued again.
pub proof fn attempts_are_bounded(
    facts: ClaimFacts,
    policy: ClaimPolicy,
    worker: Seq<char>,
    until_us: i64,
    uncertain: bool,
    cancel: bool,
    full: bool,
)
    requires
        !facts.is_corrupt(policy),
    ensures
        facts.row@.leased(worker, until_us).attempt <= policy.max_attempts,
        Reaped::verdict(uncertain, cancel, true, full) != Reaped::Requeued,
        Reaped::verdict(uncertain, cancel, true, full) != Reaped::WaitingForQueue,
{
}

/// How many runs of a tenant hold a slot.
pub open spec fn held_slots(rows: Seq<RunRowView>) -> nat
    decreases rows.len(),
{
    if rows.len() == 0 {
        0
    } else {
        held_slots(rows.drop_last()) + if rows.last().held {
            1nat
        } else {
            0nat
        }
    }
}

proof fn held_slots_after(rows: Seq<RunRowView>, i: int, after: RunRowView)
    requires
        0 <= i < rows.len(),
    ensures
        held_slots(rows.update(i, after)) + (if rows[i].held {
            1nat
        } else {
            0nat
        }) == held_slots(rows) + (if after.held {
            1nat
        } else {
            0nat
        }),
    decreases rows.len(),
{
    let updated = rows.update(i, after);
    if i == rows.len() - 1 {
        assert(updated.drop_last() =~= rows.drop_last());
    } else {
        assert(updated.drop_last() =~= rows.drop_last().update(i, after));
        held_slots_after(rows.drop_last(), i, after);
    }
}

/// A tenant's counter of active runs stays exact: a claim that is not refused
/// adds one to the counter and to the slots held, and leaves them within the
/// tenant's limits.
pub proof fn claim_counts_its_slot(
    rows: Seq<RunRowView>,
    i: int,
    facts: ClaimFacts,
    policy: ClaimPolicy,
    worker: Seq<char>,
    until_us: i64,
)
    requires
        0 <= i < rows.len(),
        rows[i] == facts.row@,
        facts.active_count == held_slots(rows),
        !facts.is_corrupt(policy),
    ensures
        facts.active_count + 1 == held_slots(rows.update(i, facts.row@.leased(worker, until_us))),
        facts.active_count + 1 <= facts.active_limit,
        facts.active_count + 1 <= policy.max_active_per_tenant,
{
    held_slots_after(rows, i, facts.row@.leased(worker, until_us));
}

/// A tenant's counter of active runs stays exact: ending or reaping a run that
/// holds a slot takes one off the counter and off the slots held.
pub proof fn release_counts_its_slot(
    rows: Seq<RunRowView>,
    i: int,
    active_count: i32,
    state: RunState,
)
    requires
        0 <= i < rows.len(),
        rows[i].held,
        active_count == held_slots(rows),
    ensures
        active_count > 0,
        active_count - 1 == held_slots(rows.update(i, rows[i].released(state))),
{
    held_slots_after(rows, i, rows[i].released(state));
}

/// Service goes round: a tenant that was just served comes after every other,
/// as no other was served later.
pub proof fn served_tenant_goes_last(
    served: TenantCandidate,
    other: TenantCandidate,
    dispatch_seq: i64,
)
    requires
        dispatch_seq < i64::MAX,
        other.last_served_seq <= dispatch_seq,
        served.last_served_seq == dispatch_seq + 1,
    ensures
        other.comes_before(served),
        !served.comes_before(other),
{
}

/// A queued run is due exactly while its cancellation was not asked for and it has
/// been tried fewer times than allowed; more attempts allowed never make it less
/// so.
pub proof fn runs_are_due_while_attempts_are_left(run: QueuedRun, max_attempts: u8, more: u8)
    requires
        max_attempts <= more,
    ensures
        run.cancel_requested ==> !run.is_due(max_attempts),
        !run.cancel_requested ==> (run.is_due(max_attempts) <==> run.attempt < max_attempts),
        run.is_due(max_attempts) ==> run.is_due(more),
{
}

/// The run that is chosen of a queue is one of it and due, and no due run of the
/// queue was created before it.
pub proof fn no_due_run_is_older(
    queued: Seq<QueuedRun>,
    max_attempts: u8,
    chosen: QueuedRun,
    other: int,
)
    requires
        is_oldest(queued, max_attempts, chosen),
        0 <= other < queued.len(),
        !queued[other].cancel_requested,
        queued[other].attempt < max_attempts,
    ensures
        queued.contains(chosen),
        !chosen.cancel_requested && chosen.attempt < max_attempts,
        chosen.created_us <= queued[other].created_us,
        chosen.created_us == queued[other].created_us ==> chosen.run.value
            <= queued[other].run.value,
{
    assert(queued[other].is_due(max_attempts));
}

/// A tenant is served exactly where the worker may serve it, it has a due run, and
/// it is below its own limit and the policy's.
pub proof fn tenants_are_served_within_their_limits(
    candidate: TenantCandidate,
    allowed: Seq<Uuid>,
    policy: ClaimPolicy,
)
    ensures
        candidate.is_eligible(allowed, policy) <==> {
            &&& allowed.contains(candidate.tenant)
            &&& candidate.active_count < candidate.active_limit
            &&& candidate.active_count < policy.max_active_per_tenant
            &&& exists|i: int|
                0 <= i < candidate.queued@.len() && !(
                #[trigger] candidate.queued@[i]).cancel_requested && candidate.queued@[i].attempt
                    < policy.max_attempts
        },
{
    if !none_due(candidate.queued@, policy.max_attempts) {
        let i = choose|i: int|
            0 <= i < candidate.queued@.len() && (#[trigger] candidate.queued@[i]).is_due(
                policy.max_attempts,
            );
        assert(!candidate.queued@[i].cancel_requested);
    }
    if exists|i: int|
        0 <= i < candidate.queued@.len() && !(#[trigger] candidate.queued@[i]).cancel_requested
            && candidate.queued@[i].attempt < policy.max_attempts {
        let i = choose|i: int|
            0 <= i < candidate.queued@.len() && !(#[trigger] candidate.queued@[i]).cancel_requested
                && candidate.queued@[i].attempt < policy.max_attempts;
        assert(candidate.queued@[i].is_due(policy.max_attempts));
    }
}

/// The tenant that is served next is eligible, and no eligible tenant has waited
/// longer.
pub proof fn no_eligible_tenant_waited_longer(
    candidates: Seq<TenantCandidate>,
    allowed: Seq<Uuid>,
    policy: ClaimPolicy,
    at: int,
    other: int,
)
    requires
        is_next(candidates, allowed, policy, at),
        0 <= other < candidates.len(),
        candidates[other].is_eligible(allowed, policy),
    ensures
        0 <= at < candidates.len(),
        candidates[at].is_eligible(allowed, policy),
        candidates[at].last_served_seq <= candidates[other].last_served_seq,
        candidates[at].last_served_seq == candidates[other].last_served_seq
            ==> candidates[at].tenant.value <= candidates[other].tenant.value,
{
}

/// A worker may ask under an alias, for 1 to 1024 tenants and 1 or 2 slots, where
/// the policy has 1 to 4 runs at a time and one per tenant, 1 to 3 attempts, and
/// leases of up to six seconds; and in no other case.
pub proof fn claims_are_made_within_bounds(
    worker: Seq<char>,
    allowed: Seq<Uuid>,
    available_slots: u8,
    policy: ClaimPolicy,
)
    ensures
        may_claim(worker, allowed, available_slots, policy) <==> {
            &&& text::is_alias(worker)
            &&& 0 < allowed.len() < 1025
            &&& available_slots == 1 || available_slots == 2
            &&& policy.is_valid()
        },
        policy.is_valid() <==> {
            &&& 0 < policy.max_active_global < 5
            &&& policy.max_active_per_tenant == 1
            &&& 0 < policy.max_attempts < 4
            &&& 0 < policy.lease_ms < 6001
        },
{
}

/// A chosen run is taken exactly where it is still queued and holds no slot, has an
/// epoch and an attempt left, and its tenant has a slot left.
pub proof fn chosen_runs_are_still_free(facts: ClaimFacts, policy: ClaimPolicy)
    ensures
        !facts.is_corrupt(policy) <==> {
            &&& 0 <= facts.active_count < facts.active_limit
            &&& facts.active_count < policy.max_active_per_tenant
            &&& facts.row@.state == "queued"@
            &&& !facts.row.held
            &&& facts.row.epoch != 9_223_372_036_854_775_807
            &&& facts.row.attempt < policy.max_attempts
        },
{
}

/// A lease ends after its time, or with the grant where that ends first.
pub proof fn leases_end_with_time_or_grant(now_us: i64, lease_ms: u64, grant_expires_us: i64)
    ensures
        now_us + 1000 * lease_ms <= grant_expires_us ==> lease_end(
            now_us,
            lease_ms,
            grant_expires_us,
        ) == now_us + 1000 * lease_ms,
        now_us + 1000 * lease_ms > grant_expires_us ==> lease_end(
            now_us,
            lease_ms,
            grant_expires_us,
        ) == grant_expires_us,
{
}

/// A worker holds a run exactly where it is its owner, at its epoch, before the
/// lease ends, and while the run has its slot.
pub proof fn leases_are_held_by_their_owner(
    row: RunRowView,
    worker: Seq<char>,
    epoch: i64,
    now_us: i64,
)
    ensures
        row.is_leased_to(worker, epoch, now_us) <==> {
            &&& row.owner == Some(worker)
            &&& row.epoch == epoch
            &&& row.lease_until_us is Some && now_us < row.lease_until_us->0
            &&& row.held
        },
        row.has_ended_by(now_us) <==> row.lease_until_us is Some && row.lease_until_us->0 <= now_us,
        row.is_active() <==> row.state == "leased"@ || row.state == "running"@,
{
}

/// What each step makes of a run: a lease gives it a slot, an owner, an end, and
/// one epoch and one attempt more; a renewal moves the end alone; a move changes
/// its state alone; and a release takes slot, owner and end away.
pub proof fn steps_change_their_own_part(
    row: RunRowView,
    worker: Seq<char>,
    until_us: i64,
    state: RunState,
)
    ensures
        ({
            let leased = row.leased(worker, until_us);
            &&& leased.state == "leased"@ && leased.held && leased.owner == Some(worker)
            &&& leased.lease_until_us == Some(until_us)
            &&& leased.epoch == row.epoch + 1 && leased.attempt == row.attempt + 1
            &&& leased.cancel_requested == row.cancel_requested
        }),
        ({
            let renewed = row.renewed(until_us);
            &&& renewed.lease_until_us == Some(until_us)
            &&& renewed.state == row.state && renewed.held == row.held && renewed.owner
                == row.owner
            &&& renewed.epoch == row.epoch && renewed.attempt == row.attempt
            &&& renewed.cancel_requested == row.cancel_requested
        }),
        ({
            let moved = row.moved(state);
            &&& moved.state == store::name_of(state)
            &&& moved.held == row.held && moved.owner == row.owner
            &&& moved.lease_until_us == row.lease_until_us
            &&& moved.epoch == row.epoch && moved.attempt == row.attempt
            &&& moved.cancel_requested == row.cancel_requested
        }),
        ({
            let released = row.released(state);
            &&& released.state == store::name_of(state)
            &&& !released.held && released.owner is None && released.lease_until_us is None
            &&& released.epoch == row.epoch && released.attempt == row.attempt
            &&& released.cancel_requested == row.cancel_requested
        }),
{
}

/// A reaper's policy has 1 to 3 attempts, up to 1000 runs pending in all and up to
/// 100 of a tenant, at least one of each, and no tenant's share exceeds the whole.
pub proof fn reaping_is_done_within_bounds(policy: ReapPolicy)
    ensures
        policy.is_valid() <==> {
            &&& 0 < policy.max_attempts < 4
            &&& 0 < policy.max_pending_tenant < 101
            &&& policy.max_pending_tenant <= policy.max_pending_global
            &&& policy.max_pending_global < 1001
        },
{
}

/// What becomes of a run whose lease has ended: it is reconciled exactly where an
/// effect may have happened; otherwise it is cancelled where that was asked for,
/// has failed where its attempts are used up, and goes back to the queue where
/// there is room, or waits for it.
pub proof fn reaped_runs_get_what_they_are_due(uncertain: bool, cancel: bool, spent: bool, full: bool)
    ensures
        ({
            let outcome = Reaped::verdict(uncertain, cancel, spent, full);
            &&& outcome is NeedsReconciliation <==> uncertain
            &&& outcome is Cancelled <==> !uncertain && cancel
            &&& outcome is Failed <==> !uncertain && !cancel && spent
            &&& outcome is WaitingForQueue <==> !uncertain && !cancel && !spent && full
            &&& outcome is Requeued <==> !uncertain && !cancel && !spent && !full
        }),
{
}

/// Each outcome of reaping leaves the run in a state of its own, and an event that
/// says so.
pub proof fn reaped_runs_are_left_in_their_state(outcome: Reaped)
    ensures
        outcome.state() is Queued <==> outcome is Requeued,
        outcome.state() is RetryWait <==> outcome is WaitingForQueue,
        outcome.state() is NeedsReconciliation <==> outcome is NeedsReconciliation,
        outcome.state() is Cancelled <==> outcome is Cancelled,
        outcome.state() is Failed <==> outcome is Failed,
        outcome is Requeued ==> outcome.event() == "run.requeued"@,
        outcome is WaitingForQueue ==> outcome.event() == "run.retry_wait"@,
        outcome is NeedsReconciliation ==> outcome.event() == "run.needs_reconciliation"@,
        outcome is Cancelled ==> outcome.event() == "run.cancelled"@,
        outcome is Failed ==> outcome.event() == "run.failed"@,
{
}

/// A queue has room while the tenant has fewer runs pending than its own limit and
/// the policy's; and the queues are full as soon as one of the three caps is
/// reached.
pub proof fn queues_are_full_at_their_caps(
    waiting: WaitingCandidate,
    facts: ExpiredFacts,
    policy: ReapPolicy,
    global_pending: i64,
)
    ensures
        waiting.has_room(policy) <==> waiting.tenant_pending < waiting.queue_limit
            && waiting.tenant_pending < policy.max_pending_tenant,
        !facts.is_full(policy, global_pending) <==> global_pending < policy.max_pending_global
            && facts.tenant_pending < facts.queue_limit && facts.tenant_pending
            < policy.max_pending_tenant,
{
}

/// The lease that is ended first has ended, of a run that was active, and no other
/// such lease ended before it.
pub proof fn no_ended_lease_is_older(
    candidates: Seq<HeldRun>,
    now_us: i64,
    at: int,
    other: int,
)
    requires
        is_first_ended(candidates, now_us, at),
        0 <= other < candidates.len(),
        candidates[other].state@ == "leased"@ || candidates[other].state@ == "running"@,
        candidates[other].lease_until_us is Some,
        candidates[other].lease_until_us->0 <= now_us,
    ensures
        0 <= at < candidates.len(),
        candidates[at].state@ == "leased"@ || candidates[at].state@ == "running"@,
        candidates[at].lease_until_us is Some,
        candidates[at].lease_until_us->0 <= now_us,
        candidates[at].lease_until_us->0 <= candidates[other].lease_until_us->0,
        candidates[at].lease_until_us->0 == candidates[other].lease_until_us->0
            ==> candidates[at].run.value <= candidates[other].run.value,
{
    assert(candidates[other].is_expired(now_us));
}

/// A run ends with an output of up to 64 KiB, or with an error code, or with
/// neither; never with both.
pub proof fn results_are_an_output_or_a_code(output: Option<&[u8]>, error_code: Option<&str>)
    ensures
        is_result(output, error_code) <==> {
            &&& output is None || error_code is None
            &&& output is Some ==> output->0@.len() <= 65_536
            &&& error_code is Some ==> text::is_error_code(error_code->0@)
        },
{
}

/// A run that ends was cancelled where that was asked for, has failed where it
/// reports an error, and has succeeded otherwise; its event says which.
pub proof fn runs_end_as_they_report(cancel: bool, failed: bool)
    ensures
        end_state(cancel, failed) is Cancelled <==> cancel,
        end_state(cancel, failed) is Failed <==> !cancel && failed,
        end_state(cancel, failed) is Succeeded <==> !cancel && !failed,
        cancel ==> end_event(end_state(cancel, failed)) == "run.cancelled"@,
        !cancel && failed ==> end_event(end_state(cancel, failed)) == "run.failed"@,
        !cancel && !failed ==> end_event(end_state(cancel, failed)) == "run.succeeded"@,
{
}

/// The result that is kept of a run is the one that was given, byte for byte.
pub proof fn results_are_kept_unchanged(
    plan: FinishPlan,
    output: Option<&[u8]>,
    error_code: Option<&str>,
)
    requires
        plan.keeps(output, error_code),
    ensures
        plan.output is Some <==> output is Some,
        output is Some ==> plan.output->0@ == output->0@,
        plan.error_code is Some <==> error_code is Some,
        error_code is Some ==> plan.error_code->0@ == error_code->0@,
{
}

/// An event says its kind and its payload; that of a claim says the epoch and the
/// worker.
pub proof fn events_say_kind_and_payload(
    event: NewEvent,
    kind: Seq<char>,
    payload: Seq<char>,
    epoch: int,
    worker: Seq<char>,
)
    ensures
        event.says(kind, payload) <==> event.kind@ == kind && event.payload@ == payload,
        claim_payload_text(epoch, worker) == "{\"epoch\":"@ + text::integer_chars(epoch)
            + ",\"worker_id\":\""@ + worker + "\"}"@,
{
}

/// A run is known to a worker exactly where it exists in a tenant that the worker
/// may serve.
pub proof fn runs_are_known_in_allowed_tenants(facts: Option<LeaseFacts>, allowed: Seq<Uuid>)
    ensures
        is_known(facts, allowed) <==> facts is Some && allowed.contains(facts->0.tenant),
        facts is Some ==> (forall|worker: Seq<char>, epoch: i64| #[trigger]
            facts->0.is_leased_to(worker, epoch) == facts->0.row@.is_leased_to(
                worker,
                epoch,
                facts->0.now_us,
            )),
{
}

/// A lease runs while its end is still to come; once ended it never runs again.
pub proof fn leases_run_until_their_end(row: RunRowView, now_us: i64, later_us: i64)
    requires
        now_us <= later_us,
    ensures
        row.is_running_at(now_us) <==> row.lease_until_us is Some && now_us
            < row.lease_until_us->0,
        row.is_running_at(later_us) ==> row.is_running_at(now_us),
        !(row.is_running_at(now_us) && row.has_ended_by(now_us)),
        row.lease_until_us is Some ==> row.is_running_at(now_us) || row.has_ended_by(now_us),
{
}

/// Of two runs, and of two tenants, one comes before the other: the older, the one
/// served longer ago, or the one with the smaller identifier.
pub proof fn queues_are_in_order(
    run: QueuedRun,
    other_run: QueuedRun,
    tenant: TenantCandidate,
    other: TenantCandidate,
)
    ensures
        run.comes_before(other_run) || other_run.comes_before(run),
        run.created_us < other_run.created_us ==> !other_run.comes_before(run),
        run.comes_before(other_run) && other_run.comes_before(run) ==> run.run == other_run.run,
        tenant.comes_before(other) || other.comes_before(tenant),
        tenant.last_served_seq < other.last_served_seq ==> !other.comes_before(tenant),
        tenant.comes_before(other) && other.comes_before(tenant) ==> tenant.tenant == other.tenant,
{
}

} // verus!
