//! The admission of runs. A key is bound to one request: its identity is judged
//! before any capacity, so that a safe retry works though the queue is full.
use vstd::prelude::*;

use crate::bytes;
use crate::domain::hash;
use crate::domain::limits::Limits;
use crate::domain::state::RunState;
use crate::domain::types::NormalizedRun;
use crate::encoding;
use crate::ids::Uuid;
use crate::store::events;
use crate::store::scheduler::NewEvent;
use crate::store;
use crate::store::{live_grant, state_name, state_payload, GrantTime, Store, StoreError};
use crate::text;

verus! {

/// An idempotency key: 1 to 128 bytes of visible ASCII.
pub open spec fn is_key(key: Seq<char>) -> bool {
    &&& 1 <= text::utf8(key).len() <= 128
    &&& text::all_graphic(key)
}

/// How many runs may be pending, in all and for one tenant.
pub open spec fn are_queue_caps(global: u64, tenant: u64) -> bool {
    &&& 1 <= global <= 1000
    &&& 1 <= tenant <= 100
    &&& tenant <= global
}

/// What is read before a run is admitted.
#[derive(Debug)]
pub struct AdmitFacts {
    /// The tenant's own limit, where there is such a tenant.
    pub tenant_limit: Option<i32>,
    /// The hash of the request that the key is bound to.
    pub existing: Option<Vec<u8>>,
    pub module_exists: bool,
    /// The run's grant, where there is such a grant, and the clock.
    pub grant: Option<GrantTime>,
    pub now_us: i64,
    /// The runs that are queued or wait for a retry: one that waits owns the
    /// next place, so that fresh requests cannot starve it.
    pub global_pending: i64,
    pub tenant_pending: i64,
}

/// What becomes of a request.
pub enum Verdict {
    NoTenant,
    Existing,
    Conflict,
    NoModule,
    GrantDenied,
    Full,
    Admitted,
}

/// A stored limit read as an unsigned number.
pub open spec fn unsigned(limit: i32) -> int {
    if limit >= 0 {
        limit as int
    } else {
        limit + 0x1_0000_0000
    }
}

/// The count fills the cap; a count that cannot be fills every cap.
pub open spec fn fills(pending: i64, cap: int) -> bool {
    pending < 0 || pending >= cap
}

impl AdmitFacts {
    /// What becomes of a request with the given hash.
    pub open spec fn verdict(self, request_hash: Seq<u8>, global: u64, tenant: u64) -> Verdict {
        if self.tenant_limit is None {
            Verdict::NoTenant
        } else if self.existing is Some {
            if self.existing->0@ == request_hash {
                Verdict::Existing
            } else {
                Verdict::Conflict
            }
        } else if !self.module_exists {
            Verdict::NoModule
        } else if !store::is_live_grant(self.grant, self.now_us) {
            Verdict::GrantDenied
        } else if fills(self.global_pending, global as int) || fills(
            self.tenant_pending,
            tenant as int,
        ) || fills(self.tenant_pending, unsigned(self.tenant_limit->0)) {
            Verdict::Full
        } else {
            Verdict::Admitted
        }
    }
}

/// What to do with a request that is not refused.
#[derive(Debug)]
pub enum AdmitPlan {
    /// The key is bound to this request already.
    Existing,
    /// The run is to be inserted.
    Insert { run: NewRun, event: NewEvent },
}

/// A run as it is inserted.
#[derive(Debug)]
pub struct NewRun {
    pub tenant: Uuid,
    pub id: Uuid,
    pub key: String,
    pub request_hash: [u8; 32],
    pub module_digest: [u8; 32],
    pub grant_id: Uuid,
    pub input: Vec<u8>,
    pub limits: Limits,
    pub state: &'static str,
}

impl NewRun {
    /// The run is the request's, under the tenant's key: queued, and bound to the
    /// request's hash.
    pub open spec fn holds(
        self,
        tenant: Uuid,
        id: Uuid,
        key: Seq<char>,
        request: NormalizedRun,
    ) -> bool {
        &&& self.tenant == tenant
        &&& self.id == id
        &&& self.key@ == key
        &&& self.request_hash@ == encoding::sha256(hash::run_message(request))
        &&& self.module_digest@ == request.module_digest@
        &&& self.grant_id == request.grant_id
        &&& self.input@ == request.input@
        &&& self.limits == request.limits
        &&& self.state@ == store::name_of(RunState::Queued)
    }
}

/// A number that is negative stands for more than any cap.
fn is_full(pending: i64, cap: u64) -> (r: bool)
    ensures
        r == fills(pending, cap as int),
{
    pending < 0 || pending as u64 >= cap
}

impl Store {
    /// Judge a key and the caps of the queues, before anything is read.
    pub fn check_admission(key: &str, max_pending_global: u64, max_pending_tenant: u64) -> (r:
        Result<(), StoreError>)
        ensures
            match r {
                Ok(()) => is_key(key@) && are_queue_caps(max_pending_global, max_pending_tenant),
                Err(error) => {
                    &&& !is_key(key@) || !are_queue_caps(max_pending_global, max_pending_tenant)
                    &&& error.refuses("invalid admission parameters"@)
                },
            },
    {
        let length: usize = text::byte_len(key);
        if length == 0 || length > 128 || !text::graphic_text(key) || max_pending_global == 0
            || max_pending_global > 1000 || max_pending_tenant == 0 || max_pending_tenant > 100
            || max_pending_tenant > max_pending_global {
            return Err(StoreError::Configuration("invalid admission parameters"));
        }
        Ok(())
    }

    /// Admit a request under the scheduler's lock; `id` is that of the run to be.
    pub fn admit_run(
        tenant: Uuid,
        key: &str,
        request: &NormalizedRun,
        max_pending_global: u64,
        max_pending_tenant: u64,
        facts: AdmitFacts,
        id: Uuid,
    ) -> (r: Result<AdmitPlan, StoreError>)
        ensures
            if !is_key(key@) || !are_queue_caps(max_pending_global, max_pending_tenant) {
                r is Err && r->Err_0.refuses("invalid admission parameters"@)
            } else {
                let request_hash = encoding::sha256(hash::run_message(*request));
                match facts.verdict(request_hash, max_pending_global, max_pending_tenant) {
                    Verdict::NoTenant => r is Err && r->Err_0 is GrantDenied,
                    Verdict::Existing => r == Ok::<AdmitPlan, StoreError>(AdmitPlan::Existing),
                    Verdict::Conflict => r is Err && r->Err_0 is IdempotencyConflict,
                    Verdict::NoModule => r is Err && r->Err_0 is ModuleNotFound,
                    Verdict::GrantDenied => r is Err && r->Err_0 is GrantDenied,
                    Verdict::Full => r is Err && r->Err_0 is CapacityExhausted,
                    Verdict::Admitted => r matches Ok(AdmitPlan::Insert { run, event }) && {
                        &&& run.holds(tenant, id, key@, *request)
                        &&& event.says("run.admitted"@, store::state_payload_text(RunState::Queued))
                    },
                }
            },
    {
        match Store::check_admission(key, max_pending_global, max_pending_tenant) {
            Ok(()) => {},
            Err(error) => return Err(error),
        }
        let request_hash = hash::run(request);
        let tenant_limit: i32 = match facts.tenant_limit {
            Some(limit) => limit,
            None => return Err(StoreError::GrantDenied),
        };
        if let Some(existing) = facts.existing {
            return Store::admit_existing(existing.as_slice(), &request_hash);
        }
        if !facts.module_exists {
            return Err(StoreError::ModuleNotFound);
        }
        if !live_grant(facts.grant, facts.now_us) {
            return Err(StoreError::GrantDenied);
        }
        let own_limit: u64 = (tenant_limit as u32) as u64;
        assert(own_limit == unsigned(tenant_limit)) by {
            assert(tenant_limit >= 0 ==> tenant_limit as u32 == tenant_limit) by (bit_vector);
            assert(tenant_limit < 0 ==> tenant_limit as u32 == tenant_limit + 0x1_0000_0000)
                by (bit_vector);
        }
        if is_full(facts.global_pending, max_pending_global) || is_full(
            facts.tenant_pending,
            max_pending_tenant,
        ) || is_full(facts.tenant_pending, own_limit) {
            return Err(StoreError::CapacityExhausted);
        }
        Ok(
            AdmitPlan::Insert {
                run: NewRun {
                    tenant,
                    id,
                    key: text::copy_text(key),
                    request_hash,
                    module_digest: request.module_digest,
                    grant_id: request.grant_id,
                    input: bytes::copy_bytes(request.input.as_slice()),
                    limits: request.limits,
                    state: state_name(RunState::Queued),
                },
                event: NewEvent { kind: "run.admitted", payload: state_payload(RunState::Queued) },
            },
        )
    }

    /// Judge a request whose key is bound already, to the request with the
    /// stored hash. Also asked where an insertion met a row that another
    /// transaction had made meanwhile.
    pub fn admit_existing(stored: &[u8], request_hash: &[u8; 32]) -> (r: Result<
        AdmitPlan,
        StoreError,
    >)
        ensures
            if stored@ == request_hash@ {
                r == Ok::<AdmitPlan, StoreError>(AdmitPlan::Existing)
            } else {
                r is Err && r->Err_0 is IdempotencyConflict
            },
    {
        if text::bytes_equal(stored, request_hash.as_slice()) {
            Ok(AdmitPlan::Existing)
        } else {
            Err(StoreError::IdempotencyConflict)
        }
    }
}

/// A retry is answered by its identity alone: once its key is bound, neither
/// module nor grant nor capacity matters.
pub proof fn identity_is_judged_before_capacity(
    facts: AdmitFacts,
    request_hash: Seq<u8>,
    global: u64,
    tenant: u64,
)
    requires
        facts.tenant_limit is Some,
        facts.existing is Some,
    ensures
        facts.verdict(request_hash, global, tenant) is Existing <==> facts.existing->0@
            == request_hash,
        facts.verdict(request_hash, global, tenant) is Conflict <==> facts.existing->0@
            != request_hash,
{
}

/// A key is bound to one request: a second request that is taken for the one
/// that was stored says the same, unless SHA-256 gives one hash to two messages.
pub proof fn key_is_bound_to_one_request(
    first: NormalizedRun,
    second: NormalizedRun,
    facts: AdmitFacts,
    global: u64,
    tenant: u64,
)
    requires
        first.input@.len() <= u64::MAX,
        second.input@.len() <= u64::MAX,
        facts.existing matches Some(stored) && stored@ == encoding::sha256(
            hash::run_message(first),
        ),
        facts.verdict(encoding::sha256(hash::run_message(second)), global, tenant) is Existing,
    ensures
        ({
            &&& first.module_digest@ == second.module_digest@
            &&& first.grant_id == second.grant_id
            &&& first.input@ == second.input@
            &&& first.limits == second.limits
        }) || events::is_collision(hash::run_message(first), hash::run_message(second)),
{
    if hash::run_message(first) == hash::run_message(second) {
        hash::run_message_is_injective(first, second);
    }
}

/// An admitted run leaves the queues within their caps.
pub proof fn admission_respects_the_caps(
    facts: AdmitFacts,
    request_hash: Seq<u8>,
    global: u64,
    tenant: u64,
)
    requires
        facts.verdict(request_hash, global, tenant) is Admitted,
    ensures
        0 <= facts.global_pending,
        facts.global_pending + 1 <= global,
        0 <= facts.tenant_pending,
        facts.tenant_pending + 1 <= tenant,
        facts.tenant_pending + 1 <= unsigned(facts.tenant_limit->0),
{
}

/// A key is a word of 1 to 128 visible ASCII characters, and nothing else is one.
pub proof fn keys_are_visible_words(key: Seq<char>)
    ensures
        is_key(key) <==> 1 <= key.len() <= 128 && forall|i: int|
            0 <= i < key.len() ==> '!' <= #[trigger] key[i] <= '~',
{
    text::visible_text_is_ascii(key);
}

/// Up to 1000 runs may be pending in all and up to 100 of a tenant, at least one
/// of each, and no tenant's share exceeds the whole.
pub proof fn queue_caps_are_bounded(global: u64, tenant: u64)
    ensures
        are_queue_caps(global, tenant) <==> 0 < tenant < 101 && tenant <= global && global < 1001,
{
}

/// A request is admitted exactly where its tenant is known, its key is not bound,
/// its module is stored, its grant is live, and there is room in the queues
/// within each of three caps.
pub proof fn admitted_requests_have_all_they_need(
    facts: AdmitFacts,
    request_hash: Seq<u8>,
    global: u64,
    tenant: u64,
)
    requires
        facts.tenant_limit matches Some(limit) ==> limit >= 0,
    ensures
        facts.verdict(request_hash, global, tenant) is Admitted <==> {
            &&& facts.tenant_limit is Some
            &&& facts.existing is None
            &&& facts.module_exists
            &&& facts.grant is Some && !facts.grant->0.revoked && facts.grant->0.expires_us
                > facts.now_us
            &&& 0 <= facts.global_pending < global
            &&& 0 <= facts.tenant_pending < tenant
            &&& facts.tenant_pending < facts.tenant_limit->0
        },
{
}

/// A request that is refused is refused for the first thing it lacks: its tenant,
/// then its module, then a live grant, then room.
pub proof fn refused_requests_lack_something(
    facts: AdmitFacts,
    request_hash: Seq<u8>,
    global: u64,
    tenant: u64,
)
    ensures
        facts.verdict(request_hash, global, tenant) is NoTenant <==> facts.tenant_limit is None,
        facts.verdict(request_hash, global, tenant) is NoModule <==> facts.tenant_limit is Some
            && facts.existing is None && !facts.module_exists,
        facts.verdict(request_hash, global, tenant) is GrantDenied ==> facts.module_exists && (
        facts.grant is None || facts.grant->0.revoked || facts.grant->0.expires_us
            <= facts.now_us),
        facts.verdict(request_hash, global, tenant) is Full ==> {
            &&& facts.module_exists
            &&& facts.grant is Some && !facts.grant->0.revoked && facts.grant->0.expires_us
                > facts.now_us
        },
        facts.existing is Some && facts.tenant_limit is Some ==> (facts.verdict(
            request_hash,
            global,
            tenant,
        ) is Existing || facts.verdict(request_hash, global, tenant) is Conflict),
{
}

/// What is inserted is the request, whole and unchanged, queued under its tenant,
/// key and identifier, and bound to the hash of what was asked for.
pub proof fn inserted_runs_are_what_was_asked(
    run: NewRun,
    tenant: Uuid,
    id: Uuid,
    key: Seq<char>,
    request: NormalizedRun,
)
    requires
        run.holds(tenant, id, key, request),
    ensures
        run.tenant == tenant && run.id == id && run.key@ == key,
        run.module_digest@ == request.module_digest@,
        run.grant_id == request.grant_id,
        run.input@ == request.input@,
        run.limits == request.limits,
        run.state@ == "queued"@,
        run.request_hash@ == encoding::sha256(hash::run_message(request)),
{
}

} // verus!
