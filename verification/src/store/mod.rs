//! The rules of the durable store. The database is read and locked outside; what
//! was read comes in here as plain values, and what is to be written goes out.
//! No network effect may run inside a store transaction.
pub mod admission;
pub mod events;
pub mod grants;
pub mod scheduler;

use vstd::prelude::*;

use crate::domain::grants::GrantError;
use crate::domain::limits::MODULE_BYTES;
use crate::domain::state::RunState;
use crate::ids::Uuid;
use crate::text;

verus! {

/// The error of the database.
#[verifier::external_type_specification]
#[verifier::external_body]
pub struct ExDatabaseError(sqlx::Error);

/// The error of a schema migration.
#[verifier::external_type_specification]
#[verifier::external_body]
pub struct ExMigrateError(sqlx::migrate::MigrateError);

#[derive(Debug)]
pub enum StoreError {
    /// A parameter that the store does not take.
    Configuration(&'static str),
    Database(sqlx::Error),
    Migration(sqlx::migrate::MigrateError),
    RunNotFound,
    EffectNotFound,
    /// The stored event counter or hash is invalid.
    CorruptEventHead,
    IncompatibleSchema,
    MissingScheduler,
    ModuleNotFound,
    /// The grant does not exist, is expired or is revoked.
    GrantDenied,
    /// The idempotency key is bound to a different request.
    IdempotencyConflict,
    CapacityExhausted,
    GrantNotFound,
    GrantValidation(GrantError),
    /// The stored ancestry or reservation is invalid.
    CorruptGrant,
    /// The lease does not exist, has expired or has been fenced.
    LeaseConflict,
    /// A counter or an active slot is inconsistent.
    CorruptScheduler,
}

impl StoreError {
    /// The error refuses the named parameters.
    pub open spec fn refuses(self, parameters: Seq<char>) -> bool {
        self matches StoreError::Configuration(named) && named@ == parameters
    }
}

#[derive(Clone, Copy, Debug, PartialEq, Eq, Structural)]
pub enum PutModule {
    Created,
    Existing,
}

#[derive(Clone, Copy, Debug, PartialEq, Eq, Structural)]
pub enum AdmissionKind {
    Created,
    Existing,
}

/// A run as callers see it.
#[derive(Debug)]
pub struct RunRecord {
    pub id: Uuid,
    pub state: String,
    pub module_digest: [u8; 32],
    pub grant_id: Uuid,
    pub created_at: String,
    pub updated_at: String,
    pub lease_epoch: i64,
    pub attempt: i32,
    pub cancel_requested: bool,
    pub output: Option<Vec<u8>>,
    pub error_code: Option<String>,
    pub effects: Vec<EffectRecord>,
}

/// An effect as callers see it.
#[derive(Debug)]
pub struct EffectRecord {
    pub ordinal: i32,
    pub state: String,
    pub request_hash: [u8; 32],
    pub provider_key: String,
    pub send_attempts: i32,
}

#[derive(Debug)]
pub struct Admission {
    pub kind: AdmissionKind,
    pub run: RunRecord,
}

/// A grant as callers see it.
#[derive(Debug)]
pub struct GrantRecord {
    pub id: Uuid,
    pub parent_id: Option<Uuid>,
    pub depth: i32,
    pub actions: Vec<String>,
    pub destinations: Vec<String>,
    pub projects: Vec<String>,
    pub expires_at: String,
    pub max_effects: i64,
    pub used_effects: i64,
    pub revoked_at: Option<String>,
    pub ancestry: Vec<Uuid>,
}

#[derive(Debug)]
pub struct RevocationRecord {
    pub id: Uuid,
    pub revoked_at: String,
}

#[derive(Clone, Copy, Debug, PartialEq, Eq, Structural)]
pub enum ReservationKind {
    Created,
    Existing,
}

#[derive(Clone, Copy, Debug, PartialEq, Eq, Structural)]
pub struct GrantReservation {
    pub tenant: Uuid,
    pub run: Uuid,
    pub ordinal: i32,
}

/// The name under which the state of a run is stored.
pub open spec fn name_of(state: RunState) -> Seq<char> {
    match state {
        RunState::Queued => "queued"@,
        RunState::RetryWait => "retry_wait"@,
        RunState::Leased => "leased"@,
        RunState::Running => "running"@,
        RunState::Succeeded => "succeeded"@,
        RunState::Failed => "failed"@,
        RunState::Cancelled => "cancelled"@,
        RunState::NeedsReconciliation => "needs_reconciliation"@,
    }
}

/// The name under which the state of a run is stored.
pub fn state_name(state: RunState) -> (r: &'static str)
    ensures
        r@ == name_of(state),
{
    match state {
        RunState::Queued => "queued",
        RunState::RetryWait => "retry_wait",
        RunState::Leased => "leased",
        RunState::Running => "running",
        RunState::Succeeded => "succeeded",
        RunState::Failed => "failed",
        RunState::Cancelled => "cancelled",
        RunState::NeedsReconciliation => "needs_reconciliation",
    }
}

/// Different states are stored under different names.
pub proof fn names_tell_states_apart(a: RunState, b: RunState)
    requires
        name_of(a) == name_of(b),
    ensures
        a == b,
{
    reveal_strlit("queued");
    reveal_strlit("retry_wait");
    reveal_strlit("leased");
    reveal_strlit("running");
    reveal_strlit("succeeded");
    reveal_strlit("failed");
    reveal_strlit("cancelled");
    reveal_strlit("needs_reconciliation");
    let x = name_of(a);
    let y = name_of(b);
    assert(x[0] == y[0] && x[1] == y[1] && x.len() == y.len());
}

/// What an event of a state change says.
pub open spec fn state_payload_text(state: RunState) -> Seq<char> {
    "{\"state\":\""@ + name_of(state) + "\"}"@
}

/// What an event of a state change says, as bytes.
pub fn state_payload(state: RunState) -> (r: String)
    ensures
        r@ == state_payload_text(state),
{
    let mut out = text::copy_text("{\"state\":\"");
    out.append(state_name(state));
    out.append("\"}");
    out
}

/// When a grant ends: upon its revocation, or at its expiry in microseconds.
#[derive(Clone, Copy, Debug, PartialEq, Eq, Structural)]
pub struct GrantTime {
    pub revoked: bool,
    pub expires_us: i64,
}

impl GrantTime {
    /// Neither revoked nor expired by now.
    pub open spec fn is_live(self, now_us: i64) -> bool {
        !self.revoked && self.expires_us > now_us
    }

    pub fn live(&self, now_us: i64) -> (r: bool)
        ensures
            r == self.is_live(now_us),
    {
        !self.revoked && self.expires_us > now_us
    }
}

/// The grant exists and is live.
pub open spec fn is_live_grant(grant: Option<GrantTime>, now_us: i64) -> bool {
    grant matches Some(grant) && grant.is_live(now_us)
}

/// Whether a grant exists and is live.
pub fn live_grant(grant: Option<GrantTime>, now_us: i64) -> (r: bool)
    ensures
        r == is_live_grant(grant, now_us),
{
    match grant {
        Some(grant) => grant.live(now_us),
        None => false,
    }
}

/// There is a chain, and every grant of it is live.
pub open spec fn are_live(grants: Seq<GrantTime>, now_us: i64) -> bool {
    &&& grants.len() > 0
    &&& forall|i: int| 0 <= i < grants.len() ==> (#[trigger] grants[i]).is_live(now_us)
}

/// The first expiry in a chain of grants.
pub open spec fn earliest_expiry(grants: Seq<GrantTime>) -> i64
    decreases grants.len(),
{
    if grants.len() <= 1 {
        grants[0].expires_us
    } else if grants.last().expires_us < earliest_expiry(grants.drop_last()) {
        grants.last().expires_us
    } else {
        earliest_expiry(grants.drop_last())
    }
}

/// No grant of a chain expires before the first expiry, and one expires then.
pub proof fn earliest_expiry_is_first(grants: Seq<GrantTime>)
    requires
        grants.len() > 0,
    ensures
        forall|i: int|
            0 <= i < grants.len() ==> earliest_expiry(grants) <= (#[trigger] grants[i]).expires_us,
        exists|i: int|
            0 <= i < grants.len() && (#[trigger] grants[i]).expires_us == earliest_expiry(grants),
    decreases grants.len(),
{
    if grants.len() == 1 {
        assert(grants[0].expires_us == earliest_expiry(grants));
    } else {
        let before = grants.drop_last();
        earliest_expiry_is_first(before);
        assert forall|i: int| 0 <= i < grants.len() implies earliest_expiry(grants) <= (
        #[trigger] grants[i]).expires_us by {
            if i < before.len() {
                assert(before[i] == grants[i]);
            }
        }
        let k = choose|k: int|
            0 <= k < before.len() && (#[trigger] before[k]).expires_us == earliest_expiry(before);
        assert(grants[k] == before[k]);
        assert(grants[grants.len() - 1] == grants.last());
    }
}

/// The first expiry in a chain where every grant is live; none otherwise.
fn live_until(grants: &[GrantTime], now_us: i64) -> (r: Option<i64>)
    ensures
        match r {
            Some(expires_us) => are_live(grants@, now_us) && expires_us == earliest_expiry(grants@),
            None => !are_live(grants@, now_us),
        },
{
    if grants.len() == 0 || !grants[0].live(now_us) {
        assert(grants@.len() > 0 ==> !grants@[0].is_live(now_us));
        return None;
    }
    let mut earliest: i64 = grants[0].expires_us;
    let mut i: usize = 1;
    while i < grants.len()
        invariant
            1 <= i <= grants.len(),
            earliest == earliest_expiry(grants@.take(i as int)),
            forall|k: int| 0 <= k < i ==> (#[trigger] grants@[k]).is_live(now_us),
        decreases grants.len() - i,
    {
        if !grants[i].live(now_us) {
            assert(!grants@[i as int].is_live(now_us));
            return None;
        }
        if grants[i].expires_us < earliest {
            earliest = grants[i].expires_us;
        }
        assert(grants@.take(i + 1).drop_last() =~= grants@.take(i as int));
        i = i + 1;
    }
    assert(grants@.take(i as int) =~= grants@);
    Some(earliest)
}

/// The stored state of an effect that may or may not have happened.
pub open spec fn is_uncertain(state: Seq<char>) -> bool {
    state == "DISPATCHING"@ || state == "OUTCOME_UNKNOWN"@
}

/// The stored state of an effect that has no outcome yet.
pub open spec fn is_open(state: Seq<char>) -> bool {
    state == "PREPARED"@ || is_uncertain(state)
}

/// An effect among these may or may not have happened.
pub open spec fn any_uncertain(states: Seq<String>) -> bool {
    exists|i: int| 0 <= i < states.len() && is_uncertain((#[trigger] states[i])@)
}

/// An effect among these has no outcome yet.
pub open spec fn any_open(states: Seq<String>) -> bool {
    exists|i: int| 0 <= i < states.len() && is_open((#[trigger] states[i])@)
}

/// An effect that may have happened has no outcome: a run that must not be
/// replayed must not end either.
pub proof fn uncertain_effects_are_open(states: Seq<String>)
    requires
        any_uncertain(states),
    ensures
        any_open(states),
{
    let i = choose|i: int| 0 <= i < states.len() && is_uncertain((#[trigger] states[i])@);
    assert(is_open(states[i]@));
}

fn uncertain(state: &str) -> (r: bool)
    ensures
        r == is_uncertain(state@),
{
    text::text_equal(state, "DISPATCHING") || text::text_equal(state, "OUTCOME_UNKNOWN")
}

/// Whether an effect among these may or may not have happened.
pub fn has_uncertain(states: &[String]) -> (r: bool)
    ensures
        r == any_uncertain(states@),
{
    let mut i: usize = 0;
    while i < states.len()
        invariant
            i <= states.len(),
            forall|k: int| 0 <= k < i ==> !is_uncertain((#[trigger] states@[k])@),
        decreases states.len() - i,
    {
        if uncertain(states[i].as_str()) {
            assert(is_uncertain(states@[i as int]@));
            return true;
        }
        i = i + 1;
    }
    false
}

/// Whether an effect among these has no outcome yet.
pub fn has_open(states: &[String]) -> (r: bool)
    ensures
        r == any_open(states@),
{
    let mut i: usize = 0;
    while i < states.len()
        invariant
            i <= states.len(),
            forall|k: int| 0 <= k < i ==> !is_open((#[trigger] states@[k])@),
        decreases states.len() - i,
    {
        if text::text_equal(states[i].as_str(), "PREPARED") || uncertain(states[i].as_str()) {
            assert(is_open(states@[i as int]@));
            return true;
        }
        i = i + 1;
    }
    false
}

/// The 32 bytes of a stored digest.
pub fn digest_array(stored: &[u8]) -> (r: Option<[u8; 32]>)
    ensures
        r is Some <==> stored@.len() == 32,
        r matches Some(digest) ==> digest@ == stored@,
{
    if stored.len() != 32 {
        return None;
    }
    let mut out: [u8; 32] = [0u8; 32];
    let mut i: usize = 0;
    while i < 32
        invariant
            i <= 32,
            stored@.len() == 32,
            forall|k: int| 0 <= k < i ==> out@[k] == stored@[k],
        decreases 32 - i,
    {
        out[i] = stored[i];
        i = i + 1;
    }
    assert(out@ =~= stored@);
    Some(out)
}

/// A worker's name: 1 to 64 ASCII letters, digits, `-` or `_`.
pub fn worker_identifier(worker: &str) -> (r: bool)
    ensures
        r == text::is_alias(worker@),
{
    text::alias_text(worker)
}

/// Builds `sqlx::Error::Protocol` from a message. Nothing is claimed of it.
#[verifier::external_body]
fn protocol_error(message: &str) -> (r: sqlx::Error) {
    sqlx::Error::Protocol(message.to_owned())
}

/// An effect as it is stored.
#[derive(Debug)]
pub struct StoredEffect {
    pub ordinal: i32,
    pub state: String,
    pub request_hash: Vec<u8>,
    pub provider_key: String,
    pub send_attempts: i32,
}

/// A run as it is stored.
#[derive(Debug)]
pub struct StoredRun {
    pub id: Uuid,
    pub state: String,
    pub module_digest: Vec<u8>,
    pub grant_id: Uuid,
    pub created_at: String,
    pub updated_at: String,
    pub lease_epoch: i64,
    pub attempt: i32,
    pub cancel_requested: bool,
    pub output: Option<Vec<u8>>,
    pub error_code: Option<String>,
}

impl StoredEffect {
    /// The record shows the stored effect.
    pub open spec fn shown_as(self, record: EffectRecord) -> bool {
        &&& record.ordinal == self.ordinal
        &&& record.state == self.state
        &&& record.request_hash@ == self.request_hash@
        &&& record.provider_key == self.provider_key
        &&& record.send_attempts == self.send_attempts
    }
}

impl StoredRun {
    /// The record shows the stored run.
    pub open spec fn shown_as(self, record: RunRecord) -> bool {
        &&& record.id == self.id
        &&& record.state == self.state
        &&& record.module_digest@ == self.module_digest@
        &&& record.grant_id == self.grant_id
        &&& record.created_at == self.created_at
        &&& record.updated_at == self.updated_at
        &&& record.lease_epoch == self.lease_epoch
        &&& record.attempt == self.attempt
        &&& record.cancel_requested == self.cancel_requested
        &&& record.output == self.output
        &&& record.error_code == self.error_code
    }
}

/// The record of a stored run and its effects.
pub fn run_record(row: StoredRun, effects: Vec<StoredEffect>) -> (r: Result<RunRecord, StoreError>)
    ensures
        match r {
            Ok(record) => {
                &&& row.shown_as(record)
                &&& record.effects@.len() == effects@.len()
                &&& forall|i: int|
                    0 <= i < effects@.len() ==> (#[trigger] effects@[i]).shown_as(
                        record.effects@[i],
                    )
            },
            Err(error) => {
                &&& error is IncompatibleSchema
                &&& row.module_digest@.len() != 32 || exists|i: int|
                    0 <= i < effects@.len() && (#[trigger] effects@[i]).request_hash@.len() != 32
            },
        },
{
    let mut shown: Vec<EffectRecord> = Vec::new();
    let ghost stored = effects@;
    for effect in iter: effects
        invariant
            stored == effects@,
            iter.seq() == stored,
            shown@.len() == iter.index(),
            forall|k: int| 0 <= k < shown@.len() ==> (#[trigger] stored[k]).shown_as(shown@[k]),
    {
        assert(effect == stored[shown@.len() as int]);
        match digest_array(effect.request_hash.as_slice()) {
            Some(request_hash) => shown.push(
                EffectRecord {
                    ordinal: effect.ordinal,
                    state: effect.state,
                    request_hash,
                    provider_key: effect.provider_key,
                    send_attempts: effect.send_attempts,
                },
            ),
            None => return Err(StoreError::IncompatibleSchema),
        }
    }
    match digest_array(row.module_digest.as_slice()) {
        Some(module_digest) => Ok(
            RunRecord {
                id: row.id,
                state: row.state,
                module_digest,
                grant_id: row.grant_id,
                created_at: row.created_at,
                updated_at: row.updated_at,
                lease_epoch: row.lease_epoch,
                attempt: row.attempt,
                cancel_requested: row.cancel_requested,
                output: row.output,
                error_code: row.error_code,
                effects: shown,
            },
        ),
        None => Err(StoreError::IncompatibleSchema),
    }
}

/// A migration as it should have been, or was, applied.
#[derive(Debug)]
pub struct AppliedMigration {
    pub version: i64,
    pub checksum: Vec<u8>,
    pub success: bool,
}

impl AppliedMigration {
    /// The migration was applied as expected, and with success.
    pub open spec fn matches_expected(self, expected: AppliedMigration) -> bool {
        &&& self.success
        &&& self.version == expected.version
        &&& self.checksum@ == expected.checksum@
    }
}

/// The settings of a store's connections, and the rules of its operations.
#[derive(Clone, Copy, Debug)]
pub struct Store {
    max_connections: u32,
}

impl Store {
    /// How many connections the pool may have.
    pub closed spec fn pool_size(self) -> u32 {
        self.max_connections
    }

    pub fn connect(max_connections: u32) -> (r: Result<Store, StoreError>)
        ensures
            match r {
                Ok(store) => 1 <= max_connections <= 32 && store.pool_size() == max_connections,
                Err(error) => !(1 <= max_connections <= 32) && error.refuses(
                    "pool size must be 1..=32"@,
                ),
            },
    {
        if max_connections < 1 || max_connections > 32 {
            return Err(StoreError::Configuration("pool size must be 1..=32"));
        }
        Ok(Store { max_connections })
    }

    pub fn max_connections(&self) -> (r: u32)
        ensures
            r == self.pool_size(),
    {
        self.max_connections
    }

    /// Reject missing, dirty, changed, older and newer migration histories.
    /// Both lists are in the order of versions.
    pub fn check_schema(expected: &[AppliedMigration], applied: &[AppliedMigration]) -> (r: Result<
        (),
        StoreError,
    >)
        ensures
            match r {
                Ok(()) => is_compatible(expected@, applied@),
                Err(error) => error is IncompatibleSchema && !is_compatible(expected@, applied@),
            },
    {
        if expected.len() == 0 || expected.len() > 1024 || applied.len() != expected.len() {
            return Err(StoreError::IncompatibleSchema);
        }
        let mut i: usize = 0;
        while i < expected.len()
            invariant
                i <= expected.len(),
                expected.len() == applied.len(),
                forall|k: int|
                    0 <= k < i ==> (#[trigger] applied@[k]).matches_expected(expected@[k]),
            decreases expected.len() - i,
        {
            if !applied[i].success || applied[i].version != expected[i].version
                || !text::bytes_equal(
                applied[i].checksum.as_slice(),
                expected[i].checksum.as_slice(),
            ) {
                assert(!applied@[i as int].matches_expected(expected@[i as int]));
                return Err(StoreError::IncompatibleSchema);
            }
            i = i + 1;
        }
        Ok(())
    }

    /// Whether the scheduler's row was found.
    pub fn begin_scheduler(found: bool) -> (r: Result<(), StoreError>)
        ensures
            match r {
                Ok(()) => found,
                Err(error) => error is MissingScheduler && !found,
            },
    {
        if found {
            Ok(())
        } else {
            Err(StoreError::MissingScheduler)
        }
    }

    /// Whether a module may be stored. The caller has validated it.
    pub fn admit_module(wasm: &[u8]) -> (r: Result<(), StoreError>)
        ensures
            match r {
                Ok(()) => 0 < wasm@.len() <= MODULE_BYTES,
                Err(error) => !(0 < wasm@.len() <= MODULE_BYTES) && error.refuses(
                    "invalid module size"@,
                ),
            },
    {
        if wasm.len() == 0 || wasm.len() > MODULE_BYTES {
            return Err(StoreError::Configuration("invalid module size"));
        }
        Ok(())
    }

    /// What storing a module came to: it was inserted, or `existing` was found
    /// under its digest.
    pub fn put_module(wasm: &[u8], inserted: bool, existing: Option<Vec<u8>>) -> (r: Result<
        PutModule,
        StoreError,
    >)
        ensures
            if inserted {
                r == Ok::<PutModule, StoreError>(PutModule::Created)
            } else {
                match existing {
                    None => r is Err && r->Err_0 is ModuleNotFound,
                    Some(stored) => if stored@ == wasm@ {
                        r == Ok::<PutModule, StoreError>(PutModule::Existing)
                    } else {
                        r is Err && r->Err_0 is Database
                    },
                }
            },
    {
        if inserted {
            return Ok(PutModule::Created);
        }
        match existing {
            None => Err(StoreError::ModuleNotFound),
            Some(stored) => if text::bytes_equal(stored.as_slice(), wasm) {
                Ok(PutModule::Existing)
            } else {
                Err(StoreError::Database(protocol_error("module digest collision")))
            },
        }
    }
}

/// The applied migrations are the expected ones, all of them and no others.
pub open spec fn is_compatible(
    expected: Seq<AppliedMigration>,
    applied: Seq<AppliedMigration>,
) -> bool {
    &&& 1 <= expected.len() <= 1024
    &&& applied.len() == expected.len()
    &&& forall|i: int|
        0 <= i < expected.len() ==> (#[trigger] applied[i]).matches_expected(expected[i])
}

/// Each state is stored under the name that callers see.
pub proof fn states_are_stored_by_name(state: RunState)
    ensures
        state is Queued ==> name_of(state) == "queued"@,
        state is RetryWait ==> name_of(state) == "retry_wait"@,
        state is Leased ==> name_of(state) == "leased"@,
        state is Running ==> name_of(state) == "running"@,
        state is Succeeded ==> name_of(state) == "succeeded"@,
        state is Failed ==> name_of(state) == "failed"@,
        state is Cancelled ==> name_of(state) == "cancelled"@,
        state is NeedsReconciliation ==> name_of(state) == "needs_reconciliation"@,
{
}

/// The payload of a state's event is an object with the state's name, and tells
/// states apart.
pub proof fn payloads_tell_states_apart(a: RunState, b: RunState)
    ensures
        state_payload_text(a) == "{\"state\":\""@ + name_of(a) + "\"}"@,
        state_payload_text(a) == state_payload_text(b) ==> a == b,
{
    let head = "{\"state\":\""@;
    let tail = "\"}"@;
    if state_payload_text(a) == state_payload_text(b) {
        let x = state_payload_text(a);
        let y = state_payload_text(b);
        assert(name_of(a).len() == x.len() - head.len() - tail.len());
        assert(name_of(a) =~= x.subrange(head.len() as int, x.len() - tail.len()));
        assert(name_of(b) =~= y.subrange(head.len() as int, y.len() - tail.len()));
        names_tell_states_apart(a, b);
    }
}

/// A grant is live up to its expiry and no longer, and a revocation ends it at
/// once and for good.
pub proof fn grants_live_up_to_their_expiry(grant: GrantTime, now_us: i64, later_us: i64)
    requires
        now_us <= later_us,
    ensures
        grant.revoked ==> !grant.is_live(now_us),
        !grant.revoked ==> (grant.is_live(now_us) <==> now_us < grant.expires_us),
        grant.is_live(later_us) ==> grant.is_live(now_us),
        is_live_grant(Some(grant), now_us) <==> grant.is_live(now_us),
        !is_live_grant(None, now_us),
{
}

/// A chain is live exactly where it has a grant and each of its grants is neither
/// revoked nor expired.
pub proof fn chains_live_while_every_grant_does(grants: Seq<GrantTime>, now_us: i64)
    ensures
        are_live(grants, now_us) <==> {
            &&& grants.len() > 0
            &&& forall|i: int|
                0 <= i < grants.len() ==> !(#[trigger] grants[i]).revoked && grants[i].expires_us
                    > now_us
        },
{
    if are_live(grants, now_us) {
        assert forall|i: int| 0 <= i < grants.len() implies !(#[trigger] grants[i]).revoked
            && grants[i].expires_us > now_us by {
            assert(grants[i].is_live(now_us));
        }
    }
}

/// Of the effects of a run, those in dispatch or of unknown outcome may have
/// happened, and those have no outcome that are merely prepared too; all others
/// are settled.
pub proof fn effects_are_open_until_settled(states: Seq<String>)
    ensures
        any_uncertain(states) <==> exists|i: int|
            0 <= i < states.len() && ((#[trigger] states[i])@ == "DISPATCHING"@ || states[i]@
                == "OUTCOME_UNKNOWN"@),
        any_open(states) <==> exists|i: int|
            0 <= i < states.len() && ((#[trigger] states[i])@ == "PREPARED"@ || states[i]@
                == "DISPATCHING"@ || states[i]@ == "OUTCOME_UNKNOWN"@),
{
    if exists|i: int|
        0 <= i < states.len() && ((#[trigger] states[i])@ == "DISPATCHING"@ || states[i]@
            == "OUTCOME_UNKNOWN"@) {
        let i = choose|i: int|
            0 <= i < states.len() && ((#[trigger] states[i])@ == "DISPATCHING"@ || states[i]@
                == "OUTCOME_UNKNOWN"@);
        assert(is_uncertain(states[i]@));
    }
    if exists|i: int|
        0 <= i < states.len() && ((#[trigger] states[i])@ == "PREPARED"@ || states[i]@
            == "DISPATCHING"@ || states[i]@ == "OUTCOME_UNKNOWN"@) {
        let i = choose|i: int|
            0 <= i < states.len() && ((#[trigger] states[i])@ == "PREPARED"@ || states[i]@
                == "DISPATCHING"@ || states[i]@ == "OUTCOME_UNKNOWN"@);
        assert(is_open(states[i]@));
    }
}

/// A record shows the whole of what is stored of a run, its result among it, and
/// of each effect.
pub proof fn records_show_what_is_stored(
    row: StoredRun,
    record: RunRecord,
    effect: StoredEffect,
    shown: EffectRecord,
)
    requires
        row.shown_as(record),
        effect.shown_as(shown),
    ensures
        record.id == row.id,
        record.state == row.state,
        record.module_digest@ == row.module_digest@,
        record.grant_id == row.grant_id,
        record.created_at == row.created_at,
        record.updated_at == row.updated_at,
        record.lease_epoch == row.lease_epoch,
        record.attempt == row.attempt,
        record.cancel_requested == row.cancel_requested,
        record.output == row.output,
        record.error_code == row.error_code,
        shown.ordinal == effect.ordinal,
        shown.state == effect.state,
        shown.request_hash@ == effect.request_hash@,
        shown.provider_key == effect.provider_key,
        shown.send_attempts == effect.send_attempts,
{
}

/// A schema is compatible exactly where every expected migration, of which there
/// are 1 to 1024, was applied with success and unchanged, and no other was.
pub proof fn compatible_schemas_are_the_expected_ones(
    expected: Seq<AppliedMigration>,
    applied: Seq<AppliedMigration>,
)
    ensures
        is_compatible(expected, applied) <==> {
            &&& 0 < expected.len() < 1025
            &&& applied.len() == expected.len()
            &&& forall|i: int|
                0 <= i < expected.len() ==> {
                    &&& (#[trigger] applied[i]).success
                    &&& applied[i].version == expected[i].version
                    &&& applied[i].checksum@ == expected[i].checksum@
                }
        },
{
    if is_compatible(expected, applied) {
        assert forall|i: int| 0 <= i < expected.len() implies {
            &&& (#[trigger] applied[i]).success
            &&& applied[i].version == expected[i].version
            &&& applied[i].checksum@ == expected[i].checksum@
        } by {
            assert(applied[i].matches_expected(expected[i]));
        }
    }
}

/// A refusal of parameters names them, and no other error does.
pub proof fn refused_parameters_are_named(failed: StoreError, a: Seq<char>, b: Seq<char>)
    ensures
        failed.refuses(a) ==> failed is Configuration && failed->Configuration_0@ == a,
        failed is Configuration ==> failed.refuses(failed->Configuration_0@),
        failed.refuses(a) && failed.refuses(b) ==> a == b,
{
}

} // verus!
