//! The rules of the durable store.
use effectlatch::domain::grants::{Authority, Grant, GrantError};
use effectlatch::domain::hash;
use effectlatch::domain::limits::{Limits, MODULE_BYTES, PAYLOAD_BYTES};
use effectlatch::domain::state::RunState;
use effectlatch::domain::types::NormalizedRun;
use effectlatch::ids::Uuid;
use effectlatch::names::NameSet;
use effectlatch::store::admission::{AdmitFacts, AdmitPlan};
use effectlatch::store::events::{append_event, EventHead, EVENT_BYTES};
use effectlatch::store::grants::{
    ancestry_ids, load_grant_chain, EffectRow, GrantRow, ReservePlan, RevokePlan,
};
use effectlatch::store::scheduler::{
    ClaimFacts, ClaimPlan, ClaimPolicy, ExpiredFacts, HeldRun, LeaseFacts, QueuedRun, ReapPolicy,
    Reaped, RunRow, TenantCandidate, WaitingCandidate, WaitingFacts,
};
use effectlatch::store::{
    digest_array, has_open, has_uncertain, live_grant, run_record, state_name, state_payload,
    worker_identifier, AppliedMigration, GrantTime, PutModule, ReservationKind, Store, StoreError, StoredEffect, StoredRun,
};

fn id(value: u128) -> Uuid {
    Uuid::from_u128(value)
}

#[test]
fn pools_are_bounded() {
    assert_eq!(Store::connect(32).unwrap().max_connections(), 32);
    for size in [0, 33] {
        assert!(matches!(
            Store::connect(size),
            Err(StoreError::Configuration("pool size must be 1..=32"))
        ));
    }
    assert!(Store::begin_scheduler(true).is_ok());
    assert!(matches!(
        Store::begin_scheduler(false),
        Err(StoreError::MissingScheduler)
    ));
}

fn migration(version: i64, checksum: &[u8], success: bool) -> AppliedMigration {
    AppliedMigration {
        version,
        checksum: checksum.to_vec(),
        success,
    }
}

#[test]
fn schemas_are_compatible_or_not() {
    let expected = [migration(1, b"a", true), migration(2, b"b", true)];
    let applied = |version: i64, checksum: &[u8], success: bool| {
        [migration(1, b"a", true), migration(version, checksum, success)]
    };
    assert!(Store::check_schema(&expected, &applied(2, b"b", true)).is_ok());
    for changed in [
        applied(3, b"b", true),
        applied(2, b"c", true),
        applied(2, b"b", false),
    ] {
        assert!(matches!(
            Store::check_schema(&expected, &changed),
            Err(StoreError::IncompatibleSchema)
        ));
    }
    assert!(Store::check_schema(&expected, &expected[0..1]).is_err());
    assert!(Store::check_schema(&[], &[]).is_err());
}

#[test]
fn modules_are_stored_once() {
    assert!(Store::admit_module(b"wasm").is_ok());
    assert!(matches!(
        Store::admit_module(b""),
        Err(StoreError::Configuration("invalid module size"))
    ));
    assert!(Store::admit_module(&vec![0; MODULE_BYTES + 1]).is_err());
    assert_eq!(
        Store::put_module(b"wasm", true, None).unwrap(),
        PutModule::Created
    );
    assert_eq!(
        Store::put_module(b"wasm", false, Some(b"wasm".to_vec())).unwrap(),
        PutModule::Existing
    );
    assert!(matches!(
        Store::put_module(b"wasm", false, None),
        Err(StoreError::ModuleNotFound)
    ));
    match Store::put_module(b"wasm", false, Some(b"other".to_vec())) {
        Err(StoreError::Database(error)) => {
            assert!(error.to_string().contains("module digest collision"))
        }
        other => panic!("no collision: {other:?}"),
    }
}

fn stored_run(digest: Vec<u8>) -> StoredRun {
    StoredRun {
        id: id(1),
        state: "queued".into(),
        module_digest: digest,
        grant_id: id(2),
        created_at: "c".into(),
        updated_at: "u".into(),
        lease_epoch: 3,
        attempt: 1,
        cancel_requested: false,
        output: None,
        error_code: None,
    }
}

fn stored_effect(hash: Vec<u8>) -> StoredEffect {
    StoredEffect {
        ordinal: 0,
        state: "PREPARED".into(),
        request_hash: hash,
        provider_key: "key".into(),
        send_attempts: 2,
    }
}

#[test]
fn records_need_whole_digests() {
    let record = run_record(stored_run(vec![7; 32]), vec![stored_effect(vec![8; 32])]).unwrap();
    assert_eq!(record.module_digest, [7; 32]);
    assert_eq!(record.effects[0].request_hash, [8; 32]);
    assert_eq!(record.effects[0].send_attempts, 2);
    assert!(matches!(
        run_record(stored_run(vec![7; 31]), vec![]),
        Err(StoreError::IncompatibleSchema)
    ));
    assert!(matches!(
        run_record(stored_run(vec![7; 32]), vec![stored_effect(vec![])]),
        Err(StoreError::IncompatibleSchema)
    ));
    assert_eq!(digest_array(&[1; 33]), None);
    assert_eq!(state_name(RunState::NeedsReconciliation), "needs_reconciliation");
    assert_eq!(state_payload(RunState::Queued), r#"{"state":"queued"}"#);
    assert!(worker_identifier("worker-1"));
    assert!(!worker_identifier("worker 1"));
}

fn head(next_seq: i64, last_hash: Vec<u8>) -> Option<EventHead> {
    Some(EventHead {
        next_seq,
        last_hash,
    })
}

#[test]
fn events_are_chained() {
    let plan = append_event(id(1), id(2), head(1, vec![0; 32]), "run.admitted", b"{}").unwrap();
    assert_eq!((plan.seq, plan.next_seq), (1, 2));
    assert_eq!(plan.previous, [0; 32]);
    assert_eq!(
        plan.hash,
        hash::event(id(1), id(2), 1, &[0; 32], "run.admitted", b"{}")
    );
    let next = append_event(
        id(1),
        id(2),
        head(plan.next_seq, plan.hash.to_vec()),
        "run.failed",
        b"{}",
    )
    .unwrap();
    assert_eq!(next.previous, plan.hash);
    assert_ne!(next.hash, plan.hash);
    for bad in [head(0, vec![0; 32]), head(i64::MAX, vec![0; 32]), head(1, vec![0; 31])] {
        assert!(matches!(
            append_event(id(1), id(2), bad, "kind", b""),
            Err(StoreError::CorruptEventHead)
        ));
    }
    assert!(matches!(
        append_event(id(1), id(2), None, "kind", b""),
        Err(StoreError::RunNotFound)
    ));
    for (kind, payload) in [
        ("", vec![]),
        ("k", vec![0; EVENT_BYTES + 1]),
    ] {
        assert!(matches!(
            append_event(id(1), id(2), head(1, vec![0; 32]), kind, &payload),
            Err(StoreError::Configuration("invalid event kind or payload size"))
        ));
    }
}

fn normalized() -> NormalizedRun {
    NormalizedRun {
        module_digest: [1; 32],
        grant_id: id(3),
        input: b"input".to_vec(),
        limits: Limits::default(),
    }
}

fn until(expires_us: i64) -> GrantTime {
    GrantTime {
        revoked: false,
        expires_us,
    }
}

fn revoked(expires_us: i64) -> GrantTime {
    GrantTime {
        revoked: true,
        expires_us,
    }
}

#[test]
fn grants_are_live_until_they_expire_or_are_revoked() {
    assert!(until(101).live(100));
    assert!(!until(100).live(100));
    assert!(!revoked(101).live(100));
    assert!(live_grant(Some(until(101)), 100));
    assert!(!live_grant(Some(until(100)), 100));
    assert!(!live_grant(None, 100));
}

fn effects(states: &[&str]) -> Vec<String> {
    states.iter().map(|state| state.to_string()).collect()
}

#[test]
fn effects_are_uncertain_or_open() {
    for (states, uncertain, open) in [
        (vec![], false, false),
        (vec!["COMMITTED"], false, false),
        (vec!["COMMITTED", "PREPARED"], false, true),
        (vec!["COMMITTED", "DISPATCHING"], true, true),
        (vec!["OUTCOME_UNKNOWN", "COMMITTED"], true, true),
    ] {
        assert_eq!(has_uncertain(&effects(&states)), uncertain);
        assert_eq!(has_open(&effects(&states)), open);
    }
}

fn admit_facts() -> AdmitFacts {
    AdmitFacts {
        tenant_limit: Some(10),
        existing: None,
        module_exists: true,
        grant: Some(until(101)),
        now_us: 100,
        global_pending: 0,
        tenant_pending: 0,
    }
}

fn admitted(facts: AdmitFacts) -> Result<AdmitPlan, StoreError> {
    Store::admit_run(id(2), "key-1", &normalized(), 20, 5, facts, id(7))
}

#[test]
fn identity_is_judged_before_capacity() {
    let hash = hash::run(&normalized());
    match admitted(admit_facts()).unwrap() {
        AdmitPlan::Insert { run, event } => {
            assert_eq!((run.tenant, run.id), (id(2), id(7)));
            assert_eq!(run.key, "key-1");
            assert_eq!(run.request_hash, hash);
            assert_eq!(run.module_digest, [1; 32]);
            assert_eq!(run.grant_id, id(3));
            assert_eq!(run.input, b"input");
            assert_eq!(run.limits, Limits::default());
            assert_eq!(run.state, "queued");
            assert_eq!(event.kind, "run.admitted");
            assert_eq!(event.payload, r#"{"state":"queued"}"#);
        }
        AdmitPlan::Existing => panic!("nothing was stored"),
    }
    let full = |existing: Vec<u8>| AdmitFacts {
        existing: Some(existing),
        module_exists: false,
        grant: None,
        global_pending: 1000,
        ..admit_facts()
    };
    assert!(matches!(admitted(full(hash.to_vec())), Ok(AdmitPlan::Existing)));
    assert!(matches!(
        admitted(full(vec![0; 32])),
        Err(StoreError::IdempotencyConflict)
    ));
    assert!(matches!(
        Store::admit_existing(&hash, &hash),
        Ok(AdmitPlan::Existing)
    ));
    let mut other = normalized();
    other.input.push(0);
    assert!(matches!(
        Store::admit_existing(&hash, &hash::run(&other)),
        Err(StoreError::IdempotencyConflict)
    ));
}

#[test]
fn admission_refuses_in_order() {
    assert!(matches!(
        admitted(AdmitFacts {
            tenant_limit: None,
            ..admit_facts()
        }),
        Err(StoreError::GrantDenied)
    ));
    assert!(matches!(
        admitted(AdmitFacts {
            module_exists: false,
            grant: None,
            ..admit_facts()
        }),
        Err(StoreError::ModuleNotFound)
    ));
    for grant in [None, Some(until(100)), Some(revoked(101))] {
        assert!(matches!(
            admitted(AdmitFacts {
                grant,
                ..admit_facts()
            }),
            Err(StoreError::GrantDenied)
        ));
    }
    for (limit, global, tenant) in [(10, 20, 0), (10, 0, 5), (2, 0, 2), (10, -1, 0), (10, 0, -1)] {
        assert!(matches!(
            admitted(AdmitFacts {
                tenant_limit: Some(limit),
                global_pending: global,
                tenant_pending: tenant,
                ..admit_facts()
            }),
            Err(StoreError::CapacityExhausted)
        ));
    }
    assert!(admitted(AdmitFacts {
        tenant_limit: Some(-1),
        global_pending: 19,
        tenant_pending: 4,
        ..admit_facts()
    })
    .is_ok());
    for (key, global, tenant) in [
        ("", 20, 5),
        ("with space", 20, 5),
        ("key", 0, 5),
        ("key", 1001, 5),
        ("key", 20, 0),
        ("key", 1000, 101),
        ("key", 4, 5),
    ] {
        assert!(matches!(
            Store::admit_run(id(2), key, &normalized(), global, tenant, admit_facts(), id(7)),
            Err(StoreError::Configuration("invalid admission parameters"))
        ));
        assert!(matches!(
            Store::check_admission(key, global, tenant),
            Err(StoreError::Configuration("invalid admission parameters"))
        ));
    }
}

const POLICY: ClaimPolicy = ClaimPolicy {
    max_active_global: 4,
    max_active_per_tenant: 1,
    max_attempts: 3,
    lease_ms: 6000,
};

fn queued(run: u128, created_us: i64) -> QueuedRun {
    QueuedRun {
        run: id(run),
        created_us,
        attempt: 0,
        cancel_requested: false,
    }
}

fn candidate(tenant: u128, last_served_seq: i64, run: Option<u128>) -> TenantCandidate {
    TenantCandidate {
        tenant: id(tenant),
        active_count: 0,
        active_limit: 1,
        last_served_seq,
        queued: run.map(|run| queued(run, 0)).into_iter().collect(),
    }
}

fn chosen(candidates: &[TenantCandidate]) -> Option<(Uuid, Uuid)> {
    Store::choose_run("worker", &[id(1), id(2), id(3)], 1, POLICY, 0, 0, candidates).unwrap()
}

#[test]
fn service_goes_round() {
    assert_eq!(chosen(&[]), None);
    assert_eq!(
        chosen(&[
            candidate(2, 5, Some(20)),
            candidate(1, 5, Some(10)),
            candidate(3, 4, Some(30)),
        ]),
        Some((id(3), id(30)))
    );
    assert_eq!(
        chosen(&[candidate(2, 5, Some(20)), candidate(1, 5, Some(10))]),
        Some((id(1), id(10)))
    );
    // Nothing queued, no room, or not allowed.
    let mut busy = candidate(1, 0, Some(10));
    busy.active_count = 1;
    assert_eq!(
        chosen(&[candidate(3, 0, None), busy, candidate(9, 0, Some(90))]),
        None
    );
}

#[test]
fn the_oldest_run_that_may_be_tried_is_served() {
    let mut tenant = candidate(1, 0, None);
    tenant.queued = vec![
        QueuedRun { attempt: 3, ..queued(10, 1) },
        QueuedRun { cancel_requested: true, ..queued(11, 2) },
        queued(13, 4),
        queued(14, 3),
        QueuedRun { attempt: 2, ..queued(12, 3) },
        queued(15, 5),
    ];
    assert_eq!(chosen(&[tenant]), Some((id(1), id(12))));
    let mut spent = candidate(1, 0, None);
    spent.queued = vec![QueuedRun { attempt: 3, ..queued(10, 1) }];
    assert_eq!(chosen(&[spent, candidate(2, 9, Some(20))]), Some((id(2), id(20))));
}

#[test]
fn claims_are_bounded() {
    let ask = |worker: &str, allowed: &[Uuid], slots: u8, policy: ClaimPolicy, active: i64, own: i64| {
        Store::choose_run(worker, allowed, slots, policy, active, own, &[candidate(1, 0, Some(10))])
    };
    assert!(ask("worker", &[id(1)], 1, POLICY, 3, 1).unwrap().is_some());
    assert_eq!(ask("worker", &[id(1)], 1, POLICY, 4, 0).unwrap(), None);
    assert_eq!(ask("worker", &[id(1)], 1, POLICY, 0, 2).unwrap(), None);
    for active in [-1, 5] {
        assert!(matches!(
            ask("worker", &[id(1)], 1, POLICY, active, 0),
            Err(StoreError::CorruptScheduler)
        ));
    }
    for (worker, allowed, slots, policy) in [
        ("", vec![id(1)], 1, POLICY),
        ("worker", vec![], 1, POLICY),
        ("worker", vec![id(1); 1025], 1, POLICY),
        ("worker", vec![id(1)], 0, POLICY),
        ("worker", vec![id(1)], 3, POLICY),
        ("worker", vec![id(1)], 1, ClaimPolicy { max_active_global: 5, ..POLICY }),
        ("worker", vec![id(1)], 1, ClaimPolicy { max_active_per_tenant: 2, ..POLICY }),
        ("worker", vec![id(1)], 1, ClaimPolicy { max_attempts: 4, ..POLICY }),
        ("worker", vec![id(1)], 1, ClaimPolicy { lease_ms: 0, ..POLICY }),
    ] {
        assert!(matches!(
            ask(worker, &allowed, slots, policy, 0, 0),
            Err(StoreError::Configuration("invalid claim parameters"))
        ));
    }
}

fn row(state: RunState) -> RunRow {
    RunRow {
        state: state_name(state).into(),
        held: false,
        owner: None,
        lease_until_us: None,
        epoch: 4,
        attempt: 1,
        cancel_requested: false,
    }
}

fn claim_facts() -> ClaimFacts {
    ClaimFacts {
        active_count: 0,
        active_limit: 1,
        row: row(RunState::Queued),
        grants: Ok(vec![until(i64::MAX)]),
        dispatch_seq: 8,
        module_digest: vec![5; 32],
        now_us: 1_000_000,
    }
}

#[test]
fn a_claim_leases_at_the_next_epoch() {
    match Store::claim_run("worker", POLICY, claim_facts()).unwrap() {
        ClaimPlan::Lease {
            row,
            active_count,
            dispatch_seq,
            module_digest,
            event,
        } => {
            assert_eq!(row.state, "leased");
            assert_eq!(row.owner.as_deref(), Some("worker"));
            assert_eq!((row.epoch, row.attempt, row.held), (5, 2, true));
            assert_eq!((active_count, dispatch_seq), (1, 9));
            assert_eq!(module_digest, [5; 32]);
            assert_eq!(row.lease_until_us, Some(7_000_000));
            assert_eq!(event.kind, "lease.claimed");
            assert_eq!(event.payload, r#"{"epoch":5,"worker_id":"worker"}"#);
        }
        other => panic!("not leased: {other:?}"),
    }
    let short = ClaimFacts {
        grants: Ok(vec![until(2_000_000), until(1_500_000), until(i64::MAX)]),
        ..claim_facts()
    };
    match Store::claim_run("worker", POLICY, short).unwrap() {
        ClaimPlan::Lease { row, .. } => assert_eq!(row.lease_until_us, Some(1_500_000)),
        other => panic!("not leased: {other:?}"),
    }
}

#[test]
fn a_claim_without_a_live_grant_fails_the_run() {
    for grants in [
        vec![until(i64::MAX), until(1_000_000)],
        vec![revoked(i64::MAX), until(i64::MAX)],
        vec![],
    ] {
        let dead = ClaimFacts {
            grants: Ok(grants),
            ..claim_facts()
        };
        match Store::claim_run("worker", POLICY, dead).unwrap() {
            ClaimPlan::Deny {
                row,
                error_code,
                events,
            } => {
                assert_eq!(row.state, "failed");
                assert_eq!((row.epoch, row.attempt, row.held), (4, 1, false));
                assert_eq!(error_code, "GRANT_DENIED");
                assert_eq!(events[0].kind, "grant.denied");
                assert_eq!(events[0].payload, r#"{"reason":"inactive"}"#);
                assert_eq!(events[1].kind, "run.failed");
                assert_eq!(
                    events[1].payload,
                    r#"{"state":"failed","error_code":"GRANT_DENIED"}"#
                );
            }
            other => panic!("not denied: {other:?}"),
        }
    }
}

#[test]
fn corrupt_claims_are_refused() {
    let changes: [fn(&mut ClaimFacts); 8] = [
        |facts| facts.active_count = -1,
        |facts| facts.active_count = 1,
        |facts| facts.active_limit = 0,
        |facts| facts.row = row(RunState::Running),
        |facts| facts.row.held = true,
        |facts| facts.row.epoch = i64::MAX,
        |facts| facts.row.attempt = 3,
        |facts| facts.dispatch_seq = i64::MAX,
    ];
    for change in changes {
        let mut facts = claim_facts();
        change(&mut facts);
        assert!(matches!(
            Store::claim_run("worker", POLICY, facts),
            Err(StoreError::CorruptScheduler)
        ));
    }
    assert!(matches!(
        Store::claim_run("a\"b", POLICY, claim_facts()),
        Err(StoreError::Configuration("invalid claim parameters"))
    ));
    let unloaded = ClaimFacts {
        grants: Err(StoreError::GrantNotFound),
        ..claim_facts()
    };
    assert!(matches!(
        Store::claim_run("worker", POLICY, unloaded),
        Err(StoreError::GrantNotFound)
    ));
    let torn = ClaimFacts {
        module_digest: vec![5; 31],
        ..claim_facts()
    };
    assert!(matches!(
        Store::claim_run("worker", POLICY, torn),
        Err(StoreError::IncompatibleSchema)
    ));
}

fn leased(state: RunState) -> LeaseFacts {
    LeaseFacts {
        tenant: id(1),
        row: RunRow {
            held: true,
            owner: Some("worker".into()),
            lease_until_us: Some(51),
            ..row(state)
        },
        now_us: 50,
    }
}

fn fence_changes() -> [fn(&mut LeaseFacts); 5] {
    [
        |facts| facts.row.owner = Some("other".into()),
        |facts| facts.row.epoch = 5,
        |facts| facts.row.lease_until_us = Some(50),
        |facts| facts.row.lease_until_us = None,
        |facts| facts.row.held = false,
    ]
}

#[test]
fn heartbeats_renew_the_live_lease_alone() {
    let grant = Some(until(2_000_000));
    let beat = |facts: Option<LeaseFacts>, grant: Option<GrantTime>| {
        Store::heartbeat_run("worker", &[id(1)], 4, 1000, facts, grant)
    };
    for state in [RunState::Leased, RunState::Running] {
        let plan = beat(Some(leased(state)), grant).unwrap();
        assert_eq!(plan.row.lease_until_us, Some(1_000_050));
        assert_eq!((plan.row.epoch, plan.row.held), (4, true));
        assert_eq!(plan.row.state, state_name(state));
        assert!(!plan.cancel_requested);
    }
    let plan = beat(Some(leased(RunState::Running)), Some(until(70))).unwrap();
    assert_eq!(plan.row.lease_until_us, Some(70));
    assert!(matches!(
        beat(Some(leased(RunState::Queued)), grant),
        Err(StoreError::LeaseConflict)
    ));
    for dead in [None, Some(until(50)), Some(revoked(2_000_000))] {
        assert!(matches!(
            beat(Some(leased(RunState::Running)), dead),
            Err(StoreError::LeaseConflict)
        ));
    }
    for change in fence_changes() {
        let mut facts = leased(RunState::Running);
        change(&mut facts);
        assert!(matches!(
            beat(Some(facts), grant),
            Err(StoreError::LeaseConflict)
        ));
    }
    assert!(matches!(beat(None, grant), Err(StoreError::RunNotFound)));
    assert!(matches!(
        Store::heartbeat_run(
            "worker",
            &[id(2)],
            4,
            1000,
            Some(leased(RunState::Running)),
            grant
        ),
        Err(StoreError::RunNotFound)
    ));
    for (worker, epoch, lease_ms) in [("a b", 4, 1000), ("worker", 0, 1000), ("worker", 4, 6001)] {
        assert!(matches!(
            Store::heartbeat_run(worker, &[id(1)], epoch, lease_ms, None, grant),
            Err(StoreError::Configuration("invalid heartbeat parameters"))
        ));
    }
}

#[test]
fn runs_start_once_under_their_lease() {
    let start = |facts: Option<LeaseFacts>| Store::mark_run_started("worker", &[id(1)], 4, facts);
    let plan = start(Some(leased(RunState::Leased))).unwrap().unwrap();
    assert_eq!(plan.row.state, "running");
    assert_eq!(plan.event.kind, "runner.started");
    assert_eq!(plan.event.payload, r#"{"state":"running"}"#);
    assert!(start(Some(leased(RunState::Running))).unwrap().is_none());
    for change in fence_changes() {
        let mut facts = leased(RunState::Leased);
        change(&mut facts);
        assert!(matches!(
            start(Some(facts)),
            Err(StoreError::LeaseConflict)
        ));
    }
    assert!(matches!(start(None), Err(StoreError::RunNotFound)));
    assert!(matches!(
        Store::mark_run_started("worker", &[id(1)], 0, None),
        Err(StoreError::Configuration("invalid started parameters"))
    ));
}

const REAP: ReapPolicy = ReapPolicy {
    max_attempts: 3,
    max_pending_global: 10,
    max_pending_tenant: 5,
};

fn expired() -> ExpiredFacts {
    ExpiredFacts {
        tenant: id(1),
        run: id(2),
        active_count: 1,
        queue_limit: 4,
        row: leased(RunState::Running).row,
        now_us: 51,
        effects: effects(&["COMMITTED", "PREPARED"]),
        tenant_pending: 0,
    }
}

fn reap(global: i64, facts: ExpiredFacts) -> (Reaped, String, Option<i32>, Vec<&'static str>) {
    let plan = Store::reap_one(REAP, global, None, Some(facts)).unwrap().unwrap();
    assert!(!plan.row.held);
    assert_eq!(plan.row.owner, None);
    assert_eq!(plan.row.lease_until_us, None);
    assert_eq!(plan.row.epoch, 4);
    assert_eq!(plan.events[0].payload, r#"{"expired":true}"#);
    (
        plan.outcome,
        plan.row.state,
        plan.active_count,
        plan.events.iter().map(|event| event.kind).collect(),
    )
}

#[test]
fn expired_leases_are_reassessed() {
    assert_eq!(
        reap(0, expired()),
        (
            Reaped::Requeued,
            "queued".into(),
            Some(0),
            vec!["lease.expired", "run.requeued"]
        )
    );
    let mut facts = expired();
    facts.row.attempt = 3;
    assert_eq!(reap(0, facts).0, Reaped::Failed);
    let mut facts = expired();
    facts.row.attempt = 3;
    facts.row.cancel_requested = true;
    assert_eq!(reap(0, facts).1, "cancelled");
    let mut facts = expired();
    facts.row.cancel_requested = true;
    facts.effects = effects(&["COMMITTED", "OUTCOME_UNKNOWN"]);
    assert_eq!(
        reap(0, facts),
        (
            Reaped::NeedsReconciliation,
            "needs_reconciliation".into(),
            Some(0),
            vec!["lease.expired", "run.needs_reconciliation"]
        )
    );
    assert_eq!(reap(10, expired()).0, Reaped::WaitingForQueue);
    let mut facts = expired();
    facts.tenant_pending = 4;
    assert_eq!(reap(0, facts).3[1], "run.retry_wait");
}

#[test]
fn a_renewed_or_missing_lease_is_left_alone() {
    assert!(Store::reap_one(REAP, 0, None, None).unwrap().is_none());
    for renewed in [Some(52), None] {
        let mut facts = expired();
        facts.row.lease_until_us = renewed;
        assert!(Store::reap_one(REAP, 0, None, Some(facts)).unwrap().is_none());
    }
    let mut facts = expired();
    facts.active_count = 0;
    assert!(matches!(
        Store::reap_one(REAP, 0, None, Some(facts)),
        Err(StoreError::CorruptScheduler)
    ));
    let mut facts = expired();
    facts.row.held = false;
    assert!(Store::reap_one(REAP, 0, None, Some(facts)).is_err());
    for bad in [
        ReapPolicy { max_attempts: 4, ..REAP },
        ReapPolicy { max_pending_global: 0, ..REAP },
        ReapPolicy { max_pending_tenant: 11, ..REAP },
    ] {
        assert!(matches!(
            Store::reap_one(bad, 0, None, None),
            Err(StoreError::Configuration("invalid reaper limits"))
        ));
        assert!(Store::choose_waiting(bad, 0, &[]).is_err());
    }
}

fn held(run: u128, state: RunState, lease_until_us: Option<i64>) -> HeldRun {
    HeldRun {
        tenant: id(1),
        run: id(run),
        state: state_name(state).into(),
        lease_until_us,
    }
}

#[test]
fn the_lease_that_ended_first_is_reaped() {
    let runs = [
        held(5, RunState::Running, Some(40)),
        held(4, RunState::Leased, Some(40)),
        held(3, RunState::Running, None),
        held(2, RunState::Queued, Some(1)),
        held(1, RunState::Running, Some(51)),
    ];
    assert_eq!(Store::choose_expired(50, &runs), Some((id(1), id(4))));
    assert_eq!(Store::choose_expired(51, &runs[4..]), Some((id(1), id(1))));
    assert_eq!(Store::choose_expired(50, &runs[2..]), None);
}

fn waiting(pending: i64, run: u128) -> WaitingCandidate {
    WaitingCandidate {
        tenant: id(1),
        run: id(run),
        tenant_pending: pending,
        queue_limit: 4,
    }
}

#[test]
fn waiting_runs_are_promoted_when_there_is_room() {
    let candidates = [waiting(4, 1), waiting(3, 2), waiting(0, 3)];
    assert_eq!(
        Store::choose_waiting(REAP, 9, &candidates).unwrap(),
        Some((id(1), id(2)))
    );
    assert_eq!(Store::choose_waiting(REAP, 10, &candidates).unwrap(), None);
    assert_eq!(Store::choose_waiting(REAP, 0, &candidates[0..1]).unwrap(), None);
    let facts = |states: &[&str], state: RunState| WaitingFacts {
        tenant: id(1),
        run: id(2),
        row: row(state),
        effects: effects(states),
    };
    let plan = Store::reap_one(REAP, 0, Some(facts(&["PREPARED"], RunState::RetryWait)), None)
        .unwrap()
        .unwrap();
    assert_eq!(plan.outcome, Reaped::Requeued);
    assert_eq!(plan.row.state, "queued");
    assert_eq!(plan.active_count, None);
    assert_eq!(plan.events.len(), 1);
    let plan = Store::promote_waiting(REAP, facts(&["DISPATCHING"], RunState::RetryWait)).unwrap();
    assert_eq!(plan.outcome, Reaped::NeedsReconciliation);
    assert!(matches!(
        Store::promote_waiting(REAP, facts(&[], RunState::Queued)),
        Err(StoreError::CorruptScheduler)
    ));
}

#[test]
fn runs_end_under_their_live_lease() {
    let end = |facts: Option<LeaseFacts>, code: Option<&str>, count: i32, states: &[&str]| {
        Store::finish_run("worker", &[id(1)], 4, None, code, facts, count, &effects(states))
    };
    let plan = end(Some(leased(RunState::Running)), None, 1, &["COMMITTED"]).unwrap();
    assert_eq!(plan.state, RunState::Succeeded);
    assert_eq!(plan.row.state, "succeeded");
    assert_eq!((plan.row.held, plan.row.owner, plan.active_count), (false, None, 0));
    assert_eq!(plan.row.lease_until_us, None);
    assert_eq!((plan.output, plan.error_code), (None, None));
    assert_eq!(plan.event.kind, "run.succeeded");
    assert_eq!(plan.event.payload, r#"{"state":"succeeded"}"#);
    let plan = end(Some(leased(RunState::Running)), Some("POLICY"), 1, &["COMMITTED"]).unwrap();
    assert_eq!(plan.event.kind, "run.failed");
    assert_eq!(plan.error_code.as_deref(), Some("POLICY"));
    let mut cancelled = leased(RunState::Running);
    cancelled.row.cancel_requested = true;
    let plan = end(Some(cancelled), Some("POLICY"), 1, &["COMMITTED"]).unwrap();
    assert_eq!(plan.row.state, "cancelled");
    assert!(matches!(
        end(Some(leased(RunState::Leased)), None, 1, &["COMMITTED"]),
        Err(StoreError::LeaseConflict)
    ));
    for open in ["PREPARED", "DISPATCHING", "OUTCOME_UNKNOWN"] {
        assert!(matches!(
            end(Some(leased(RunState::Running)), None, 1, &["COMMITTED", open]),
            Err(StoreError::LeaseConflict)
        ));
    }
    assert!(matches!(
        end(Some(leased(RunState::Running)), None, 0, &[]),
        Err(StoreError::CorruptScheduler)
    ));
    for change in fence_changes() {
        let mut facts = leased(RunState::Running);
        change(&mut facts);
        assert!(matches!(
            end(Some(facts), None, 1, &["COMMITTED"]),
            Err(StoreError::LeaseConflict)
        ));
    }
    assert!(matches!(end(None, None, 1, &["COMMITTED"]), Err(StoreError::RunNotFound)));
    let large = vec![0u8; PAYLOAD_BYTES + 1];
    for (worker, epoch, output, code) in [
        ("", 4, None, None),
        ("worker", 0, None, None),
        ("worker", 4, Some(large.as_slice()), None),
        ("worker", 4, None, Some("lower")),
        ("worker", 4, Some(b"x".as_slice()), Some("CODE")),
    ] {
        assert!(matches!(
            Store::finish_run(worker, &[id(1)], epoch, output, code, None, 1, &[]),
            Err(StoreError::Configuration("invalid finish parameters"))
        ));
    }
}

#[test]
fn the_result_of_a_run_is_kept_however_it_ends() {
    for cancel in [false, true] {
        for (output, code) in [(Some(b"out".as_slice()), None), (None, Some("POLICY"))] {
            let mut facts = leased(RunState::Running);
            facts.row.cancel_requested = cancel;
            let plan =
                Store::finish_run("worker", &[id(1)], 4, output, code, Some(facts), 1, &[]).unwrap();
            assert_eq!(plan.state == RunState::Cancelled, cancel);
            assert_eq!(plan.output.as_deref(), output);
            assert_eq!(plan.error_code.as_deref(), code);
        }
    }
}

#[test]
fn a_new_lease_fences_the_old_worker() {
    let leased_again = match Store::claim_run("second", POLICY, claim_facts()).unwrap() {
        ClaimPlan::Lease { row, .. } => row,
        other => panic!("not leased: {other:?}"),
    };
    let facts = LeaseFacts {
        tenant: id(1),
        row: leased_again,
        now_us: 1_000_001,
    };
    assert!(matches!(
        Store::mark_run_started("worker", &[id(1)], 4, Some(facts)),
        Err(StoreError::LeaseConflict)
    ));
}

fn grant_row(value: u128, parent: Option<u128>, depth: i32) -> GrantRow {
    GrantRow {
        id: id(value),
        parent_id: parent.map(id),
        depth,
        actions: vec!["ticket.create".into()],
        destinations: vec!["tickets-idem".into(), "tickets-idem".into()],
        projects: vec!["DEMO".into()],
        max_effects: 3,
        used_effects: 0,
        expires_at_ms: 1000,
        revoked: false,
    }
}

fn chain() -> Vec<Grant> {
    load_grant_chain(
        id(2),
        vec![Some(grant_row(5, None, 0)), Some(grant_row(3, Some(5), 1))],
    )
    .unwrap()
}

#[test]
fn chains_are_loaded_whether_or_not_they_are_live() {
    let loaded = chain();
    assert_eq!(ancestry_ids(&loaded), vec![id(5), id(3)]);
    assert_eq!(loaded[0].authority.destinations.len(), 1);
    let mut revoked = grant_row(5, None, 0);
    revoked.revoked = true;
    let loaded = load_grant_chain(id(2), vec![Some(revoked)]).unwrap();
    assert!(loaded[0].revoked);
    assert!(matches!(
        load_grant_chain(id(2), vec![]),
        Err(StoreError::GrantNotFound)
    ));
    assert!(matches!(
        load_grant_chain(id(2), vec![None]),
        Err(StoreError::GrantNotFound)
    ));
    let mut bad = grant_row(5, None, 0);
    bad.used_effects = -1;
    assert!(matches!(
        load_grant_chain(id(2), vec![Some(bad)]),
        Err(StoreError::CorruptGrant)
    ));
    let mut bad = grant_row(5, None, 0);
    bad.expires_at_ms = i64::MIN;
    assert!(matches!(
        load_grant_chain(id(2), vec![Some(bad)]),
        Err(StoreError::CorruptGrant)
    ));
    assert!(matches!(
        load_grant_chain(id(2), vec![Some(grant_row(5, Some(3), 0))]),
        Err(StoreError::GrantValidation(GrantError::Ancestry))
    ));
}

fn authority() -> Authority {
    Authority {
        actions: NameSet::from_texts(vec!["ticket.create".into()]),
        destinations: NameSet::from_texts(vec!["tickets-idem".into()]),
        projects: NameSet::from_texts(vec!["DEMO".into()]),
        expires_at_ms: 1000,
        max_effects: 2,
    }
}

#[test]
fn grants_are_created_below_their_parents() {
    let plan = Store::create_grant(
        id(2),
        Some(id(3)),
        "owner",
        &authority(),
        Ok(chain()),
        1,
        id(9),
    )
    .unwrap();
    assert_eq!(plan.depth, 2);
    assert_eq!(plan.ancestry, vec![id(5), id(3), id(9)]);
    assert_eq!(plan.max_effects, 2);
    assert_eq!(plan.expires_at_ms, 1000);
    assert_eq!(plan.projects, vec!["DEMO".to_string()]);
    assert_eq!((plan.tenant, plan.id, plan.parent_id), (id(2), id(9), Some(id(3))));
    assert_eq!((plan.event.tenant, plan.event.object), (id(2), id(9)));
    assert_eq!((plan.event.actor_id.as_str(), plan.event.action), ("owner", "grant.created"));
    assert_eq!(plan.event.detail, hash::grant(Some(id(3)), &authority()));
    let root = Store::create_grant(id(2), None, "owner", &authority(), Ok(vec![]), 1, id(9)).unwrap();
    assert_eq!((root.depth, root.parent_id, root.ancestry), (0, None, vec![id(9)]));
    let mut wide = authority();
    wide.projects.insert("OTHER".into());
    assert!(matches!(
        Store::create_grant(id(2), Some(id(3)), "owner", &wide, Ok(chain()), 1, id(9)),
        Err(StoreError::GrantValidation(GrantError::Escalation))
    ));
    assert!(matches!(
        Store::create_grant(id(2), None, "owner", &authority(), Ok(vec![]), 1000, id(9)),
        Err(StoreError::GrantValidation(GrantError::Invalid))
    ));
    assert!(matches!(
        Store::create_grant(id(2), None, "", &authority(), Ok(vec![]), 1, id(9)),
        Err(StoreError::Configuration("invalid grant actor"))
    ));
    assert!(Store::check_actor("").is_err());
    assert!(Store::check_actor("owner").is_ok());
    assert!(matches!(
        Store::create_grant(
            id(2),
            None,
            "owner",
            &authority(),
            Err(StoreError::GrantNotFound),
            1,
            id(9)
        ),
        Err(StoreError::GrantNotFound)
    ));
}

#[test]
fn revocation_keeps_its_first_time() {
    match Store::revoke_grant(id(2), id(3), "owner", "leaked", Ok(()), None).unwrap() {
        RevokePlan::Revoke { event } => {
            assert_eq!((event.tenant, event.object), (id(2), id(3)));
            assert_eq!((event.actor_id.as_str(), event.action), ("owner", "grant.revoked"));
            assert_eq!(event.detail, hash::grant_revocation(id(3), "leaked"));
        }
        RevokePlan::Already(_) => panic!("not revoked before"),
    }
    assert!(
        matches!(Store::revoke_grant(id(2), id(3), "owner", "again", Ok(()), Some("then".into())), Ok(RevokePlan::Already(at)) if at == "then")
    );
    assert!(matches!(
        Store::revoke_grant(id(2), id(3), "owner", "r", Err(StoreError::GrantNotFound), None),
        Err(StoreError::GrantNotFound)
    ));
    let long = "\u{e9}".repeat(257);
    for (actor, reason) in [("", "r"), ("owner", ""), ("owner", long.as_str())] {
        assert!(matches!(
            Store::revoke_grant(id(2), id(3), actor, reason, Ok(()), None),
            Err(StoreError::Configuration("invalid revocation metadata"))
        ));
        assert!(Store::check_revocation(actor, reason).is_err());
    }
}

fn effect_row(state: &str, charged: bool) -> Option<EffectRow> {
    Some(EffectRow {
        action: "ticket.create".into(),
        destination: "tickets-idem".into(),
        project: "DEMO".into(),
        state: state.into(),
        charged,
    })
}

fn reserve(effect: Option<EffectRow>, existing: Vec<Uuid>) -> Result<ReservePlan, StoreError> {
    Store::reserve_grant_chain(id(2), true, Ok(chain()), effect, existing, 1)
}

#[test]
fn reservations_are_made_once() {
    let plan = reserve(effect_row("PREPARED", false), vec![]).unwrap();
    assert_eq!(plan.kind(), ReservationKind::Created);
    match plan {
        ReservePlan::Charge(charges) => assert_eq!(charges, vec![(id(5), 1), (id(3), 1)]),
        ReservePlan::Existing => panic!("not reserved before"),
    }
    let again = reserve(effect_row("DISPATCHING", true), vec![id(3), id(5)]).unwrap();
    assert_eq!(again.kind(), ReservationKind::Existing);
    for (effect, existing) in [
        (effect_row("DISPATCHING", true), vec![id(5), id(3)]),
        (effect_row("DISPATCHING", true), vec![id(3)]),
        (effect_row("PREPARED", false), vec![id(3), id(5)]),
        (effect_row("PREPARED", true), vec![]),
        (effect_row("DISPATCHING", false), vec![]),
    ] {
        assert!(matches!(
            reserve(effect, existing),
            Err(StoreError::CorruptGrant)
        ));
    }
    assert!(matches!(reserve(None, vec![]), Err(StoreError::EffectNotFound)));
    assert!(matches!(
        Store::reserve_grant_chain(id(2), false, Ok(chain()), None, vec![], 1),
        Err(StoreError::RunNotFound)
    ));
    assert!(matches!(
        Store::reserve_grant_chain(
            id(2),
            true,
            Ok(chain()),
            effect_row("PREPARED", false),
            vec![],
            1000
        ),
        Err(StoreError::GrantValidation(GrantError::Inactive))
    ));
}
