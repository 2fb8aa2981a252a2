//! Configuration, principals and what requests are answered.
use effectlatch::control::api::{
    authenticate, create_run, error, json_rejection, module_stored, run_admitted, upload_module,
    ApiError, ApiState, RunView,
};
use effectlatch::control::auth::{
    admit_file, AuthError, Authority, Principal, PrincipalFile, PrincipalRecord, Principals,
    PRINCIPAL_BYTES,
};
use effectlatch::control::config::{
    Adapter, AdapterEntry, Adapters, Config, Limits as ConfigLimits, Retention, Server, UriParts,
    CONFIG_BYTES,
};
use effectlatch::control::grants::{
    create_child, create_root, get, revoke, Bounds, GrantCreate, GrantView, Revoke,
};
use effectlatch::control::scheduler::{
    claim, finish, heartbeat, invalid_limits, started, sweep_goes_on, worker_tenants,
    ClaimRequest, FinishRequest, LeaseRequest, LeaseView, SWEEP_BATCH,
};
use effectlatch::control::server::{may_accept, ready, ConnectionEnd, ConnectionStats};
use effectlatch::control::{grants, scheduler};
use effectlatch::domain::grants::GrantError;
use effectlatch::domain::hash;
use effectlatch::domain::limits::Limits;
use effectlatch::domain::types::RunCreate;
use effectlatch::ids::{IdSet, Uuid};
use effectlatch::store::scheduler::Lease;
use effectlatch::store::{
    AdmissionKind, EffectRecord, GrantRecord, PutModule, RunRecord, StoreError,
};
use sha2::{Digest, Sha256};

fn id(value: u128) -> Uuid {
    Uuid::from_u128(value)
}

fn texts(names: &[&str]) -> Vec<String> {
    names.iter().map(|name| name.to_string()).collect()
}

fn adapter() -> Adapter {
    Adapter {
        base_url: "http://127.0.0.1:8790".into(),
        idempotency: true,
        retention_seconds: 86_400,
        retry_horizon_seconds: 82_800,
        mode: "idem".into(),
        projects: texts(&["DEMO", "OTHER"]),
        namespace: Some("ns".into()),
    }
}

fn limits() -> ConfigLimits {
    ConfigLimits {
        max_pending_global: 1000,
        max_pending_per_tenant: 100,
        max_active_global: 4,
        max_active_per_tenant: 1,
        max_attempts: 3,
        lease_ms: 6000,
        heartbeat_ms: 2000,
        sweep_ms: 1000,
        wall_ms: 60_000,
        memory_bytes: 67_108_864,
        fuel: 1_000_000,
        max_effects: 8,
        max_host_calls: 64,
        max_log_bytes: 16_384,
    }
}

fn configuration(entries: Vec<(&str, Adapter)>) -> Config {
    let mut adapters = Adapters::new();
    for (alias, adapter) in entries {
        assert!(adapters.push(AdapterEntry {
            alias: alias.into(),
            adapter,
        }));
    }
    Config {
        server: Server {
            bind: "127.0.0.1:8080".into(),
            max_json_bytes: 131_072,
            max_module_bytes: 2_097_152,
        },
        limits: limits(),
        retention: Retention {
            payload_hours: 24,
            metadata_days: 30,
        },
        adapters,
    }
}

fn standard() -> Config {
    configuration(vec![("tickets-idem", adapter())])
}

#[test]
fn configurations_are_taken_within_their_caps() {
    assert!(standard().validate().is_ok());
    assert!(Config::parse(b"", Some(standard())).is_ok());
    assert!(Config::parse(&vec![0; CONFIG_BYTES], Some(standard())).is_ok());
    assert!(Config::parse(&vec![0; CONFIG_BYTES + 1], Some(standard())).is_err());
    assert!(Config::parse(b"", None).is_err());
    let changes: [fn(&mut Config); 22] = [
        |c| c.server.max_json_bytes = 131_073,
        |c| c.server.max_module_bytes = 0,
        |c| c.limits.max_pending_global = 1001,
        |c| c.limits.max_pending_per_tenant = 101,
        |c| c.limits.max_pending_global = 99,
        |c| c.limits.max_active_global = 5,
        |c| c.limits.max_active_per_tenant = 2,
        |c| c.limits.max_attempts = 4,
        |c| c.limits.lease_ms = 6001,
        |c| c.limits.lease_ms = 2000,
        |c| c.limits.heartbeat_ms = 2001,
        |c| c.limits.sweep_ms = 1001,
        |c| c.limits.wall_ms = 60_001,
        |c| c.limits.wall_ms = 0,
        |c| c.limits.memory_bytes = 67_108_865,
        |c| c.limits.fuel = 0,
        |c| c.limits.max_effects = 9,
        |c| c.limits.max_host_calls = 65,
        |c| c.limits.max_log_bytes = 16_385,
        |c| c.retention.payload_hours = 25,
        |c| c.retention.metadata_days = 29,
        |c| c.adapters = Adapters::new(),
    ];
    for (place, change) in changes.iter().enumerate() {
        let mut changed = standard();
        change(&mut changed);
        assert!(changed.validate().is_err(), "accepted change {place}");
    }
}

#[test]
fn adapters_are_local_fixtures() {
    let accepted = |change: fn(&mut Adapter)| {
        let mut changed = adapter();
        change(&mut changed);
        configuration(vec![("tickets-idem", changed)])
            .validate()
            .is_ok()
    };
    assert!(accepted(|a| a.base_url = "http://fixture:8790/".into()));
    assert!(accepted(|a| a.base_url = "http://127.0.0.1:1/".into()));
    assert!(accepted(|a| a.namespace = None));
    assert!(accepted(|a| a.retention_seconds = 90_000));
    assert!(accepted(|a| {
        a.idempotency = false;
        a.mode = "nonidem".into();
        a.retention_seconds = 0;
        a.retry_horizon_seconds = 0;
    }));
    for url in [
        "https://127.0.0.1:8790",
        "http://127.0.0.1",
        "http://127.0.0.1:0",
        "http://127.0.0.1:08790",
        "http://127.0.0.2:8790",
        "http://user@127.0.0.1:8790",
        "http://fixture:8791",
        "http://127.0.0.1:8790/path",
        "http://127.0.0.1:8790/?query",
        "/path",
        "not a url",
        "",
    ] {
        let mut changed = adapter();
        changed.base_url = url.into();
        let configured = configuration(vec![("tickets-idem", changed)]);
        assert!(configured.validate().is_err(), "accepted {url}");
    }
    assert!(!accepted(|a| a.projects = vec![]));
    assert!(!accepted(|a| a.projects = vec!["P".to_string(); 2]));
    assert!(!accepted(|a| a.projects = texts(&["with space"])));
    assert!(!accepted(|a| a.projects =
        (0..17).map(|n| format!("P{n}")).collect()));
    assert!(!accepted(|a| a.namespace = Some(String::new())));
    assert!(!accepted(|a| a.namespace = Some("n".repeat(65))));
    assert!(!accepted(|a| a.mode = "nonidem".into()));
    assert!(!accepted(|a| a.retry_horizon_seconds = 82_801));
    assert!(!accepted(|a| a.retention_seconds = 86_399));
    assert!(!accepted(|a| a.idempotency = false));
    assert!(configuration(vec![("with space", adapter())])
        .validate()
        .is_err());
}

#[test]
fn fixtures_are_told_by_the_parts_of_their_address() {
    let parts = |authority: &str, port: Option<u16>| UriParts {
        scheme: Some("http".into()),
        authority: Some(authority.into()),
        port,
        path: "/".into(),
        query: None,
    };
    assert!(parts("127.0.0.1:65535", Some(65_535)).is_local_fixture());
    assert!(parts("fixture:8790", Some(8790)).is_local_fixture());
    assert!(!parts("127.0.0.1:0", Some(0)).is_local_fixture());
    assert!(!parts("127.0.0.1:1", Some(2)).is_local_fixture());
    assert!(!parts("127.0.0.1:1", None).is_local_fixture());
}

#[test]
fn adapters_are_listed_in_ascending_order() {
    let entry = |alias: &str| AdapterEntry {
        alias: alias.into(),
        adapter: adapter(),
    };
    let mut adapters = Adapters::new();
    assert!(adapters.is_empty());
    assert!(adapters.push(entry("b")));
    assert!(!adapters.push(entry("b")));
    assert!(!adapters.push(entry("a")));
    assert!(adapters.push(entry("c")));
    assert_eq!(adapters.len(), 2);
    assert_eq!(adapters.get(1).alias, "c");
}

const TOKEN: &str = "0123456789abcdef0123456789abcdef";

fn digest_of(token: &str) -> String {
    let digest: [u8; 32] = Sha256::digest(token.as_bytes()).into();
    hash::hex(&digest)
}

fn record(name: &str, role: &str, token: &str) -> PrincipalRecord {
    PrincipalRecord {
        id: name.into(),
        role: role.into(),
        token_sha256: digest_of(token),
        tenant_id: if role == "worker" {
            None
        } else {
            Some(id(1).to_text())
        },
        worker_id: if role == "worker" {
            Some("worker-1".into())
        } else {
            None
        },
        allowed_grants: if role == "invoker" {
            vec![id(5).to_text()]
        } else {
            vec![]
        },
        allowed_tenants: if role == "worker" {
            vec![id(2).to_text(), id(1).to_text()]
        } else {
            vec![]
        },
    }
}

fn parsed(records: Vec<PrincipalRecord>) -> Result<Principals, AuthError> {
    Principals::parse(
        b"",
        Some(PrincipalFile {
            version: 1,
            principals: records,
        }),
    )
}

fn known() -> Principals {
    parsed(vec![
        record("owner-1", "owner", TOKEN),
        record("invoker-1", "invoker", &TOKEN.replace('0', "x")),
        record("worker-p", "worker", &TOKEN.replace('0', "y")),
    ])
    .unwrap()
}

fn bearer(token: &str) -> String {
    format!("Bearer {token}")
}

#[test]
fn credentials_name_their_principals() {
    let principals = known();
    let owner = principals.authenticate(&bearer(TOKEN)).unwrap();
    assert_eq!(owner.id, "owner-1");
    assert_eq!(owner.owner_tenant().unwrap(), id(1));
    let invoker = principals
        .authenticate(&bearer(&TOKEN.replace('0', "x")))
        .unwrap();
    assert_eq!(invoker.id, "invoker-1");
    assert!(matches!(invoker.owner_tenant(), Err(AuthError::Forbidden)));
    assert_eq!(invoker.tenant().unwrap(), id(1));
    for authorization in [
        bearer(&TOKEN.replace('0', "z")),
        TOKEN.to_string(),
        format!("bearer {TOKEN}"),
        format!("Bearer  {TOKEN}"),
        bearer(&TOKEN[0..31]),
        bearer(&"x".repeat(257)),
        bearer(&TOKEN.replace('0', "\u{e9}")),
        String::new(),
    ] {
        assert!(matches!(
            principals.authenticate(&authorization),
            Err(AuthError::Unauthorized)
        ));
    }
}

#[test]
fn principals_stay_in_their_tenants() {
    let principals = known();
    let owner = principals.authenticate(&bearer(TOKEN)).unwrap();
    assert!(owner.permits_grant(id(1), id(77)));
    assert!(!owner.permits_grant(id(2), id(77)));
    let invoker = principals
        .authenticate(&bearer(&TOKEN.replace('0', "x")))
        .unwrap();
    assert!(invoker.permits_grant(id(1), id(5)));
    assert!(!invoker.permits_grant(id(1), id(6)));
    assert!(!invoker.permits_grant(id(2), id(5)));
    assert!(!invoker.permits_worker("worker-1", id(1)));
    let worker = principals
        .authenticate(&bearer(&TOKEN.replace('0', "y")))
        .unwrap();
    assert!(worker.permits_worker("worker-1", id(2)));
    assert!(!worker.permits_worker("worker-1", id(3)));
    assert!(!worker.permits_worker("worker-2", id(2)));
    assert!(!worker.permits_grant(id(1), id(5)));
    assert!(matches!(worker.tenant(), Err(AuthError::Forbidden)));
    assert_eq!(
        worker_tenants(worker, "worker-1").unwrap().to_vec(),
        vec![id(1), id(2)]
    );
    assert!(worker_tenants(worker, "worker-2").is_err());
    assert!(worker_tenants(owner, "worker-1").is_err());
}

#[test]
fn principal_files_are_taken_strictly() {
    let refused = |records: Vec<PrincipalRecord>| {
        matches!(parsed(records), Err(AuthError::Configuration))
    };
    let changed = |role: &str, change: fn(&mut PrincipalRecord)| {
        let mut record = record("name", role, TOKEN);
        change(&mut record);
        vec![record]
    };
    assert!(!refused(changed("owner", |_| {})));
    assert!(!refused(changed("invoker", |r| r.allowed_grants.clear())));
    assert!(refused(vec![]));
    assert!(refused(changed("admin", |_| {})));
    assert!(refused(changed("owner", |r| r.id = "a b".into())));
    assert!(refused(changed("owner", |r| r.token_sha256 =
        r.token_sha256.to_uppercase())));
    assert!(refused(changed("owner", |r| r.token_sha256.push('0'))));
    assert!(refused(changed("owner", |r| r.tenant_id = None)));
    assert!(refused(changed("owner", |r| r.tenant_id =
        Some("0".repeat(32)))));
    assert!(refused(changed("owner", |r| r.worker_id = Some("w".into()))));
    assert!(refused(changed("owner", |r| r
        .allowed_grants
        .push(id(5).to_text()))));
    assert!(refused(changed("invoker", |r| r
        .allowed_grants
        .push(id(5).to_text()))));
    assert!(refused(changed("invoker", |r| r
        .allowed_tenants
        .push(id(1).to_text()))));
    assert!(refused(changed("worker", |r| r.allowed_tenants.clear())));
    assert!(refused(changed("worker", |r| r.worker_id = None)));
    assert!(refused(changed("worker", |r| r.worker_id = Some("a b".into()))));
    assert!(refused(changed("worker", |r| r.tenant_id =
        Some(id(1).to_text()))));
    assert!(refused(changed("invoker", |r| r.allowed_grants =
        (0..1025).map(|n| id(n).to_text()).collect())));
    // Neither a name nor a credential twice.
    assert!(refused(vec![
        record("one", "owner", TOKEN),
        record("two", "owner", TOKEN),
    ]));
    assert!(refused(vec![
        record("one", "owner", TOKEN),
        record("one", "owner", "another"),
    ]));
    let file = |version: u32| {
        Some(PrincipalFile {
            version,
            principals: vec![record("one", "owner", TOKEN)],
        })
    };
    assert!(Principals::parse(b"", file(1)).is_ok());
    assert!(Principals::parse(b"", file(2)).is_err());
    assert!(Principals::parse(b"", None).is_err());
    assert!(Principals::parse(&vec![0; PRINCIPAL_BYTES + 1], file(1)).is_err());
    assert!(admit_file(true, 1_048_576).is_ok());
    assert!(admit_file(true, 1_048_577).is_err());
    assert!(admit_file(false, 1).is_err());
}

fn ids_of(values: &[u128]) -> IdSet {
    let mut set = IdSet::new();
    for value in values {
        set.insert(id(*value));
    }
    set
}

fn owner() -> Principal {
    Principal {
        id: "owner-1".into(),
        authority: Authority::Owner { tenant: id(1) },
    }
}

fn invoker() -> Principal {
    Principal {
        id: "invoker-1".into(),
        authority: Authority::Invoker {
            tenant: id(1),
            grants: ids_of(&[5]),
        },
    }
}

fn worker() -> Principal {
    Principal {
        id: "worker-p".into(),
        authority: Authority::Worker {
            worker_id: "worker-1".into(),
            tenants: ids_of(&[2, 1]),
        },
    }
}

fn says(refusal: &ApiError, status: u16, code: &str) -> bool {
    refusal.status == status && refusal.code == code
}

#[test]
fn requests_carry_one_credential() {
    let principals = known();
    let good = Some(bearer(TOKEN));
    assert_eq!(
        authenticate(&principals, &[good.clone()]).unwrap().id,
        "owner-1"
    );
    for credentials in [
        vec![],
        vec![None],
        vec![good.clone(), good.clone()],
        vec![Some("Bearer short".into())],
    ] {
        let refusal = authenticate(&principals, &credentials).unwrap_err();
        assert!(says(&refusal, 401, "UNAUTHORIZED"));
    }
}

fn abi_module() -> Vec<u8> {
    wat::parse_str(
        r#"(module
            (import "effectlatch_v1" "input_len" (func (result i32)))
            (import "effectlatch_v1" "input_read" (func (param i32 i32) (result i32)))
            (import "effectlatch_v1" "effect_call" (func (param i32 i32 i32 i32) (result i32)))
            (import "effectlatch_v1" "output_write" (func (param i32 i32) (result i32)))
            (import "effectlatch_v1" "log" (func (param i32 i32) (result i32)))
            (memory (export "memory") 1 1024)
            (func (export "run") (result i32) i32.const 0))"#,
    )
    .unwrap()
}

#[test]
fn uploads_are_judged_in_order() {
    let module = abi_module();
    let wasm = b"application/wasm".as_slice();
    let upload = upload_module(&invoker(), Some(wasm), Ok(&module)).unwrap();
    assert_eq!(upload.tenant, id(1));
    let digest: [u8; 32] = Sha256::digest(&module).into();
    assert_eq!(upload.digest, digest);
    for content_type in [None, Some(b"application/json".as_slice())] {
        let refusal = upload_module(&worker(), content_type, Err(413)).unwrap_err();
        assert!(says(&refusal, 415, "INVALID_MEDIA_TYPE"));
    }
    let refusal = upload_module(&worker(), Some(wasm), Err(413)).unwrap_err();
    assert!(says(&refusal, 403, "FORBIDDEN"));
    let refusal = upload_module(&owner(), Some(wasm), Err(413)).unwrap_err();
    assert!(says(&refusal, 413, "BODY_TOO_LARGE"));
    let refusal = upload_module(&owner(), Some(wasm), Err(400)).unwrap_err();
    assert!(says(&refusal, 400, "INVALID_BODY"));
    let refusal = upload_module(&owner(), Some(wasm), Ok(b"\0asm")).unwrap_err();
    assert!(says(&refusal, 422, "INVALID_MODULE"));
}

#[test]
fn stored_modules_are_answered() {
    let (status, response) = module_stored(Ok(PutModule::Created), &[0xab; 32], 9).unwrap();
    assert_eq!(status, 201);
    assert_eq!(response.digest, "ab".repeat(32));
    assert_eq!((response.size_bytes, response.abi_version), (9, 1));
    let (status, _) = module_stored(Ok(PutModule::Existing), &[0; 32], 0).unwrap();
    assert_eq!(status, 200);
    let refusal = module_stored(Err(StoreError::ModuleNotFound), &[0; 32], 0).unwrap_err();
    assert!(says(&refusal, 503, "STORE_UNAVAILABLE"));
    assert!(refusal.retryable);
}

fn run_create(grant: u128) -> RunCreate {
    RunCreate {
        module_digest: "ab".repeat(32),
        grant_id: id(grant).to_text(),
        input_b64: "aGVsbG8=".into(),
        limits: Limits::default(),
    }
}

fn keys(values: &[&str]) -> Vec<Option<String>> {
    values.iter().map(|value| Some(value.to_string())).collect()
}

#[test]
fn runs_are_judged_in_order() {
    let caps = Limits::default();
    let run = create_run(&invoker(), &keys(&["key"]), Ok(run_create(5)), caps).unwrap();
    assert_eq!((run.tenant, run.key.as_str()), (id(1), "key"));
    assert_eq!(run.request.input, b"hello");
    assert_eq!(run.request.grant_id, id(5));
    let refused = |principal: &Principal, keys: &[Option<String>], body: Result<RunCreate, u16>| {
        create_run(principal, keys, body, caps).unwrap_err()
    };
    assert!(says(&refused(&worker(), &[], Err(413)), 403, "FORBIDDEN"));
    for bad in [
        vec![],
        keys(&["one", "two"]),
        keys(&[""]),
        keys(&["with space"]),
        keys(&["k".repeat(129).as_str()]),
        vec![None],
    ] {
        let refusal = refused(&owner(), &bad, Err(413));
        assert!(says(&refusal, 400, "INVALID_IDEMPOTENCY_KEY"));
    }
    assert!(says(
        &refused(&owner(), &keys(&["k"]), Err(413)),
        413,
        "BODY_TOO_LARGE"
    ));
    let mut bad = run_create(5);
    bad.input_b64 = "aGVsbG8".into();
    assert!(says(
        &refused(&owner(), &keys(&["k"]), Ok(bad)),
        422,
        "INVALID_RUN"
    ));
    let refusal = refused(&invoker(), &keys(&["k"]), Ok(run_create(6)));
    assert!(says(&refusal, 403, "FORBIDDEN"));
    assert_eq!(refusal.message, "Grant is not permitted");
    assert!(create_run(&owner(), &keys(&["k"]), Ok(run_create(6)), caps).is_ok());
}

#[test]
fn admitted_runs_are_answered() {
    assert_eq!(run_admitted(Ok(AdmissionKind::Created)).unwrap(), 202);
    assert_eq!(run_admitted(Ok(AdmissionKind::Existing)).unwrap(), 200);
    for (failed, status, code) in [
        (StoreError::IdempotencyConflict, 409, "IDEMPOTENCY_CONFLICT"),
        (StoreError::CapacityExhausted, 429, "QUEUE_FULL"),
        (StoreError::ModuleNotFound, 404, "MODULE_NOT_FOUND"),
        (StoreError::GrantDenied, 422, "GRANT_DENIED"),
        (StoreError::RunNotFound, 503, "STORE_UNAVAILABLE"),
    ] {
        let refusal = run_admitted(Err(failed)).unwrap_err();
        assert!(says(&refusal, status, code));
        assert_eq!(refusal.retryable, status == 429 || status == 503);
        assert_eq!(refusal.retry_after, status == 429);
    }
    assert_eq!(json_rejection(413, "m").code, "BODY_TOO_LARGE");
    assert_eq!(json_rejection(415, "m").code, "INVALID_MEDIA_TYPE");
    assert_eq!(json_rejection(422, "m").code, "INVALID_JSON");
    assert_eq!(error(418, "TEAPOT", "m", true).status, 418);
}

#[test]
fn runs_are_shown_in_text() {
    let view = RunView::from_record(RunRecord {
        id: id(9),
        state: "succeeded".into(),
        module_digest: [0xcd; 32],
        grant_id: id(5),
        created_at: "c".into(),
        updated_at: "u".into(),
        lease_epoch: 2,
        attempt: 1,
        cancel_requested: false,
        output: Some(b"hello".to_vec()),
        error_code: None,
        effects: vec![EffectRecord {
            ordinal: 0,
            state: "COMMITTED".into(),
            request_hash: [0x0f; 32],
            provider_key: "key".into(),
            send_attempts: 1,
        }],
    });
    assert_eq!(view.module_digest, "cd".repeat(32));
    assert_eq!(view.output_b64.as_deref(), Some("aGVsbG8="));
    assert_eq!(view.effects.len(), 1);
    assert_eq!(view.effects[0].request_hash, "0f".repeat(32));
}

#[test]
fn a_configuration_sets_the_policies() {
    let state = ApiState::new(&standard());
    assert_eq!(state.caps.fuel, 1_000_000);
    assert_eq!(state.caps.wall_ms, 60_000);
    let claim = state.claim_policy();
    assert_eq!((claim.max_active_global, claim.max_attempts), (4, 3));
    assert_eq!((claim.max_active_per_tenant, claim.lease_ms), (1, 6000));
    let reap = state.reap_policy();
    assert_eq!((reap.max_pending_global, reap.max_pending_tenant), (1000, 100));
}

fn bounds() -> Bounds {
    let mut narrow = adapter();
    narrow.projects = texts(&["DEMO"]);
    let configured = configuration(vec![("narrow", narrow), ("wide", adapter())]);
    Bounds::from_config(&configured.adapters)
}

fn asked() -> GrantCreate {
    GrantCreate {
        actions: texts(&["ticket.create"]),
        destinations: texts(&["wide"]),
        projects: texts(&["OTHER", "DEMO"]),
        expires_at: "1970-01-01T00:00:01.2349Z".into(),
        max_effects: 5,
    }
}

#[test]
fn grants_are_asked_for_within_the_bounds() {
    let authority = asked().normalize(&bounds()).unwrap();
    assert_eq!(authority.expires_at_ms, 1234);
    assert_eq!(authority.projects.to_texts(), texts(&["DEMO", "OTHER"]));
    assert_eq!(authority.max_effects, 5);
    let refused = |change: fn(&mut GrantCreate)| {
        let mut changed = asked();
        change(&mut changed);
        changed.normalize(&bounds()).unwrap_err()
    };
    assert_eq!(
        refused(|a| a.destinations = texts(&["narrow"])),
        GrantError::Escalation
    );
    assert_eq!(
        refused(|a| a.destinations = texts(&["wide", "unknown"])),
        GrantError::Escalation
    );
    assert_eq!(
        refused(|a| a.projects = texts(&["THIRD"])),
        GrantError::Escalation
    );
    for invalid in [
        refused(|a| a.actions = vec![]),
        refused(|a| a.actions = texts(&["ticket.delete"])),
        refused(|a| a.destinations = texts(&["wide", "wide"])),
        refused(|a| a.projects = vec![]),
        refused(|a| a.projects = (0..17).map(|n| format!("P{n}")).collect()),
        refused(|a| a.projects = texts(&["with space"])),
        refused(|a| a.expires_at = "tomorrow".into()),
        refused(|a| a.expires_at = "1970-01-01 00:00:01".into()),
        refused(|a| a.max_effects = 0),
        refused(|a| a.max_effects = 101),
    ] {
        assert_eq!(invalid, GrantError::Invalid);
    }
}

#[test]
fn expiries_are_whole_milliseconds() {
    let at = |nanos: Option<i128>| {
        asked()
            .normalize_parsed(&bounds(), nanos)
            .map(|authority| authority.expires_at_ms)
    };
    assert_eq!(at(Some(1_999_999)), Ok(1));
    assert_eq!(at(Some(-1_999_999)), Ok(-1));
    assert_eq!(at(Some(i64::MAX as i128 * 1_000_000)), Ok(i64::MAX));
    assert_eq!(at(Some(i64::MIN as i128 * 1_000_000)), Ok(i64::MIN));
    assert_eq!(
        at(Some((i64::MAX as i128 + 1) * 1_000_000)),
        Err(GrantError::Invalid)
    );
    assert_eq!(at(Some(i128::MIN)), Err(GrantError::Invalid));
    assert_eq!(at(None), Err(GrantError::Invalid));
}

#[test]
fn grant_requests_are_judged_in_order() {
    let root = create_root(&owner(), Ok(asked()), &bounds()).unwrap();
    assert_eq!((root.tenant, root.parent), (id(1), None));
    let parent = id(5).to_text();
    let child = create_child(&owner(), &parent, Ok(asked()), &bounds()).unwrap();
    assert_eq!(child.parent, Some(id(5)));
    let refusal = create_child(&invoker(), "nonsense", Err(415), &bounds()).unwrap_err();
    assert!(says(&refusal, 404, "GRANT_NOT_FOUND"));
    let refusal = create_child(&invoker(), &parent, Err(415), &bounds()).unwrap_err();
    assert!(says(&refusal, 403, "FORBIDDEN"));
    let refusal = create_root(&owner(), Err(415), &bounds()).unwrap_err();
    assert!(says(&refusal, 415, "INVALID_MEDIA_TYPE"));
    let mut wide = asked();
    wide.destinations = texts(&["narrow"]);
    let refusal = create_root(&owner(), Ok(wide), &bounds()).unwrap_err();
    assert!(says(&refusal, 422, "INVALID_GRANT"));
}

#[test]
fn grants_are_seen_by_those_who_may_use_them() {
    let five = id(5).to_text();
    assert_eq!(get(&invoker(), &five).unwrap(), (id(1), id(5)));
    assert_eq!(get(&owner(), &five).unwrap(), (id(1), id(5)));
    for (principal, text) in [
        (invoker(), id(6).to_text()),
        (worker(), five.clone()),
        (owner(), "{five}".to_string()),
        (owner(), id(0xabc).to_text().to_uppercase()),
    ] {
        let refusal = get(&principal, &text).unwrap_err();
        assert!(says(&refusal, 404, "GRANT_NOT_FOUND"));
    }
}

#[test]
fn revocations_are_judged_in_order() {
    let five = id(5).to_text();
    let body = |reason: &str| {
        Ok(Revoke {
            reason: reason.into(),
        })
    };
    let revocation = revoke(&owner(), &five, body("leaked")).unwrap();
    assert_eq!((revocation.tenant, revocation.grant), (id(1), id(5)));
    assert_eq!(revocation.reason, "leaked");
    assert!(revoke(&owner(), &five, body(&"\u{1f980}".repeat(256))).is_ok());
    for reason in [String::new(), "a".repeat(257), "\u{e9}".repeat(257)] {
        let refusal = revoke(&owner(), &five, body(&reason)).unwrap_err();
        assert!(says(&refusal, 422, "INVALID_REASON"));
    }
    let refusal = revoke(&invoker(), "x", Err(413)).unwrap_err();
    assert!(says(&refusal, 404, "GRANT_NOT_FOUND"));
    let refusal = revoke(&invoker(), &five, Err(413)).unwrap_err();
    assert!(says(&refusal, 403, "FORBIDDEN"));
    let refusal = revoke(&owner(), &five, Err(413)).unwrap_err();
    assert!(says(&refusal, 413, "BODY_TOO_LARGE"));
}

#[test]
fn grants_show_what_is_left() {
    let shown = |max_effects: i64, used_effects: i64| {
        GrantView::from(GrantRecord {
            id: id(5),
            parent_id: None,
            depth: 0,
            actions: vec![],
            destinations: vec![],
            projects: vec![],
            expires_at: "e".into(),
            max_effects,
            used_effects,
            revoked_at: None,
            ancestry: vec![id(5)],
        })
        .remaining_effects
    };
    assert_eq!(shown(5, 2), 3);
    assert_eq!(shown(2, 5), -3);
    assert_eq!(shown(i64::MAX, -1), i64::MAX);
    assert_eq!(shown(i64::MIN, 1), i64::MIN);
    for (failed, status, code) in [
        (StoreError::GrantNotFound, 404, "GRANT_NOT_FOUND"),
        (
            StoreError::GrantValidation(GrantError::Escalation),
            422,
            "INVALID_GRANT",
        ),
        (StoreError::RunNotFound, 503, "STORE_UNAVAILABLE"),
    ] {
        assert!(says(&grants::store_error(failed), status, code));
    }
}

fn lease_request(name: &str) -> Option<LeaseRequest> {
    Some(LeaseRequest {
        worker_id: name.into(),
        lease_epoch: 3,
    })
}

#[test]
fn workers_are_heard_on_their_own_tenants() {
    let request = |name: &str| {
        Some(ClaimRequest {
            worker_id: name.into(),
            available_slots: 1,
        })
    };
    let confirmed = claim(&worker(), request("worker-1")).unwrap();
    assert_eq!(confirmed.tenants, vec![id(1), id(2)]);
    assert_eq!(confirmed.request.available_slots, 1);
    for refusal in [
        claim(&worker(), request("worker-2")).unwrap_err(),
        claim(&owner(), request("worker-1")).unwrap_err(),
        heartbeat(&owner(), lease_request("worker-1")).unwrap_err(),
        started(&worker(), lease_request("other")).unwrap_err(),
    ] {
        assert!(says(&refusal, 403, "FORBIDDEN"));
    }
    for refusal in [
        claim(&owner(), None).unwrap_err(),
        heartbeat(&worker(), None).unwrap_err(),
        started(&worker(), None).unwrap_err(),
        finish(&worker(), None).unwrap_err(),
    ] {
        assert!(says(&refusal, 400, "INVALID_JSON"));
    }
    let confirmed = heartbeat(&worker(), lease_request("worker-1")).unwrap();
    assert_eq!(confirmed.request.lease_epoch, 3);
    assert!(started(&worker(), lease_request("worker-1")).is_ok());
}

#[test]
fn finished_runs_carry_canonical_output() {
    let request = |name: &str, output: Option<&str>| {
        Some(FinishRequest {
            worker_id: name.into(),
            lease_epoch: 3,
            output_b64: output.map(|text| text.to_string()),
            error_code: Some("CODE".into()),
        })
    };
    let run = finish(&worker(), request("worker-1", Some("aGVsbG8=")))
        .unwrap()
        .request;
    assert_eq!(run.output, Some(b"hello".to_vec()));
    assert_eq!(run.error_code.as_deref(), Some("CODE"));
    assert_eq!(
        finish(&worker(), request("worker-1", None))
            .unwrap()
            .request
            .output,
        None
    );
    let large = "A".repeat(87_384);
    for output in ["aGVsbG8", "aGVsbG9=", large.as_str()] {
        let refusal = finish(&worker(), request("worker-1", Some(output))).unwrap_err();
        assert!(says(&refusal, 422, "INVALID_OUTPUT"));
    }
    let refusal = finish(&worker(), request("other", Some("?"))).unwrap_err();
    assert!(says(&refusal, 403, "FORBIDDEN"));
}

#[test]
fn lease_failures_are_answered() {
    for (failed, status, code) in [
        (StoreError::RunNotFound, 404, "RUN_NOT_FOUND"),
        (StoreError::LeaseConflict, 409, "LEASE_CONFLICT"),
        (
            StoreError::Configuration("invalid"),
            422,
            "INVALID_LEASE_REQUEST",
        ),
        (StoreError::CorruptScheduler, 503, "STORE_UNAVAILABLE"),
    ] {
        assert!(says(&scheduler::store_error(failed), status, code));
    }
    let refusal = invalid_limits();
    assert!(says(&refusal, 503, "STORE_UNAVAILABLE"));
    assert!(!refusal.retryable);
    let view = LeaseView::from_lease(Lease {
        tenant: id(1),
        run: id(9),
        epoch: 2,
        expires_at: "e".into(),
        module_digest: [0x10; 32],
        module: b"module".to_vec(),
        input: b"input".to_vec(),
        limits_json: "{}".into(),
    });
    assert_eq!(view.module_b64, "bW9kdWxl");
    assert_eq!(view.input_b64, "aW5wdXQ=");
    assert_eq!(view.module_digest, "10".repeat(32));
}

#[test]
fn sweeps_and_connections_are_bounded() {
    assert!(sweep_goes_on(SWEEP_BATCH - 1, &Ok(true)));
    assert!(!sweep_goes_on(SWEEP_BATCH, &Ok(true)));
    assert!(!sweep_goes_on(0, &Ok(false)));
    assert!(!sweep_goes_on(0, &Err(StoreError::CorruptScheduler)));
    assert!(may_accept(127));
    assert!(!may_accept(128));
    assert_eq!(ready(false, true), 403);
    assert_eq!(ready(true, true), 200);
    assert_eq!(ready(true, false), 503);
    let mut stats = ConnectionStats::default();
    for end in [
        ConnectionEnd::Completed,
        ConnectionEnd::Completed,
        ConnectionEnd::ProtocolError,
        ConnectionEnd::DeadlineExceeded,
        ConnectionEnd::Failed,
    ] {
        stats.record(end);
    }
    assert_eq!((stats.completed, stats.protocol_errors), (2, 1));
    assert_eq!((stats.deadline_exceeded, stats.task_failures), (1, 1));
    assert_eq!(stats.aborted_on_shutdown, 0);
}
