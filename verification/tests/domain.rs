//! Limits, lives of runs and effects, requests, grants and digests.
use effectlatch::domain::grants::{
    reservation_plan, validate_chain, validate_child, Authority, Grant, GrantError,
};
use effectlatch::domain::hash;
use effectlatch::domain::limits::{
    require_execution_host, ConfigError, Limits, EFFECT_REQUEST_BYTES, MAX_EFFECTS, MEMORY_BYTES,
    PAYLOAD_BYTES,
};
use effectlatch::domain::state::{EffectState, InvalidTransition, RunState};
use effectlatch::domain::types::{
    alias, digest_bytes, EffectRequest, NormalizedRun, RunCreate, TicketArguments, ValidationError,
};
use effectlatch::ids::{canonical_id, IdSet, Uuid};
use effectlatch::names::NameSet;
use effectlatch::text::{decimal_text, integer_text};
use sha2::{Digest, Sha256};

fn set(names: &[&str]) -> NameSet {
    NameSet::from_texts(names.iter().map(|name| name.to_string()).collect())
}

fn root() -> Grant {
    Grant {
        id: Uuid::from_u128(1),
        tenant_id: Uuid::from_u128(2),
        parent_id: None,
        depth: 0,
        authority: Authority {
            actions: set(&["ticket.create"]),
            destinations: set(&["tickets-idem"]),
            projects: set(&["DEMO"]),
            expires_at_ms: 1000,
            max_effects: 3,
        },
        used_effects: 0,
        revoked: false,
    }
}

#[test]
fn exhausted_root_cannot_be_multiplied_by_fresh_children() {
    let mut parent = root();
    parent.used_effects = 3;
    for id in 3..11 {
        let mut child = root();
        child.id = Uuid::from_u128(id);
        child.parent_id = Some(parent.id);
        child.depth = 1;
        assert_eq!(
            reservation_plan(
                &[parent.clone(), child],
                parent.tenant_id,
                1,
                "ticket.create",
                "tickets-idem",
                "DEMO"
            ),
            Err(GrantError::Exhausted)
        );
    }
}

#[test]
fn resource_and_expiry_escalation_are_denied() {
    let parent = root();
    let mut child = parent.authority.clone();
    child.projects.insert("PRIVATE".into());
    assert_eq!(
        validate_child(&child, std::slice::from_ref(&parent), parent.tenant_id, 1),
        Err(GrantError::Escalation)
    );
    child = parent.authority.clone();
    child.expires_at_ms += 1;
    assert_eq!(
        validate_child(&child, std::slice::from_ref(&parent), parent.tenant_id, 1),
        Err(GrantError::Escalation)
    );
}

#[test]
fn reservation_includes_every_ancestor_without_mutating_inputs() {
    let parent = root();
    let mut child = parent.clone();
    child.id = Uuid::from_u128(3);
    child.parent_id = Some(parent.id);
    child.depth = 1;
    let chain = [parent.clone(), child.clone()];
    assert_eq!(
        reservation_plan(
            &chain,
            parent.tenant_id,
            1,
            "ticket.create",
            "tickets-idem",
            "DEMO"
        ),
        Ok(vec![(parent.id, 1), (child.id, 1)])
    );
    assert_eq!(chain[0].used_effects, 0);
    assert_eq!(
        reservation_plan(
            &chain,
            parent.tenant_id,
            1000,
            "ticket.create",
            "tickets-idem",
            "DEMO"
        ),
        Err(GrantError::Inactive)
    );
}

#[test]
fn caller_cannot_disable_or_raise_limits() {
    let caps = Limits::default();
    for bad in [
        Limits { fuel: 0, ..caps },
        Limits {
            memory_bytes: 67_108_865,
            ..caps
        },
        Limits {
            wall_ms: 2_001,
            ..caps
        },
        Limits {
            max_effects: 9,
            ..caps
        },
    ] {
        assert!(bad.validate(caps).is_err());
    }
    assert!(Limits {
        fuel: 1,
        memory_bytes: 65_536,
        wall_ms: 1,
        max_effects: 1
    }
    .validate(caps)
    .is_ok());
}

#[test]
fn windows_is_diagnosed_instead_of_claiming_isolation() {
    let error = require_execution_host("windows", "x86_64").unwrap_err();
    assert!(error.to_text().contains("Linux"));
    assert!(require_execution_host("linux", "riscv64").is_err());
}

#[test]
fn ambiguity_prevents_clean_cancellation_and_success() {
    for state in [RunState::Leased, RunState::Running] {
        for terminal in [
            RunState::Cancelled,
            RunState::Succeeded,
            RunState::Queued,
            RunState::Failed,
        ] {
            assert!(state.transition(terminal, true, false).is_err());
        }
        assert_eq!(
            state.transition(RunState::NeedsReconciliation, true, false),
            Ok(RunState::NeedsReconciliation)
        );
    }
}

#[test]
fn unknown_never_implicitly_retries() {
    assert!(EffectState::OutcomeUnknown
        .transition(EffectState::Dispatching, false, false)
        .is_err());
    assert!(EffectState::OutcomeUnknown
        .transition(EffectState::Committed, false, false)
        .is_err());
    assert!(EffectState::Committed
        .transition(EffectState::Dispatching, false, true)
        .is_err());
    assert!(EffectState::OutcomeUnknown
        .transition(EffectState::Committed, true, false)
        .is_ok());
}

#[test]
fn deferred_retry_is_nonterminal_and_requires_safe_promotion() {
    assert!(!RunState::RetryWait.terminal());
    assert_eq!(
        RunState::Running.transition(RunState::RetryWait, false, false),
        Ok(RunState::RetryWait)
    );
    assert_eq!(
        RunState::RetryWait.transition(RunState::Queued, false, false),
        Ok(RunState::Queued)
    );
    assert!(RunState::RetryWait
        .transition(RunState::Queued, true, false)
        .is_err());
}

#[test]
fn terminal_runs_and_resolved_effects_stay() {
    let states = [
        RunState::Queued,
        RunState::RetryWait,
        RunState::Leased,
        RunState::Running,
        RunState::Succeeded,
        RunState::Failed,
        RunState::Cancelled,
        RunState::NeedsReconciliation,
    ];
    for from in [RunState::Succeeded, RunState::Failed, RunState::Cancelled] {
        assert!(from.terminal());
        for to in states {
            assert_eq!(from.transition(to, false, true), Err(InvalidTransition));
        }
    }
    assert_eq!(
        RunState::NeedsReconciliation.transition(RunState::Queued, false, true),
        Ok(RunState::Queued)
    );
    assert!(RunState::NeedsReconciliation
        .transition(RunState::Queued, false, false)
        .is_err());
    for from in [EffectState::Committed, EffectState::DefinitelyFailed] {
        assert!(!from.unresolved());
        assert!(from
            .transition(EffectState::OutcomeUnknown, true, true)
            .is_err());
    }
    assert!(EffectState::Dispatching.unresolved());
    assert!(!EffectState::Prepared.unresolved());
    assert!(EffectState::Prepared
        .transition(EffectState::Committed, true, true)
        .is_err());
}

#[test]
fn each_limit_is_named_when_it_is_violated() {
    let caps = Limits::default();
    assert_eq!(caps.fuel, 10_000_000);
    assert_eq!(caps.memory_bytes, MEMORY_BYTES);
    assert_eq!(caps.wall_ms, 2_000);
    assert_eq!(caps.max_effects, MAX_EFFECTS);
    let named = [
        (Limits { fuel: 0, ..caps }, "fuel"),
        (
            Limits {
                memory_bytes: 0,
                ..caps
            },
            "memory_bytes",
        ),
        (Limits { wall_ms: 0, ..caps }, "wall_ms"),
        (
            Limits {
                max_effects: 0,
                ..caps
            },
            "max_effects",
        ),
    ];
    for (limits, name) in named {
        assert_eq!(limits.validate(caps), Err(ConfigError::InvalidLimit(name)));
    }
    // An operator may raise the wall time, never the fixed caps.
    let generous = Limits {
        memory_bytes: u64::MAX,
        max_effects: u64::MAX,
        wall_ms: u64::MAX,
        ..caps
    };
    assert!(Limits {
        wall_ms: u64::MAX,
        ..caps
    }
    .validate(generous)
    .is_ok());
    assert_eq!(
        Limits {
            max_effects: 9,
            ..caps
        }
        .validate(generous),
        Err(ConfigError::InvalidLimit("max_effects"))
    );
    assert_eq!(
        ConfigError::InvalidLimit("fuel").to_text(),
        "limit fuel must be positive and within operator caps"
    );
    assert!(require_execution_host("linux", "x86_64").is_ok());
    assert!(require_execution_host("linux", "aarch64").is_ok());
}

fn request() -> EffectRequest {
    EffectRequest {
        ordinal: 0,
        action: "ticket.create".into(),
        destination: "tickets-idem".into(),
        arguments: TicketArguments {
            project: "DEMO".into(),
            title: "A title".into(),
            body: String::new(),
        },
    }
}

fn blamed(request: &EffectRequest) -> &'static str {
    match request.validate() {
        Err(ValidationError::Invalid(part)) => part,
        Err(ValidationError::Json(_)) => panic!("not decoded here"),
        Ok(()) => "",
    }
}

#[test]
fn effect_requests_name_what_is_invalid() {
    assert_eq!(blamed(&request()), "");
    let mut changed = request();
    changed.ordinal = MAX_EFFECTS;
    assert_eq!(blamed(&changed), "ordinal");
    let mut changed = request();
    changed.action = "ticket.delete".into();
    assert_eq!(blamed(&changed), "action");
    let mut changed = request();
    changed.destination = "not an alias".into();
    assert_eq!(blamed(&changed), "destination/project");
    let mut changed = request();
    changed.arguments.project = String::new();
    assert_eq!(blamed(&changed), "destination/project");
    let mut changed = request();
    changed.arguments.title = "t".repeat(201);
    assert_eq!(blamed(&changed), "title");
    changed.arguments.title = "\u{1F600}".repeat(200);
    assert_eq!(blamed(&changed), "");
    changed.arguments.title = String::new();
    assert_eq!(blamed(&changed), "title");
    let mut changed = request();
    changed.arguments.body = "b".repeat(8193);
    assert_eq!(blamed(&changed), "body");
}

#[test]
fn parsing_judges_size_before_content() {
    let oversized = vec![0u8; EFFECT_REQUEST_BYTES + 1];
    assert!(matches!(
        EffectRequest::parse(&oversized, Ok(request())),
        Err(ValidationError::Invalid("request size"))
    ));
    assert!(matches!(
        EffectRequest::parse(b"{}", Err(decode_error())),
        Err(ValidationError::Json(_))
    ));
    assert!(matches!(EffectRequest::parse(b"{}", Ok(request())), Ok(parsed) if parsed.ordinal == 0));
}

fn decode_error() -> serde_json::Error {
    serde_json::from_str::<u8>("{").unwrap_err()
}

#[test]
fn aliases_and_digests_are_strict() {
    assert!(alias("a-Z_09"));
    assert!(alias(&"a".repeat(64)));
    assert!(!alias(&"a".repeat(65)));
    assert!(!alias(""));
    assert!(!alias("a.b"));
    let mut expected = [0u8; 32];
    for (index, byte) in expected.iter_mut().enumerate() {
        *byte = index as u8 * 7;
    }
    let text = hash::hex(&expected);
    assert_eq!(&text[0..8], "00070e15");
    assert_eq!(digest_bytes(&text).unwrap(), expected);
    assert!(digest_bytes(&text.to_uppercase()).is_err());
    assert!(digest_bytes(&text[1..]).is_err());
}

fn create() -> RunCreate {
    RunCreate {
        module_digest: "0a".repeat(32),
        grant_id: "00000000-0000-0000-0000-0000000000ff".into(),
        input_b64: "aGVsbG8=".into(),
        limits: Limits::default(),
    }
}

fn run_blame(create: RunCreate) -> &'static str {
    match create.normalize(Limits::default()) {
        Err(ValidationError::Invalid(part)) => part,
        Err(ValidationError::Json(_)) => panic!("not decoded here"),
        Ok(_) => "",
    }
}

#[test]
fn runs_are_admitted_in_canonical_form_alone() {
    let run = create().normalize(Limits::default()).unwrap();
    assert_eq!(run.module_digest, [10u8; 32]);
    assert_eq!(run.grant_id, Uuid::from_u128(255));
    assert_eq!(run.input, b"hello");
    assert_eq!(run.limits, Limits::default());

    let mut changed = create();
    changed.module_digest = "0A".repeat(32);
    assert_eq!(run_blame(changed), "digest");
    let mut changed = create();
    changed.grant_id = "not an id".into();
    assert_eq!(run_blame(changed), "grant_id");
    let mut changed = create();
    changed.grant_id = "00000000-0000-0000-0000-0000000000FF".into();
    assert_eq!(run_blame(changed), "canonical grant_id");
    let mut changed = create();
    changed.grant_id = "000000000000000000000000000000ff".into();
    assert_eq!(run_blame(changed), "canonical grant_id");
    let mut changed = create();
    changed.input_b64 = "A".repeat((PAYLOAD_BYTES + 2) / 3 * 4 + 4);
    assert_eq!(run_blame(changed), "input size");
    let mut changed = create();
    changed.input_b64 = "aGVsbG8".into();
    assert_eq!(run_blame(changed), "base64");
    let mut changed = create();
    changed.input_b64 = "A".repeat((PAYLOAD_BYTES + 2) / 3 * 4);
    assert_eq!(run_blame(changed), "canonical base64");
    let mut changed = create();
    changed.limits.fuel = 0;
    assert_eq!(run_blame(changed), "limits");
    // The judgement on what was read, apart from the reading.
    assert!(matches!(
        create().normalize_decoded(
            Limits::default(),
            Some(Uuid::from_u128(255)),
            Some(b"hello".to_vec()),
            "aGVsbG9="
        ),
        Err(ValidationError::Invalid("canonical base64"))
    ));
}

#[test]
fn identifiers_have_one_text() {
    let id = Uuid::from_u128(0x0123_4567_89ab_cdef_0123_4567_89ab_cdef);
    assert_eq!(id.to_text(), "01234567-89ab-cdef-0123-456789abcdef");
    assert_eq!(canonical_id("01234567-89ab-cdef-0123-456789abcdef"), Some(id));
    assert_eq!(canonical_id("01234567-89AB-cdef-0123-456789abcdef"), None);
    assert_eq!(canonical_id("0123456789abcdef0123456789abcdef"), None);
    assert_eq!(canonical_id("{01234567-89ab-cdef-0123-456789abcdef}"), None);
    let mut ids = IdSet::new();
    assert!(ids.insert(Uuid::from_u128(9)));
    assert!(ids.insert(Uuid::from_u128(3)));
    assert!(!ids.insert(Uuid::from_u128(9)));
    assert_eq!(ids.to_vec(), vec![Uuid::from_u128(3), Uuid::from_u128(9)]);
}

#[test]
fn names_are_kept_in_byte_order() {
    let mut names = set(&["b", "a", "b", "\u{e9}", "Z"]);
    assert_eq!(names.to_texts(), vec!["Z", "a", "b", "\u{e9}"]);
    assert!(!names.insert("a".into()));
    assert!(names.insert("ab".into()));
    assert_eq!(names.to_texts(), vec!["Z", "a", "ab", "b", "\u{e9}"]);
    assert!(set(&["a", "b"]).is_subset(&names));
    assert!(!set(&["a", "c"]).is_subset(&names));
}

#[test]
fn numbers_are_written_in_decimal() {
    assert_eq!(decimal_text(0), "0");
    assert_eq!(decimal_text(1_023_456_789), "1023456789");
    assert_eq!(decimal_text(u64::MAX), u64::MAX.to_string());
    assert_eq!(integer_text(i64::MIN), i64::MIN.to_string());
    assert_eq!(integer_text(-7), "-7");
}

fn child_of(parent: &Grant, id: u128, depth: u8) -> Grant {
    let mut child = parent.clone();
    child.id = Uuid::from_u128(id);
    child.parent_id = Some(parent.id);
    child.depth = depth;
    child
}

#[test]
fn chains_fail_by_their_first_fault() {
    let parent = root();
    let tenant = parent.tenant_id;
    let child = child_of(&parent, 3, 1);
    assert_eq!(validate_chain(&[parent.clone(), child.clone()], tenant, 1), Ok(()));
    assert_eq!(validate_chain(&[], tenant, 1), Err(GrantError::Ancestry));
    assert_eq!(
        validate_chain(&[parent.clone(), child.clone()], Uuid::from_u128(9), 1),
        Err(GrantError::Ancestry)
    );
    let mut broken = child.clone();
    broken.parent_id = None;
    assert_eq!(
        validate_chain(&[parent.clone(), broken], tenant, 1),
        Err(GrantError::Ancestry)
    );
    let mut revoked = parent.clone();
    revoked.revoked = true;
    assert_eq!(
        validate_chain(&[revoked, child.clone()], tenant, 1),
        Err(GrantError::Inactive)
    );
    assert_eq!(
        validate_chain(&[parent.clone(), child.clone()], tenant, 1000),
        Err(GrantError::Inactive)
    );
    let mut overdrawn = child.clone();
    overdrawn.used_effects = 4;
    assert_eq!(
        validate_chain(&[parent.clone(), overdrawn], tenant, 1),
        Err(GrantError::Invalid)
    );
    let mut raised = child.clone();
    raised.authority.max_effects = 4;
    assert_eq!(
        validate_chain(&[parent.clone(), raised], tenant, 1),
        Err(GrantError::Escalation)
    );
}

#[test]
fn authorities_are_shaped_and_short_lived() {
    let authority = root().authority;
    assert_eq!(authority.validate(1), Ok(()));
    assert_eq!(authority.validate(1000), Err(GrantError::Invalid));
    assert_eq!(authority.validate(1000 - 86_400_001), Err(GrantError::Invalid));
    assert_eq!(authority.validate(1000 - 86_400_000), Ok(()));
    let mut changed = authority.clone();
    changed.max_effects = 101;
    assert_eq!(changed.validate_shape(), Err(GrantError::Invalid));
    let mut changed = authority.clone();
    changed.actions = set(&["ticket.create", "ticket.read"]);
    assert_eq!(changed.validate_shape(), Err(GrantError::Invalid));
    let mut changed = authority.clone();
    changed.projects = NameSet::new();
    assert_eq!(changed.validate_shape(), Err(GrantError::Invalid));
    assert!(authority.attenuates(&authority));
    assert!(!changed.actions.is_empty());
}

fn framed(bytes: &[u8]) -> Vec<u8> {
    let mut out = (bytes.len() as u64).to_be_bytes().to_vec();
    out.extend_from_slice(bytes);
    out
}

fn sha(parts: &[&[u8]]) -> [u8; 32] {
    Sha256::digest(parts.concat()).into()
}

#[test]
fn digests_cover_tagged_and_framed_messages() {
    let limits = Limits::default();
    let run = NormalizedRun {
        module_digest: [7u8; 32],
        grant_id: Uuid::from_u128(11),
        input: b"input".to_vec(),
        limits,
    };
    assert_eq!(
        hash::run(&run),
        sha(&[
            b"effectlatch/run/v1\0",
            &[7u8; 32],
            &11u128.to_be_bytes(),
            &framed(b"input"),
            &limits.fuel.to_be_bytes(),
            &limits.memory_bytes.to_be_bytes(),
            &limits.wall_ms.to_be_bytes(),
            &limits.max_effects.to_be_bytes(),
        ])
    );
    assert_eq!(
        hash::effect(&request()),
        sha(&[
            b"effectlatch/effect/v1\0",
            &framed(b"ticket.create"),
            &framed(b"tickets-idem"),
            &framed(b"DEMO"),
            &framed(b"A title"),
            &framed(b""),
        ])
    );
    let (tenant, id) = (Uuid::from_u128(1), Uuid::from_u128(2));
    assert_eq!(
        hash::provider(tenant, id, 5),
        sha(&[
            b"effectlatch/provider/v1\0",
            &1u128.to_be_bytes(),
            &2u128.to_be_bytes(),
            &5u64.to_be_bytes(),
        ])
    );
    assert_eq!(
        hash::event(tenant, id, 3, &[9u8; 32], "run.admitted", b"{}"),
        sha(&[
            b"effectlatch/event/v1\0",
            &1u128.to_be_bytes(),
            &2u128.to_be_bytes(),
            &3u64.to_be_bytes(),
            &[9u8; 32],
            &framed(b"run.admitted"),
            &framed(b"{}"),
        ])
    );
    assert_eq!(
        hash::checkpoint(tenant, id, 3, &[9u8; 32]),
        [
            b"effectlatch/checkpoint/v1\0".as_slice(),
            &1u128.to_be_bytes(),
            &2u128.to_be_bytes(),
            &3u64.to_be_bytes(),
            &[9u8; 32],
        ]
        .concat()
    );
    let names = |list: &[&[u8]]| {
        let mut out = (list.len() as u64).to_be_bytes().to_vec();
        for name in list {
            out.extend_from_slice(&framed(name));
        }
        out
    };
    assert_eq!(
        hash::grant(Some(tenant), &root().authority),
        sha(&[
            b"effectlatch/grant/v1\0",
            &[1u8],
            &1u128.to_be_bytes(),
            &names(&[b"ticket.create"]),
            &names(&[b"tickets-idem"]),
            &names(&[b"DEMO"]),
            &1000i64.to_be_bytes(),
            &3u64.to_be_bytes(),
        ])
    );
    assert_ne!(
        hash::grant(None, &root().authority),
        hash::grant(Some(tenant), &root().authority)
    );
    assert_eq!(
        hash::grant_revocation(id, "leaked"),
        sha(&[
            b"effectlatch/grant-revocation/v1\0",
            &2u128.to_be_bytes(),
            &framed(b"leaked"),
        ])
    );
}

#[test]
fn leaf_coverage_and_budget_reach_the_root() {
    let parent = root();
    let mut child = child_of(&parent, 3, 1);
    child.authority.max_effects = 1;
    let leaf = child_of(&child, 4, 2);
    let tenant = parent.tenant_id;
    let chain = [parent.clone(), child.clone(), leaf.clone()];
    assert_eq!(
        reservation_plan(&chain, tenant, 1, "ticket.create", "foreign", "DEMO"),
        Err(GrantError::Denied)
    );
    let plan =
        reservation_plan(&chain, tenant, 1, "ticket.create", "tickets-idem", "DEMO").unwrap();
    assert_eq!(plan.len(), 3);
    let mut after = chain;
    for (grant, (_, used)) in after.iter_mut().zip(plan) {
        grant.used_effects = used;
    }
    assert_eq!(validate_chain(&after, tenant, 1), Ok(()));
    assert_eq!(
        reservation_plan(&after, tenant, 1, "ticket.create", "tickets-idem", "DEMO"),
        Err(GrantError::Exhausted)
    );
}

#[test]
fn accepted_child_extends_its_chain() {
    let parent = root();
    let tenant = parent.tenant_id;
    assert_eq!(
        validate_child(&parent.authority, std::slice::from_ref(&parent), tenant, 1),
        Ok(())
    );
    let child = child_of(&parent, 3, 1);
    assert_eq!(validate_chain(&[parent.clone(), child.clone()], tenant, 1), Ok(()));
    let mut chain = vec![parent, child];
    for depth in 2..5u8 {
        let next = child_of(&chain[chain.len() - 1], 10 + depth as u128, depth);
        chain.push(next);
    }
    assert_eq!(validate_chain(&chain, tenant, 1), Ok(()));
    assert_eq!(
        validate_child(&chain[0].authority, &chain, tenant, 1),
        Err(GrantError::Ancestry)
    );
}
