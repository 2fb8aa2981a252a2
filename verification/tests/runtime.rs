//! Modules, host functions, frames, supervision and the runner.
use effectlatch::domain::limits::{Limits, EFFECT_REQUEST_BYTES, LOG_BYTES, PAYLOAD_BYTES};
use effectlatch::domain::types::{EffectRequest, TicketArguments};
use effectlatch::runtime::abi::{
    valid_reply, AbiCaps, AbiCode, AbiError, Committed, DispatchFailure, EffectReply, EffectStart,
    State, TicketResponse, Trap, MAX_HOST_CALLS,
};
use effectlatch::runtime::engine::{BoundedEngine, RuntimeError, RuntimeStore, Settings};
use effectlatch::runtime::ipc::{
    canonical_base64, child_kind, frame_length, kind_of, read_child, read_start, write_frame,
    ChildFrame, ChildKind, DecodedChild, EffectResponse, EffectResponseFrame, ParentSequence,
    ProtocolError, RawEffectRequestFrame, StartFrame, MESSAGE_FRAME_BYTES,
};
use effectlatch::runtime::runner::{
    abi_error_code, admit_descriptor, admit_environment, beyond_standard, effect_answer,
    failure_frame, parse_operator_caps, start_payload, success_frames, worker_frames,
    IpcDispatcher, RunnerError, WorkerEvent,
};
use effectlatch::runtime::supervisor::{
    dispatch_code, BrokerError, DispatchPoll, Exit, LeaseState, RunnerEvent, Step, Supervision,
    Supervisor, SupervisorError, LEASE_POLL_MS,
};
use effectlatch::runtime::validate::{
    validate, Defined, Export, Import, Imported, InvalidModule, Kind, Memory, Section, Signature,
    Surface,
};
use wasmtime::ResourceLimiter;

fn source(change: &str) -> String {
    format!(
        r#"(module
            (import "effectlatch_v1" "input_len" (func $input_len (result i32)))
            (import "effectlatch_v1" "input_read" (func $input_read (param i32 i32) (result i32)))
            (import "effectlatch_v1" "effect_call" (func $effect_call (param i32 i32 i32 i32) (result i32)))
            (import "effectlatch_v1" "output_write" (func $output_write (param i32 i32) (result i32)))
            (import "effectlatch_v1" "log" (func $log (param i32 i32) (result i32)))
            (memory (export "memory") 1 1024)
            (func (export "run") (result i32) i32.const 0)
            {change})"#,
    )
}

fn module(change: &str) -> Vec<u8> {
    wat::parse_str(source(change)).unwrap()
}

#[test]
fn accepts_only_the_bounded_five_import_abi() {
    assert!(validate(&module("")).is_ok());
    assert!(validate(&module(r#"(func (export "extra"))"#)).is_err());
    assert!(validate(&module("(func $start) (start $start)")).is_err());
    assert!(validate(&module("(table 1 funcref)")).is_err());
    let unknown = module("");
    let unknown = unknown
        .windows(b"input_len".len())
        .position(|window| window == b"input_len")
        .map(|offset| {
            let mut changed = unknown.clone();
            changed[offset..offset + b"input_len".len()].copy_from_slice(b"input_bad");
            changed
        })
        .unwrap();
    assert!(validate(&unknown).is_err());
}

#[test]
fn rejects_ambient_imports_and_signature_drift() {
    for extra in [
        r#"(import "wasi_snapshot_preview1" "fd_write" (func (param i32 i32 i32 i32) (result i32)))"#,
        r#"(import "effectlatch_v1" "input_len" (func (result i32)))"#,
        r#"(import "effectlatch_v1" "foreign_memory" (memory 1 1))"#,
        r#"(import "effectlatch_v1" "foreign_table" (table 1 funcref))"#,
        r#"(import "effectlatch_v1" "foreign_global" (global i32))"#,
    ] {
        let hostile = source("").replace(
            r#"(memory (export "memory") 1 1024)"#,
            &format!("{extra}\n(memory (export \"memory\") 1 1024)"),
        );
        assert!(
            validate(&wat::parse_str(hostile).unwrap()).is_err(),
            "accepted {extra}"
        );
    }
    let missing = source("").replace(
        r#"(import "effectlatch_v1" "log" (func $log (param i32 i32) (result i32)))"#,
        "",
    );
    assert!(validate(&wat::parse_str(missing).unwrap()).is_err());
    let wrong = source("").replace(
        r#"(func $input_len (result i32))"#,
        r#"(func $input_len (param i32) (result i32))"#,
    );
    assert!(validate(&wat::parse_str(wrong).unwrap()).is_err());
}

#[test]
fn rejects_unsupported_memory_and_component_forms() {
    for memory in [
        r#"(memory (export "memory") 1 1024 shared)"#,
        r#"(memory (export "memory") i64 1 1024)"#,
        r#"(memory (export "memory") 1)"#,
        r#"(memory (export "memory") 1025 1025)"#,
    ] {
        let hostile = source("").replace(r#"(memory (export "memory") 1 1024)"#, memory);
        assert!(validate(&wat::parse_str(hostile).unwrap()).is_err());
    }
    assert!(validate(&module("(memory 1 1)")).is_err());
    assert!(validate(&wat::parse_str("(component)").unwrap()).is_err());
}

#[test]
fn ordinary_globals_and_data_are_allowed_within_bounds() {
    assert!(validate(&module("(global (mut i32) (i32.const 0))")).is_ok());
    assert!(validate(&module("(global (mut i64) (i64.const 0))")).is_ok());
    assert!(validate(&module("(global (mut f32) (f32.const 0))")).is_err());
    assert!(validate(&module(&"(global (mut i32) (i32.const 0))".repeat(32))).is_ok());
    assert!(validate(&module(&"(global (mut i32) (i32.const 0))".repeat(33))).is_err());
    assert!(validate(&module(&r#"(data (i32.const 0) "x")"#.repeat(256))).is_ok());
    assert!(validate(&module(&r#"(data (i32.const 0) "x")"#.repeat(257))).is_err());
    assert!(validate(&module(&"(func)".repeat(1023))).is_ok());
    assert!(validate(&module(&"(func)".repeat(1024))).is_err());
    assert!(validate(b"").is_err());
    assert!(validate(b"not wasm").is_err());
    assert_eq!(
        InvalidModule.to_text(),
        "module does not implement the EffectLatch ABI v1"
    );
}

fn signature(params: usize) -> Defined {
    Defined::Function(Signature {
        params: vec!["i32".to_string(); params],
        results: vec!["i32".to_string()],
    })
}

fn import(name: &str, function: u32) -> Import {
    Import {
        module: "effectlatch_v1".into(),
        name: name.into(),
        kind: Imported::Func(function),
    }
}

fn surface() -> Surface {
    Surface {
        types: vec![signature(0), signature(2), signature(4)],
        imports: vec![
            import("input_len", 0),
            import("input_read", 1),
            import("effect_call", 2),
            import("output_write", 1),
            import("log", 1),
        ],
        functions: vec![0],
        memories: vec![Memory {
            memory64: false,
            shared: false,
            page_size_log2: None,
            initial: 1,
            maximum: Some(1024),
        }],
        globals: vec!["i32".into(), "i64".into()],
        exports: vec![
            Export {
                name: "memory".into(),
                kind: Kind::Memory,
                index: 0,
            },
            Export {
                name: "run".into(),
                kind: Kind::Func,
                index: 5,
            },
        ],
        code_counts: vec![1],
        data_counts: vec![256],
        bodies: 1,
    }
}

#[test]
fn a_surface_conforms_or_not_by_each_rule() {
    assert_eq!(surface().judge(), Ok(()));
    let mut changed = surface();
    changed.exports.swap(0, 1);
    assert_eq!(changed.judge(), Ok(()));
    let changes: [fn(&mut Surface); 16] = [
        |s| s.types[0] = Defined::Array,
        |s| s.imports[0].kind = Imported::Func(1),
        |s| s.imports[0].kind = Imported::Global,
        |s| s.imports[0].kind = Imported::Func(3),
        |s| s.imports[1].name = "log".into(),
        |s| s.imports[1].module = "env".into(),
        |s| s.functions[0] = 1,
        |s| s.exports[1].index = 4,
        |s| s.exports[1].index = 6,
        |s| s.exports[0].index = 1,
        |s| s.exports[1].kind = Kind::Global,
        |s| s.memories[0].maximum = None,
        |s| s.memories[0].page_size_log2 = Some(0),
        |s| s.globals[0] = "f64".into(),
        |s| s.code_counts[0] = 1025,
        |s| s.data_counts[0] = 257,
    ];
    for change in changes {
        let mut changed = surface();
        change(&mut changed);
        assert_eq!(changed.judge(), Err(InvalidModule));
    }
    let mut changed = surface();
    changed.bodies = 1025;
    assert!(changed.judge().is_err());
}

#[test]
fn other_sections_are_refused_and_custom_ones_say_nothing() {
    assert!(validate(&module(r#"(@custom "note" "text")"#)).is_ok());
    assert!(validate(&module("(elem declare func $input_len)")).is_err());
    let gathered = |sections: &[Section]| Surface::gather(&[], sections).is_some();
    assert!(gathered(&[Section::ModuleHeader, Section::Body, Section::Finish]));
    assert!(gathered(&[Section::Part(Some((0, 0..0)))]));
    for number in [4, 8, 9, 10, 13, 14, 255] {
        assert!(!gathered(&[Section::ModuleHeader, Section::Part(Some((number, 0..0)))]));
    }
    assert!(!gathered(&[Section::ComponentHeader]));
    assert!(!gathered(&[Section::Part(None)]));
    let read = Surface::gather(&[], &[Section::Code(3), Section::Data(4), Section::DataCount(5)]);
    let read = read.unwrap();
    assert_eq!((read.code_counts, read.data_counts), (vec![3], vec![4, 5]));
}

#[test]
fn the_engine_compiles_valid_modules_alone() {
    let settings = Settings::bounded();
    assert!(settings.consume_fuel && settings.epoch_interruption && !settings.memory64);
    assert_eq!(settings.stack_bytes, 524_288);
    let engine = BoundedEngine::new().unwrap();
    let compiled = engine.compile(&module("")).unwrap();
    assert_eq!(compiled.module().exports().count(), 2);
    assert!(wasmtime::Engine::same(compiled.module().engine(), engine.engine()));
    assert!(matches!(
        engine.compile(b"\0asm"),
        Err(RuntimeError::InvalidModule(_))
    ));
}

#[test]
fn store_data_keeps_its_limits() {
    let caps = Limits::default();
    let requested = Limits {
        fuel: 5,
        wall_ms: 7,
        memory_bytes: 131_072,
        ..caps
    };
    let mut store = RuntimeStore::new(41u8, requested, caps).unwrap();
    *store.host_mut() += 1;
    assert_eq!(*store.host(), 42);
    assert_eq!(store.fuel(), 5);
    assert_eq!(store.wall_ms(), 7);
    let limits = store.limits_mut();
    assert_eq!((limits.instances(), limits.memories(), limits.tables()), (1, 1, 0));
    assert!(limits.memory_growing(0, 131_072, None).unwrap());
    assert!(!limits.memory_growing(131_072, 196_608, None).unwrap());
    assert!(matches!(
        RuntimeStore::new((), Limits { fuel: 0, ..caps }, caps),
        Err(RuntimeError::Limits(_))
    ));
}

fn caps() -> AbiCaps {
    AbiCaps {
        host_calls: 8,
        log_bytes: 10,
    }
}

fn guest(input: &[u8]) -> State {
    State::new(input.to_vec(), Limits::default(), caps()).unwrap()
}

fn outcome(state: State) -> Result<effectlatch::runtime::abi::AbiOutcome, AbiError> {
    state.outcome(Ok(0))
}

fn violation(state: State) -> AbiCode {
    match outcome(state) {
        Err(AbiError::Violation(code)) => code,
        other => panic!("no violation: {other:?}"),
    }
}

#[test]
fn guests_start_within_their_caps() {
    assert!(matches!(
        State::new(vec![0; PAYLOAD_BYTES + 1], Limits::default(), caps()),
        Err(AbiError::InputSize)
    ));
    for bad in [
        AbiCaps {
            host_calls: 0,
            log_bytes: 1,
        },
        AbiCaps {
            host_calls: MAX_HOST_CALLS + 1,
            log_bytes: 1,
        },
        AbiCaps {
            host_calls: 1,
            log_bytes: 0,
        },
        AbiCaps {
            host_calls: 1,
            log_bytes: LOG_BYTES + 1,
        },
    ] {
        assert!(matches!(bad.validate(), Err(AbiError::InvalidCaps)));
        assert!(matches!(
            State::new(vec![], Limits::default(), bad),
            Err(AbiError::InvalidCaps)
        ));
    }
}

#[test]
fn the_input_is_copied_into_the_guest() {
    let mut state = guest(b"abc");
    let mut memory = [9u8; 8];
    assert_eq!(state.input_len(), 3);
    assert_eq!(state.input_read(Some(&mut memory), 2, 6), 3);
    assert_eq!(memory, [9, 9, b'a', b'b', b'c', 9, 9, 9]);
    let done = outcome(state).unwrap();
    assert_eq!(done.host_calls, 2);
    assert_eq!(done.output, None);
}

#[test]
fn a_violation_answers_every_later_call() {
    // Too small a buffer, one past the end, a negative length, no memory.
    for (ptr, capacity, code) in [
        (0, 2, AbiCode::Size),
        (6, 3, AbiCode::InvalidMemory),
        (0, -1, AbiCode::Size),
        (-1, 3, AbiCode::InvalidMemory),
    ] {
        let mut state = guest(b"abc");
        let mut memory = [9u8; 8];
        assert_eq!(
            state.input_read(Some(&mut memory), ptr, capacity),
            code.number()
        );
        assert_eq!(memory, [9u8; 8]);
        assert_eq!(state.input_len(), code.number());
        assert_eq!(state.log(Some(&memory), 0, 0), code.number());
        assert_eq!(state.output_write(Some(&memory), 0, 1), code.number());
        assert_eq!(violation(state), code);
    }
    let mut state = guest(b"abc");
    assert_eq!(state.input_read(None, 0, 3), -1);
    assert_eq!(violation(state), AbiCode::InvalidMemory);
}

#[test]
fn nothing_follows_the_output() {
    let mut state = guest(b"");
    assert_eq!(state.output_write(Some(b"output"), 1, 3), 3);
    assert_eq!(state.input_len(), AbiCode::InvalidState.number());
    assert_eq!(violation(state), AbiCode::InvalidState);
    let mut state = guest(b"");
    assert_eq!(state.output_write(Some(b"output"), 1, 3), 3);
    assert_eq!(outcome(state).unwrap().output, Some(b"utp".to_vec()));
    let mut state = guest(b"");
    let large = vec![0u8; PAYLOAD_BYTES + 1];
    assert_eq!(
        state.output_write(Some(&large), 0, PAYLOAD_BYTES as i32 + 1),
        AbiCode::Size.number()
    );
}

#[test]
fn calls_are_counted_and_bounded() {
    let mut state = guest(b"");
    for _ in 0..8 {
        assert_eq!(state.input_len(), 0);
    }
    assert_eq!(state.input_len(), AbiCode::InvalidState.number());
    assert_eq!(violation(state), AbiCode::InvalidState);
}

#[test]
fn logs_are_text_within_their_cap() {
    let mut state = guest(b"");
    assert_eq!(state.log(Some("h\u{e9}llo".as_bytes()), 0, 6), 6);
    assert_eq!(state.log(Some(b"1234"), 0, 4), 4);
    assert_eq!(state.log(Some(b"5"), 0, 1), AbiCode::Size.number());
    let mut state = guest(b"");
    assert_eq!(state.log(Some("h\u{e9}llo".as_bytes()), 0, 6), 6);
    assert_eq!(
        outcome(state).unwrap().logs,
        vec!["h\u{e9}llo".to_string()]
    );
    let mut state = guest(b"");
    assert_eq!(state.log(Some(&[0xff]), 0, 1), AbiCode::Policy.number());
    assert_eq!(violation(state), AbiCode::Policy);
}

fn request(ordinal: u64) -> EffectRequest {
    EffectRequest {
        ordinal,
        action: "ticket.create".into(),
        destination: "tickets-idem".into(),
        arguments: TicketArguments {
            project: "DEMO".into(),
            title: "A title".into(),
            body: "A body".into(),
        },
    }
}

fn reply(ordinal: u64) -> EffectReply {
    EffectReply {
        ordinal,
        state: Committed::Committed,
        response: TicketResponse {
            ticket_id: "T-1".into(),
            project: "DEMO".into(),
        },
        replayed: false,
    }
}

const CAPACITY: i32 = PAYLOAD_BYTES as i32;

fn begun() -> State {
    let mut state = guest(b"");
    let mut memory = vec![0u8; PAYLOAD_BYTES + 16];
    memory[0..4].copy_from_slice(b"{..}");
    match state.effect_call(Some(&memory), 0, 4, 16, CAPACITY) {
        EffectStart::Request(copied) => assert_eq!(copied, b"{..}"),
        EffectStart::Refused(code) => panic!("refused with {code}"),
    }
    state
}

#[test]
fn effects_are_numbered_and_written_back() {
    let mut state = begun();
    let mut memory = vec![0u8; PAYLOAD_BYTES + 16];
    let admitted = state.effect_request(b"{..}", Ok(request(0))).unwrap();
    assert_eq!(
        state.effect_response(
            &admitted,
            Ok(b"reply".to_vec()),
            Some(reply(0)),
            Some(&mut memory),
            16,
            CAPACITY
        ),
        Ok(5)
    );
    assert_eq!(&memory[14..22], b"\0\0reply\0");
    // The next ordinal and a replay of an earlier one are admitted, a gap is not.
    assert!(state.effect_request(b"{..}", Ok(request(0))).is_ok());
    assert!(state.effect_request(b"{..}", Ok(request(1))).is_ok());
    assert_eq!(
        state.effect_request(b"{..}", Ok(request(2))).unwrap_err(),
        AbiCode::Policy.number()
    );
    assert_eq!(violation(state), AbiCode::Policy);
}

#[test]
fn effects_are_refused_before_they_are_dispatched() {
    let memory = vec![0u8; PAYLOAD_BYTES + 16];
    let refused = |req_len: i32, resp_ptr: i32, resp_cap: i32| {
        let mut state = guest(b"");
        match state.effect_call(Some(&memory), 0, req_len, resp_ptr, resp_cap) {
            EffectStart::Refused(code) => code,
            EffectStart::Request(_) => 0,
        }
    };
    assert_eq!(refused(4, 16, CAPACITY), 0);
    assert_eq!(refused(0, 16, CAPACITY), AbiCode::Size.number());
    assert_eq!(
        refused(EFFECT_REQUEST_BYTES as i32 + 1, 16, CAPACITY),
        AbiCode::Size.number()
    );
    assert_eq!(refused(4, 16, CAPACITY - 1), AbiCode::Size.number());
    assert_eq!(refused(4, 17, CAPACITY), AbiCode::InvalidMemory.number());
    let mut state = begun();
    assert_eq!(
        state
            .effect_request(b"{", Err(decode_error()))
            .unwrap_err(),
        AbiCode::Policy.number()
    );
}

fn decode_error() -> serde_json::Error {
    serde_json::from_str::<u8>("{").unwrap_err()
}

#[test]
fn an_answer_that_cannot_be_handed_over_is_unresolved() {
    let settle = |result: Result<Vec<u8>, DispatchFailure>, reply: Option<EffectReply>, at: i32| {
        let mut state = begun();
        let mut memory = vec![0u8; PAYLOAD_BYTES + 16];
        let admitted = state.effect_request(b"{..}", Ok(request(0))).unwrap();
        let answer =
            state.effect_response(&admitted, result, reply, Some(&mut memory), at, CAPACITY);
        assert!(memory.iter().all(|byte| *byte == 0));
        (answer, violation(state))
    };
    let wrong_project = EffectReply {
        response: TicketResponse {
            ticket_id: "T-1".into(),
            project: "OTHER".into(),
        },
        ..reply(0)
    };
    let no_ticket = EffectReply {
        response: TicketResponse {
            ticket_id: String::new(),
            project: "DEMO".into(),
        },
        ..reply(0)
    };
    for (result, reply, at) in [
        (Ok(vec![0; PAYLOAD_BYTES + 1]), Some(reply(0)), 16),
        (Ok(b"reply".to_vec()), None, 16),
        (Ok(b"reply".to_vec()), Some(reply(1)), 16),
        (Ok(b"reply".to_vec()), Some(wrong_project), 16),
        (Ok(b"reply".to_vec()), Some(no_ticket), 16),
        (Ok(b"reply".to_vec()), Some(reply(0)), 17),
        (Err(DispatchFailure::Unresolved), None, 16),
    ] {
        assert_eq!(
            settle(result, reply, at),
            (Err(Trap), AbiCode::Unresolved)
        );
    }
    for failure in [
        DispatchFailure::Policy,
        DispatchFailure::ReplayDivergence,
        DispatchFailure::Unavailable,
    ] {
        let code = failure.code();
        assert_eq!(settle(Err(failure), None, 16), (Ok(code.number()), code));
        assert_eq!(dispatch_code(failure), code.number());
    }
    assert!(valid_reply(&request(0), &reply(0)));
}

#[test]
fn a_violation_outweighs_what_the_guest_returned() {
    let mut state = guest(b"");
    assert_eq!(state.log(None, 0, 0), -1);
    assert!(matches!(
        state.outcome(Err(RuntimeError::ConcurrentRun)),
        Err(AbiError::Violation(AbiCode::InvalidMemory))
    ));
    assert!(matches!(
        guest(b"").outcome(Err(RuntimeError::ConcurrentRun)),
        Err(AbiError::Runtime(RuntimeError::ConcurrentRun))
    ));
    assert_eq!(guest(b"").outcome(Ok(3)).unwrap().return_code, 3);
    let numbers: Vec<i32> = [
        AbiCode::InvalidMemory,
        AbiCode::Size,
        AbiCode::Policy,
        AbiCode::Unresolved,
        AbiCode::ReplayDivergence,
        AbiCode::InvalidState,
        AbiCode::Unavailable,
    ]
    .iter()
    .map(|code| code.number())
    .collect();
    assert_eq!(numbers, vec![-1, -2, -3, -4, -5, -6, -7]);
}

#[test]
fn frames_are_written_and_read_back() {
    let framed = write_frame(b"{\"a\":1}", 16).unwrap();
    assert_eq!(framed, b"\0\0\0\x07{\"a\":1}");
    let header = [framed[0], framed[1], framed[2], framed[3]];
    assert_eq!(frame_length(header, 16).unwrap(), 7);
    assert_eq!(frame_length(header, 7).unwrap(), 7);
    assert!(matches!(
        frame_length(header, 6),
        Err(ProtocolError::FrameSize)
    ));
    assert!(matches!(
        frame_length([0, 0, 0, 0], 16),
        Err(ProtocolError::FrameSize)
    ));
    assert_eq!(frame_length([1, 2, 3, 4], usize::MAX).unwrap(), 0x0102_0304);
    assert!(matches!(
        write_frame(b"", 16),
        Err(ProtocolError::FrameSize)
    ));
    assert!(matches!(
        write_frame(&[0; 17], 16),
        Err(ProtocolError::FrameSize)
    ));
}

#[test]
fn base64_is_canonical_or_refused() {
    assert_eq!(canonical_base64("aGVsbG8=", 5).unwrap(), b"hello");
    assert!(matches!(
        canonical_base64("aGVsbG9h", 5),
        Err(ProtocolError::Message)
    ));
    assert!(matches!(
        canonical_base64("aGVsbG9hYWE=", 5),
        Err(ProtocolError::FrameSize)
    ));
    for bad in ["aGVsbG8", "aGVsbG9=", "????"] {
        assert!(matches!(
            canonical_base64(bad, 5),
            Err(ProtocolError::Message)
        ));
    }
}

#[test]
fn start_frames_carry_module_and_input() {
    let start = StartFrame::new(b"module", b"input", Limits::default()).unwrap();
    assert_eq!(start.version, 1);
    assert_eq!(start.kind, "start");
    assert_eq!(start.module_b64, "bW9kdWxl");
    assert!(start.check().is_ok());
    let start = read_start(Ok(start)).unwrap();
    let (module, input) = start_payload(&start).unwrap();
    assert_eq!((module.as_slice(), input.as_slice()), (b"module".as_slice(), b"input".as_slice()));
    assert!(matches!(
        StartFrame::new(b"", &[0; PAYLOAD_BYTES + 1], Limits::default()),
        Err(ProtocolError::Message)
    ));
    assert!(matches!(
        StartFrame::new(b"", &[0; PAYLOAD_BYTES + 8], Limits::default()),
        Err(ProtocolError::FrameSize)
    ));
    for change in [
        |start: &mut StartFrame| start.version = 2,
        |start: &mut StartFrame| start.kind = "begin".into(),
        |start: &mut StartFrame| start.module_b64 = "bW9kdWx".into(),
        |start: &mut StartFrame| start.input_b64 = "a".into(),
    ] {
        let mut start = StartFrame::new(b"module", b"input", Limits::default()).unwrap();
        change(&mut start);
        assert!(matches!(
            read_start(Ok(start)),
            Err(ProtocolError::Message)
        ));
    }
    assert!(matches!(
        read_start(Err(ProtocolError::Sequence)),
        Err(ProtocolError::Sequence)
    ));
}

#[test]
fn child_frames_are_told_apart_by_their_type() {
    assert_eq!(
        child_kind(br#"{"type":"effect_request"}"#).unwrap(),
        ChildKind::EffectRequest
    );
    assert_eq!(child_kind(br#"{"type":"log"}"#).unwrap(), ChildKind::Other);
    assert!(matches!(
        child_kind(br#"{"type":7}"#),
        Err(ProtocolError::Message)
    ));
    assert!(matches!(child_kind(b"[]"), Err(ProtocolError::Message)));
    assert!(matches!(child_kind(b"{"), Err(ProtocolError::Json(_))));
    assert!(matches!(kind_of(None), Err(ProtocolError::Message)));
}

fn raw() -> RawEffectRequestFrame {
    RawEffectRequestFrame {
        version: 1,
        kind: "effect_request".into(),
        message_id: 7,
        request: "{}".into(),
        decoded: Ok(request(0)),
    }
}

#[test]
fn effect_requests_of_a_runner_are_parsed_strictly() {
    assert!(matches!(
        read_child(DecodedChild::EffectRequest(Ok(raw()))),
        Ok(ChildFrame::EffectRequest { message_id: 7, .. })
    ));
    for change in [
        |raw: &mut RawEffectRequestFrame| raw.version = 2,
        |raw: &mut RawEffectRequestFrame| raw.kind = "log".into(),
        |raw: &mut RawEffectRequestFrame| raw.request = "x".repeat(EFFECT_REQUEST_BYTES + 1),
        |raw: &mut RawEffectRequestFrame| raw.decoded = Err(decode_error()),
        |raw: &mut RawEffectRequestFrame| raw.decoded = Ok(request(8)),
    ] {
        let mut raw = raw();
        change(&mut raw);
        assert!(matches!(
            read_child(DecodedChild::EffectRequest(Ok(raw))),
            Err(ProtocolError::Message)
        ));
    }
    assert!(matches!(
        read_child(DecodedChild::EffectRequest(Err(decode_error()))),
        Err(ProtocolError::Json(_))
    ));
}

fn log(message: &str) -> ChildFrame {
    ChildFrame::Log {
        version: 1,
        message: message.into(),
    }
}

fn finish(output: Option<&str>, code: Option<&str>) -> ChildFrame {
    ChildFrame::Finish {
        version: 1,
        output_b64: output.map(|text| text.to_string()),
        error_code: code.map(|text| text.to_string()),
    }
}

fn effect(message_id: u64) -> ChildFrame {
    ChildFrame::EffectRequest {
        version: 1,
        message_id,
        request: request(0),
    }
}

#[test]
fn other_child_frames_are_bounded() {
    for good in [
        log("text"),
        finish(Some("aGVsbG8="), None),
        finish(None, Some("RUNTIME_FAILURE")),
        finish(None, None),
    ] {
        assert!(read_child(DecodedChild::Other(Ok(good))).is_ok());
    }
    for bad in [
        log(&"x".repeat(LOG_BYTES + 1)),
        finish(Some("aGVsbG8="), Some("CODE")),
        finish(Some("aGVsbG8"), None),
        finish(None, Some("")),
        finish(None, Some("lower")),
        finish(None, Some(&"C".repeat(65))),
        ChildFrame::Log {
            version: 2,
            message: String::new(),
        },
    ] {
        assert!(matches!(
            read_child(DecodedChild::Other(Ok(bad))),
            Err(ProtocolError::Message)
        ));
    }
    assert!(matches!(
        read_child(DecodedChild::Other(Ok(finish(
            Some(&"A".repeat(90_000)),
            None
        )))),
        Err(ProtocolError::FrameSize)
    ));
    assert!(matches!(
        read_child(DecodedChild::Other(Err(decode_error()))),
        Err(ProtocolError::Json(_))
    ));
    assert!(MESSAGE_FRAME_BYTES > 90_000);
}

fn response(message_id: u64, response: EffectResponse) -> EffectResponseFrame {
    EffectResponseFrame {
        version: 1,
        kind: "effect_response".into(),
        message_id,
        response,
    }
}

#[test]
fn responses_carry_codes_that_a_guest_may_see() {
    for code in -7..=-3 {
        assert!(response(1, EffectResponse::Failed { code }).check().is_ok());
    }
    for code in [-8, -2, 0, 1] {
        assert!(matches!(
            response(1, EffectResponse::Failed { code }).check(),
            Err(ProtocolError::Message)
        ));
    }
    let mut wrong = response(1, EffectResponse::Committed { reply: reply(0) });
    assert!(wrong.check().is_ok());
    wrong.kind = "response".into();
    assert!(wrong.check().is_err());
}

#[test]
fn effects_are_answered_in_turn() {
    let mut sequence = ParentSequence::new();
    assert!(sequence.observe(&log("first")).is_ok());
    assert!(matches!(
        sequence.observe(&effect(2)),
        Err(ProtocolError::Sequence)
    ));
    assert!(sequence.observe(&effect(1)).is_ok());
    assert_eq!(sequence.pending_id(), Some(1));
    for frame in [effect(2), log("x"), finish(None, None)] {
        assert!(matches!(
            sequence.observe(&frame),
            Err(ProtocolError::Sequence)
        ));
    }
    assert!(matches!(
        sequence.respond(&response(2, EffectResponse::Failed { code: -3 })),
        Err(ProtocolError::Sequence)
    ));
    assert!(matches!(
        sequence.respond(&response(1, EffectResponse::Failed { code: 0 })),
        Err(ProtocolError::Message)
    ));
    assert!(sequence
        .respond(&response(1, EffectResponse::Failed { code: -3 }))
        .is_ok());
    assert!(matches!(
        sequence.respond(&response(1, EffectResponse::Failed { code: -3 })),
        Err(ProtocolError::Sequence)
    ));
    assert!(sequence.observe(&effect(2)).is_ok());
}

#[test]
fn a_runner_is_heard_a_bounded_number_of_times() {
    let mut sequence = ParentSequence::default();
    for _ in 0..128 {
        assert!(sequence.observe(&log("")).is_ok());
    }
    assert!(sequence.observe(&log("")).is_err());
    let mut sequence = ParentSequence::with_log_cap(4).unwrap();
    assert!(sequence.observe(&log("1234")).is_ok());
    assert!(sequence.observe(&log("5")).is_err());
    assert!(sequence.observe(&finish(None, None)).is_ok());
    assert!(sequence.observe(&finish(None, None)).is_err());
    assert!(ParentSequence::with_log_cap(0).is_err());
    assert!(ParentSequence::with_log_cap(LOG_BYTES + 1).is_err());
}

fn supervisor() -> Supervisor {
    Supervisor::new("linux", "x86_64", Limits::default(), true).unwrap()
}

fn supervision() -> Supervision {
    supervisor()
        .run(b"module", b"input", Limits::default())
        .unwrap()
        .1
}

#[test]
fn supervisors_are_set_up_on_supported_hosts_alone() {
    let caps = Limits::default();
    assert_eq!(supervisor().operator_caps(), caps);
    assert_eq!(supervisor().abi_caps().host_calls, MAX_HOST_CALLS);
    assert!(matches!(
        Supervisor::new("windows", "x86_64", caps, true),
        Err(SupervisorError::UnsupportedHost(_))
    ));
    assert!(matches!(
        Supervisor::new("linux", "x86_64", Limits { fuel: 0, ..caps }, true),
        Err(SupervisorError::UnsupportedHost(_))
    ));
    assert!(matches!(
        Supervisor::new("linux", "x86_64", caps, false),
        Err(SupervisorError::RunnerPath)
    ));
    let bad = AbiCaps {
        host_calls: 0,
        log_bytes: 1,
    };
    assert!(matches!(
        Supervisor::new_with_abi_caps("linux", "x86_64", caps, bad, true),
        Err(SupervisorError::InvalidAbiCaps)
    ));
    assert!(matches!(
        supervisor().run(b"", b"", Limits { fuel: 0, ..caps }),
        Err(SupervisorError::UnsupportedHost(_))
    ));
    assert!(matches!(
        supervisor().run(b"", &[0; PAYLOAD_BYTES + 1], caps),
        Err(SupervisorError::Protocol(ProtocolError::Message))
    ));
    let endless = Limits {
        wall_ms: u64::MAX,
        ..caps
    };
    let patient = Supervisor::new("linux", "aarch64", endless, true).unwrap();
    assert!(matches!(
        patient.run(b"", b"", endless),
        Err(SupervisorError::Clock)
    ));
}

#[test]
fn lease_and_clock_stop_a_runner() {
    let running = supervision();
    assert!(running.tick(LeaseState::Current, 2_499).is_ok());
    assert!(matches!(
        running.tick(LeaseState::Current, 2_500),
        Err(SupervisorError::Deadline)
    ));
    assert!(matches!(
        running.tick(LeaseState::Cancelled, 2_500),
        Err(SupervisorError::Cancelled)
    ));
    assert!(matches!(
        running.tick(LeaseState::Lost, 0),
        Err(SupervisorError::LeaseLost)
    ));
    assert_eq!(running.wait_ms(0), LEASE_POLL_MS);
    assert_eq!(running.wait_ms(2_490), 10);
    assert_eq!(running.wait_ms(2_501), 0);
}

const SUCCESS: Exit = Exit {
    success: true,
    code: Some(0),
};

#[test]
fn a_supervised_run_dispatches_and_concludes() {
    let mut running = supervision();
    assert!(matches!(
        running.received(RunnerEvent::Timeout),
        Ok(Step::Continue)
    ));
    assert!(matches!(
        running.received(RunnerEvent::Frame(log("one"))),
        Ok(Step::Continue)
    ));
    assert!(
        matches!(running.received(RunnerEvent::Frame(effect(1))), Ok(Step::Dispatch(handed)) if handed.ordinal == 0)
    );
    assert!(running.is_dispatching());
    assert!(matches!(running.dispatched(DispatchPoll::Empty), Ok(None)));
    let answer = running
        .dispatched(DispatchPoll::Done(Ok(reply(0))))
        .unwrap()
        .unwrap();
    assert_eq!(answer.message_id, 1);
    assert!(matches!(answer.response, EffectResponse::Committed { .. }));
    assert!(!running.is_dispatching());
    assert!(matches!(
        running.received(RunnerEvent::Frame(finish(Some("aGVsbG8="), None))),
        Ok(Step::AwaitExit)
    ));
    let outcome = running.exited(SUCCESS).unwrap();
    assert_eq!(outcome.output, Some(b"hello".to_vec()));
    assert_eq!(outcome.logs, vec!["one".to_string()]);
}

#[test]
fn broker_answers_are_checked() {
    let dispatching = || {
        let mut running = supervision();
        running.received(RunnerEvent::Frame(effect(1))).unwrap();
        running
    };
    assert!(matches!(
        dispatching().dispatched(DispatchPoll::Done(Ok(reply(1)))),
        Err(SupervisorError::BrokerResponse)
    ));
    assert!(matches!(
        dispatching().dispatched(DispatchPoll::Disconnected),
        Err(SupervisorError::BrokerResponse)
    ));
    assert!(matches!(
        dispatching().dispatched(DispatchPoll::Done(Err(BrokerError::Cancelled))),
        Err(SupervisorError::Cancelled)
    ));
    assert!(matches!(
        dispatching().dispatched(DispatchPoll::Done(Err(BrokerError::LeaseLost))),
        Err(SupervisorError::LeaseLost)
    ));
    let answer = dispatching()
        .dispatched(DispatchPoll::Done(Err(BrokerError::Effect(
            DispatchFailure::ReplayDivergence,
        ))))
        .unwrap()
        .unwrap();
    assert!(matches!(
        answer.response,
        EffectResponse::Failed { code: -5 }
    ));
    assert!(answer.check().is_ok());
}

#[test]
fn there_is_an_outcome_only_upon_a_clean_end() {
    assert!(matches!(
        supervision().received(RunnerEvent::Closed),
        Ok(Step::AwaitExit)
    ));
    assert!(matches!(
        supervision().exited(SUCCESS),
        Err(SupervisorError::ChildExit(Some(0)))
    ));
    let ended = |frame: ChildFrame| {
        let mut running = supervision();
        running.received(RunnerEvent::Frame(frame)).unwrap();
        running
    };
    assert!(matches!(
        ended(finish(None, None)).exited(Exit {
            success: false,
            code: None
        }),
        Err(SupervisorError::ChildExit(None))
    ));
    assert!(
        matches!(ended(finish(None, Some("POLICY"))).exited(SUCCESS), Err(SupervisorError::RunnerFailure(code)) if code == "POLICY")
    );
    assert!(matches!(
        ended(finish(Some("?"), None)).exited(SUCCESS),
        Err(SupervisorError::Protocol(ProtocolError::Message))
    ));
    assert!(matches!(
        ended(finish(None, None)).received(RunnerEvent::Frame(log("late"))),
        Err(SupervisorError::Protocol(ProtocolError::Sequence))
    ));
    assert!(matches!(
        supervision().received(RunnerEvent::Failed(ProtocolError::FrameSize)),
        Err(SupervisorError::Protocol(ProtocolError::FrameSize))
    ));
}

fn arguments(texts: &[&str]) -> Vec<Option<String>> {
    texts.iter().map(|text| Some(text.to_string())).collect()
}

const GOOD: [&str; 7] = [
    "runner",
    "--operator-caps-json",
    "{}",
    "--host-calls",
    "+64",
    "--log-bytes",
    "0016384",
];

#[test]
fn runner_arguments_are_taken_strictly() {
    let caps = Limits::default();
    let (limits, abi) = parse_operator_caps(&arguments(&GOOD), Some(caps)).unwrap();
    assert_eq!(limits, caps);
    assert_eq!(
        abi,
        AbiCaps {
            host_calls: 64,
            log_bytes: 16_384
        }
    );
    let refused = |texts: &[&str], decoded: Option<Limits>| {
        matches!(
            parse_operator_caps(&arguments(texts), decoded),
            Err(RunnerError::Arguments)
        )
    };
    assert!(refused(&GOOD[0..6], Some(caps)));
    assert!(refused(&GOOD, None));
    assert!(refused(&GOOD, Some(Limits { fuel: 0, ..caps })));
    for (place, text) in [
        (1, "--caps"),
        (3, "--calls"),
        (4, ""),
        (4, "+"),
        (4, "-1"),
        (4, "4294967296"),
        (4, "65"),
        (5, "--log"),
        (6, "0"),
        (6, "1x"),
        (6, "99999999999999999999999999"),
    ] {
        let mut changed = GOOD;
        changed[place] = text;
        assert!(refused(&changed, Some(caps)), "accepted {text}");
    }
    let mut unreadable = arguments(&GOOD);
    unreadable[2] = None;
    assert!(parse_operator_caps(&unreadable, Some(caps)).is_err());
}

#[test]
fn runners_inherit_nothing() {
    assert!(matches!(beyond_standard(Some("2")), Ok(false)));
    assert!(matches!(beyond_standard(Some("3")), Ok(true)));
    assert!(matches!(
        beyond_standard(Some("x")),
        Err(RunnerError::Descriptor)
    ));
    assert!(matches!(
        beyond_standard(None),
        Err(RunnerError::Descriptor)
    ));
    assert!(admit_descriptor(true, Some("fd")).is_ok());
    assert!(admit_descriptor(false, Some("fd")).is_err());
    assert!(admit_descriptor(true, Some("socket")).is_err());
    assert!(admit_descriptor(true, None).is_err());
    assert!(admit_environment(true).is_ok());
    assert!(matches!(
        admit_environment(false),
        Err(RunnerError::Environment)
    ));
}

#[test]
fn runner_frames_are_admitted_by_the_supervisor() {
    let mut state = guest(b"");
    assert_eq!(state.log(Some(b"line"), 0, 4), 4);
    assert_eq!(state.output_write(Some(b"hello"), 0, 5), 5);
    let frames = success_frames(outcome(state).unwrap());
    assert_eq!(frames.len(), 2);
    let mut running = supervision();
    for frame in frames {
        let admitted = read_child(DecodedChild::Other(Ok(frame))).unwrap();
        running.received(RunnerEvent::Frame(admitted)).unwrap();
    }
    let outcome = running.exited(SUCCESS).unwrap();
    assert_eq!(outcome.output, Some(b"hello".to_vec()));
    assert_eq!(outcome.logs, vec!["line".to_string()]);
    let errors = [
        (AbiError::InputSize, "INPUT_SIZE"),
        (AbiError::InvalidCaps, "INVALID_CAPS"),
        (
            AbiError::Violation(AbiCode::InvalidMemory),
            "INVALID_MEMORY",
        ),
        (AbiError::Violation(AbiCode::Size), "SIZE"),
        (AbiError::Violation(AbiCode::Policy), "POLICY"),
        (AbiError::Violation(AbiCode::Unresolved), "UNRESOLVED"),
        (
            AbiError::Violation(AbiCode::ReplayDivergence),
            "REPLAY_DIVERGED",
        ),
        (AbiError::Violation(AbiCode::InvalidState), "INVALID_STATE"),
        (AbiError::Violation(AbiCode::Unavailable), "UNAVAILABLE"),
        (
            AbiError::Runtime(RuntimeError::ConcurrentRun),
            "RUNTIME_FAILURE",
        ),
        (AbiError::StatePoisoned, "STATE_POISONED"),
    ];
    for (error, code) in errors {
        assert_eq!(abi_error_code(&error), code);
        assert!(read_child(DecodedChild::Other(Ok(failure_frame(&error)))).is_ok());
    }
}

#[test]
fn worker_events_become_frames() {
    let (frames, done) = worker_frames(WorkerEvent::Frame(effect(1)));
    assert!(matches!(
        frames.as_slice(),
        [ChildFrame::EffectRequest { message_id: 1, .. }]
    ));
    assert!(!done);
    let mut state = guest(b"");
    assert_eq!(state.log(Some(b"line"), 0, 4), 4);
    let (frames, done) = worker_frames(WorkerEvent::Finished(outcome(state)));
    assert_eq!(frames.len(), 2);
    assert!(done);
    let (frames, done) = worker_frames(WorkerEvent::Finished(Err(AbiError::InputSize)));
    assert!(
        matches!(frames.as_slice(), [ChildFrame::Finish { output_b64: None, error_code: Some(code), .. }] if code == "INPUT_SIZE")
    );
    assert!(done);
}

#[test]
fn runner_effects_match_the_supervisors_count() {
    let mut dispatcher = IpcDispatcher::new();
    let mut sequence = ParentSequence::new();
    for expected in 1..4u64 {
        let (id, frame) = dispatcher.request(request(0)).unwrap();
        assert_eq!(id, expected);
        assert!(sequence.observe(&frame).is_ok());
        let answer = response(id, EffectResponse::Failed { code: -3 });
        assert!(sequence.respond(&answer).is_ok());
        assert!(matches!(
            effect_answer(id, answer),
            Err(DispatchFailure::Policy)
        ));
    }
    for failure in [
        DispatchFailure::Policy,
        DispatchFailure::Unresolved,
        DispatchFailure::ReplayDivergence,
        DispatchFailure::Unavailable,
    ] {
        let answer = response(
            1,
            EffectResponse::Failed {
                code: dispatch_code(failure),
            },
        );
        assert_eq!(effect_answer(1, answer).unwrap_err(), failure);
    }
    let other = response(2, EffectResponse::Committed { reply: reply(0) });
    assert_eq!(
        effect_answer(1, other).unwrap_err(),
        DispatchFailure::Unavailable
    );
    let own = response(1, EffectResponse::Committed { reply: reply(0) });
    assert_eq!(effect_answer(1, own).unwrap().response.ticket_id, "T-1");
}
