//! The runner: its arguments, its inheritance, and the frames it sends.
use vstd::prelude::*;

use crate::domain::limits::{Limits, PAYLOAD_BYTES};
use crate::domain::types::EffectRequest;
use crate::encoding;
use crate::names;
use crate::runtime::abi;
use crate::runtime::abi::{AbiCaps, AbiCode, AbiError, AbiOutcome, DispatchFailure, EffectReply};
use crate::runtime::ipc;
use crate::runtime::ipc::{
    ChildFrame, EffectResponse, EffectResponseFrame, ProtocolError, StartFrame,
    PROTOCOL_VERSION,
};
use crate::runtime::supervisor::SupervisionView;
use crate::text;

verus! {

/// How a runner exits once its supervisor is gone.
pub const PARENT_GONE_EXIT: i32 = 70;

#[derive(Debug)]
pub enum RunnerError {
    Arguments,
    /// The runner inherited an environment entry.
    Environment,
    /// The runner inherited a descriptor that the protocol does not use.
    Descriptor,
    Io(std::io::Error),
    Protocol(ProtocolError),
}

/// The value of a decimal digit.
pub open spec fn is_digit(b: u8) -> bool {
    0x30 <= b <= 0x39
}

/// The number that decimal digits stand for.
pub open spec fn decimal(digits: Seq<u8>) -> nat
    decreases digits.len(),
{
    if digits.len() == 0 {
        0
    } else {
        10 * decimal(digits.drop_last()) + (digits.last() - 0x30) as nat
    }
}

/// The digits of a number's text: all of it, but for one plus sign in front.
pub open spec fn digits_of(text: Seq<u8>) -> Seq<u8> {
    if text.len() > 0 && text[0] == 0x2b {
        text.skip(1)
    } else {
        text
    }
}

/// The text of an unsigned number no greater than the maximum, as it may be
/// given on a command line: decimal digits, after one optional plus sign.
pub open spec fn is_number(text: Seq<u8>, maximum: nat) -> bool {
    let digits = digits_of(text);
    &&& digits.len() > 0
    &&& forall|i: int| 0 <= i < digits.len() ==> is_digit(#[trigger] digits[i])
    &&& decimal(digits) <= maximum
}

/// More digits make no smaller number.
proof fn decimal_grows(digits: Seq<u8>, n: int)
    requires
        0 <= n <= digits.len(),
        forall|i: int| 0 <= i < digits.len() ==> is_digit(#[trigger] digits[i]),
    ensures
        decimal(digits.take(n)) <= decimal(digits),
    decreases digits.len() - n,
{
    if n < digits.len() {
        assert(digits.take(n + 1).drop_last() =~= digits.take(n));
        decimal_grows(digits, n + 1);
    } else {
        assert(digits.take(n) =~= digits);
    }
}

/// The number that a command-line text gives.
fn parse_number(text: &str, maximum: u64) -> (r: Option<u64>)
    ensures
        r is Some <==> is_number(text::utf8(text@), maximum as nat),
        r matches Some(value) ==> value == decimal(digits_of(text::utf8(text@))),
{
    let bytes = text.as_bytes();
    let mut i: usize = 0;
    if bytes.len() > 0 && bytes[0] == 0x2b {
        i = 1;
    }
    let first: usize = i;
    let ghost digits = digits_of(bytes@);
    if i >= bytes.len() {
        return None;
    }
    let mut value: u128 = 0;
    assert(digits.take(0) =~= Seq::<u8>::empty());
    while i < bytes.len()
        invariant
            first <= i <= bytes.len(),
            digits == bytes@.skip(first as int),
            digits == digits_of(text::utf8(text@)),
            value == decimal(digits.take(i - first)),
            value <= maximum,
            forall|k: int| 0 <= k < i - first ==> is_digit(#[trigger] digits[k]),
        decreases bytes.len() - i,
    {
        let b: u8 = bytes[i];
        assert(digits[i - first] == b);
        if b < 0x30 || b > 0x39 {
            return None;
        }
        assert(digits.take(i - first + 1).drop_last() =~= digits.take(i - first));
        value = value * 10 + (b - 0x30) as u128;
        if value > maximum as u128 {
            proof {
                if forall|k: int| 0 <= k < digits.len() ==> is_digit(#[trigger] digits[k]) {
                    decimal_grows(digits, i - first + 1);
                }
            }
            return None;
        }
        i = i + 1;
    }
    assert(digits.take(i - first) =~= digits);
    Some(value as u64)
}

/// Whether an argument, where it is text at all, is the one expected.
fn is_flag(argument: &Option<String>, expected: &str) -> (r: bool)
    ensures
        r == (ipc::optional_text(*argument) == Some(expected@)),
{
    match argument {
        Some(argument) => text::text_equal(argument.as_str(), expected),
        None => false,
    }
}

/// The arguments of a runner, its own name first; `None` for one that is not text.
pub open spec fn are_arguments(arguments: Seq<Option<String>>) -> bool {
    &&& arguments.len() == 7
    &&& ipc::optional_text(arguments[1]) == Some("--operator-caps-json"@)
    &&& arguments[2] is Some
    &&& ipc::optional_text(arguments[3]) == Some("--host-calls"@)
    &&& arguments[4] matches Some(text) && is_number(text::utf8(text@), u32::MAX as nat)
    &&& ipc::optional_text(arguments[5]) == Some("--log-bytes"@)
    &&& arguments[6] matches Some(text) && is_number(text::utf8(text@), usize::MAX as nat)
}

/// The caps for the guest that the arguments give.
pub open spec fn abi_caps_of(arguments: Seq<Option<String>>) -> AbiCaps {
    AbiCaps {
        host_calls: decimal(digits_of(text::utf8(arguments[4]->0@))) as u32,
        log_bytes: decimal(digits_of(text::utf8(arguments[6]->0@))) as usize,
    }
}

/// The caps that a runner was started with. `decoded` is what the text behind
/// `--operator-caps-json` was decoded to, where it was.
pub fn parse_operator_caps(arguments: &[Option<String>], decoded: Option<Limits>) -> (r: Result<
    (Limits, AbiCaps),
    RunnerError,
>)
    ensures
        match r {
            Ok((caps, abi_caps)) => {
                &&& are_arguments(arguments@)
                &&& decoded == Some(caps)
                &&& caps.first_violation(caps) is None
                &&& abi_caps == abi_caps_of(arguments@)
                &&& abi_caps.is_valid()
            },
            Err(error) => {
                &&& error is Arguments
                &&& {
                    ||| !are_arguments(arguments@)
                    ||| decoded is None
                    ||| decoded->0.first_violation(decoded->0) is Some
                    ||| !abi_caps_of(arguments@).is_valid()
                }
            },
        },
{
    if arguments.len() != 7 || !is_flag(&arguments[1], "--operator-caps-json")
        || arguments[2].is_none() || !is_flag(&arguments[3], "--host-calls") || !is_flag(
        &arguments[5],
        "--log-bytes",
    ) {
        return Err(RunnerError::Arguments);
    }
    let host_calls: u32 = match &arguments[4] {
        Some(text) => match parse_number(text.as_str(), u32::MAX as u64) {
            Some(value) => value as u32,
            None => return Err(RunnerError::Arguments),
        },
        None => return Err(RunnerError::Arguments),
    };
    let log_bytes: usize = match &arguments[6] {
        Some(text) => match parse_number(text.as_str(), usize::MAX as u64) {
            Some(value) => value as usize,
            None => return Err(RunnerError::Arguments),
        },
        None => return Err(RunnerError::Arguments),
    };
    let caps = match decoded {
        Some(caps) => caps,
        None => return Err(RunnerError::Arguments),
    };
    let caps = match caps.validate(caps) {
        Ok(caps) => caps,
        Err(_) => return Err(RunnerError::Arguments),
    };
    match (AbiCaps { host_calls, log_bytes }).validate() {
        Ok(abi_caps) => Ok((caps, abi_caps)),
        Err(_) => Err(RunnerError::Arguments),
    }
}

/// Whether a descriptor, by its entry's name, is beyond the standard three.
pub fn beyond_standard(name: Option<&str>) -> (r: Result<bool, RunnerError>)
    ensures
        match r {
            Ok(beyond) => {
                &&& name is Some
                &&& is_number(text::utf8(name->0@), u32::MAX as nat)
                &&& beyond == (decimal(digits_of(text::utf8(name->0@))) > 2)
            },
            Err(error) => {
                &&& error is Descriptor
                &&& name is None || !is_number(text::utf8(name->0@), u32::MAX as nat)
            },
        },
{
    match name {
        Some(name) => match parse_number(name, u32::MAX as u64) {
            Some(number) => Ok(number > 2),
            None => Err(RunnerError::Descriptor),
        },
        None => Err(RunnerError::Descriptor),
    }
}

/// Admit a descriptor beyond the standard three only where it is the one that
/// lists the descriptors: its target lies under `/proc` and is named `fd`.
pub fn admit_descriptor(under_proc: bool, file_name: Option<&str>) -> (r: Result<(), RunnerError>)
    ensures
        match r {
            Ok(()) => under_proc && file_name is Some && file_name->0@ == "fd"@,
            Err(error) => error is Descriptor && !(under_proc && file_name is Some
                && file_name->0@ == "fd"@),
        },
{
    let named_fd = match file_name {
        Some(name) => text::text_equal(name, "fd"),
        None => false,
    };
    if under_proc && named_fd {
        Ok(())
    } else {
        Err(RunnerError::Descriptor)
    }
}

/// Judge what the runner inherited: the environment must be empty.
pub fn admit_environment(is_empty: bool) -> (r: Result<(), RunnerError>)
    ensures
        match r {
            Ok(()) => is_empty,
            Err(error) => error is Environment && !is_empty,
        },
{
    if is_empty {
        Ok(())
    } else {
        Err(RunnerError::Environment)
    }
}

/// The module and the input of an admitted start frame. What was sent as the
/// base64 text of bytes is those bytes.
pub fn start_payload(start: &StartFrame) -> (r: Result<(Vec<u8>, Vec<u8>), RunnerError>)
    ensures
        match r {
            Ok((module, input)) => {
                &&& encoding::base64_bytes(start.module_b64@) == Some(module@)
                &&& encoding::base64_bytes(start.input_b64@) == Some(input@)
            },
            Err(error) => {
                &&& error == RunnerError::Protocol(ProtocolError::Message)
                &&& encoding::base64_bytes(start.module_b64@) is None || encoding::base64_bytes(
                    start.input_b64@,
                ) is None
            },
        },
        forall|module: Seq<u8>, input: Seq<u8>|
            start.module_b64@ == #[trigger] encoding::base64_text(module) && start.input_b64@
                == #[trigger] encoding::base64_text(input) ==> r is Ok && r->Ok_0.0@ == module
                && r->Ok_0.1@ == input,
{
    match encoding::decode_base64(start.module_b64.as_str()) {
        Some(module) => match encoding::decode_base64(start.input_b64.as_str()) {
            Some(input) => Ok((module, input)),
            None => Err(RunnerError::Protocol(ProtocolError::Message)),
        },
        None => Err(RunnerError::Protocol(ProtocolError::Message)),
    }
}

/// The code under which a failed invocation is reported.
pub open spec fn error_code_of(error: AbiError) -> Seq<char> {
    match error {
        AbiError::InputSize => "INPUT_SIZE"@,
        AbiError::InvalidCaps => "INVALID_CAPS"@,
        AbiError::Violation(code) => match code {
            AbiCode::InvalidMemory => "INVALID_MEMORY"@,
            AbiCode::Size => "SIZE"@,
            AbiCode::Policy => "POLICY"@,
            AbiCode::Unresolved => "UNRESOLVED"@,
            AbiCode::ReplayDivergence => "REPLAY_DIVERGED"@,
            AbiCode::InvalidState => "INVALID_STATE"@,
            AbiCode::Unavailable => "UNAVAILABLE"@,
        },
        AbiError::Runtime(_) => "RUNTIME_FAILURE"@,
        AbiError::StatePoisoned => "STATE_POISONED"@,
    }
}

/// The code under which a failed invocation is reported.
pub fn abi_error_code(error: &AbiError) -> (r: &'static str)
    ensures
        r@ == error_code_of(*error),
{
    match error {
        AbiError::InputSize => "INPUT_SIZE",
        AbiError::InvalidCaps => "INVALID_CAPS",
        AbiError::Violation(code) => match code {
            AbiCode::InvalidMemory => "INVALID_MEMORY",
            AbiCode::Size => "SIZE",
            AbiCode::Policy => "POLICY",
            AbiCode::Unresolved => "UNRESOLVED",
            AbiCode::ReplayDivergence => "REPLAY_DIVERGED",
            AbiCode::InvalidState => "INVALID_STATE",
            AbiCode::Unavailable => "UNAVAILABLE",
        },
        AbiError::Runtime(_) => "RUNTIME_FAILURE",
        AbiError::StatePoisoned => "STATE_POISONED",
    }
}

/// A short ASCII text of capitals and underscores is an error code.
proof fn capitals_are_a_code(value: Seq<char>)
    requires
        1 <= value.len() <= 64,
        forall|i: int| 0 <= i < value.len() ==> 'A' <= #[trigger] value[i] <= 'Z' || value[i] == '_',
    ensures
        text::is_error_code(value),
{
    vstd::utf8::is_ascii_chars_encode_utf8(value);
}

/// Every reported code is one that the supervisor accepts.
pub proof fn reported_codes_are_error_codes(error: AbiError)
    ensures
        text::is_error_code(error_code_of(error)),
{
    reveal_strlit("INPUT_SIZE");
    reveal_strlit("INVALID_CAPS");
    reveal_strlit("INVALID_MEMORY");
    reveal_strlit("SIZE");
    reveal_strlit("POLICY");
    reveal_strlit("UNRESOLVED");
    reveal_strlit("REPLAY_DIVERGED");
    reveal_strlit("INVALID_STATE");
    reveal_strlit("UNAVAILABLE");
    reveal_strlit("RUNTIME_FAILURE");
    reveal_strlit("STATE_POISONED");
    capitals_are_a_code(error_code_of(error));
}

/// The frame ends a failed invocation: the supervisor admits it, and learns the
/// code of the error.
pub open spec fn is_failure(frame: ChildFrame, error: AbiError) -> bool {
    &&& frame.fault() is None
    &&& frame matches ChildFrame::Finish { version, output_b64, error_code } && {
        &&& version == PROTOCOL_VERSION
        &&& output_b64 is None
        &&& ipc::optional_text(error_code) == Some(error_code_of(error))
    }
}

/// The frame in which a failed invocation ends.
pub fn failure_frame(error: &AbiError) -> (r: ChildFrame)
    ensures
        is_failure(r, *error),
{
    proof {
        reported_codes_are_error_codes(*error);
    }
    ChildFrame::Finish {
        version: PROTOCOL_VERSION,
        output_b64: None,
        error_code: Some(text::copy_text(abi_error_code(error))),
    }
}

/// The last frame of a successful invocation carries the output: the
/// supervisor admits it, and decodes it to the output.
pub open spec fn carries(frame: ChildFrame, output: Option<Vec<u8>>) -> bool {
    &&& frame.fault() is None
    &&& frame matches ChildFrame::Finish { version, output_b64, error_code } && {
        &&& version == PROTOCOL_VERSION
        &&& error_code is None
        &&& output_b64 is Some == output is Some
        &&& output_b64 matches Some(text) ==> {
            &&& text@ == encoding::base64_text(output->0@)
            &&& encoding::base64_bytes(text@) == Some(output->0@)
        }
    }
}

/// The frame that carries a log message.
pub open spec fn is_log_of(frame: ChildFrame, message: Seq<char>) -> bool {
    frame matches ChildFrame::Log { version, message: sent } && version == PROTOCOL_VERSION
        && sent@ == message
}

/// The frames are those of a successful invocation: its logs in order, then its
/// output.
pub open spec fn are_frames_of(frames: Seq<ChildFrame>, outcome: AbiOutcome) -> bool {
    &&& frames.len() == outcome.logs@.len() + 1
    &&& forall|i: int|
        0 <= i < outcome.logs@.len() ==> is_log_of(#[trigger] frames[i], outcome.logs@[i]@)
    &&& carries(frames.last(), outcome.output)
}

/// The frames in which a successful invocation ends: its logs in order, then
/// its output.
pub fn success_frames(outcome: AbiOutcome) -> (r: Vec<ChildFrame>)
    requires
        outcome.output matches Some(output) ==> output@.len() <= PAYLOAD_BYTES,
    ensures
        are_frames_of(r@, outcome),
{
    let mut frames: Vec<ChildFrame> = Vec::new();
    let mut i: usize = 0;
    while i < outcome.logs.len()
        invariant
            i <= outcome.logs.len(),
            frames@.len() == i,
            forall|k: int| 0 <= k < i ==> is_log_of(#[trigger] frames@[k], outcome.logs@[k]@),
        decreases outcome.logs.len() - i,
    {
        let message = text::copy_text(outcome.logs[i].as_str());
        frames.push(ChildFrame::Log { version: PROTOCOL_VERSION, message });
        i = i + 1;
    }
    let output_b64 = match &outcome.output {
        Some(output) => Some(encoding::encode_base64(output.as_slice())),
        None => None,
    };
    let finish = ChildFrame::Finish { version: PROTOCOL_VERSION, output_b64, error_code: None };
    assert(carries(finish, outcome.output));
    frames.push(finish);
    frames
}

/// What the guest's worker has to say.
#[derive(Debug)]
pub enum WorkerEvent {
    /// A frame for the supervisor.
    Frame(ChildFrame),
    /// The invocation has ended.
    Finished(Result<AbiOutcome, AbiError>),
}

/// What an event of the worker comes to: the frames to be written, and whether
/// they are the last.
pub fn worker_frames(event: WorkerEvent) -> (r: (Vec<ChildFrame>, bool))
    requires
        event matches WorkerEvent::Finished(Ok(outcome)) ==> (outcome.output matches Some(output)
            ==> output@.len() <= PAYLOAD_BYTES),
    ensures
        match event {
            WorkerEvent::Frame(frame) => r.0@ == seq![frame] && !r.1,
            WorkerEvent::Finished(Ok(outcome)) => are_frames_of(r.0@, outcome) && r.1,
            WorkerEvent::Finished(Err(error)) => {
                &&& r.0@.len() == 1
                &&& is_failure(r.0@[0], error)
                &&& r.1
            },
        },
{
    match event {
        WorkerEvent::Frame(frame) => {
            let mut frames: Vec<ChildFrame> = Vec::new();
            frames.push(frame);
            (frames, false)
        },
        WorkerEvent::Finished(Ok(outcome)) => (success_frames(outcome), true),
        WorkerEvent::Finished(Err(error)) => {
            let mut frames: Vec<ChildFrame> = Vec::new();
            frames.push(failure_frame(&error));
            (frames, true)
        },
    }
}

/// The runner's side of its effects: identifiers count from one.
#[derive(Debug)]
pub struct IpcDispatcher {
    next_id: u64,
}

impl IpcDispatcher {
    /// The identifier of the next effect.
    pub closed spec fn next(self) -> u64 {
        self.next_id
    }

    pub fn new() -> (r: IpcDispatcher)
        ensures
            r.next() == 1,
    {
        IpcDispatcher { next_id: 1 }
    }

    /// The frame that asks for an effect, and its identifier.
    pub fn request(&mut self, request: EffectRequest) -> (r: Result<
        (u64, ChildFrame),
        DispatchFailure,
    >)
        ensures
            match r {
                Ok((message_id, frame)) => {
                    &&& message_id == old(self).next()
                    &&& final(self).next() == old(self).next() + 1
                    &&& frame == ChildFrame::EffectRequest {
                        version: PROTOCOL_VERSION,
                        message_id,
                        request,
                    }
                },
                Err(failure) => {
                    &&& failure == DispatchFailure::Unavailable
                    &&& old(self).next() == u64::MAX
                    &&& final(self).next() == old(self).next()
                },
            },
    {
        let message_id: u64 = self.next_id;
        if message_id == u64::MAX {
            return Err(DispatchFailure::Unavailable);
        }
        self.next_id = message_id + 1;
        Ok(
            (
                message_id,
                ChildFrame::EffectRequest { version: PROTOCOL_VERSION, message_id, request },
            ),
        )
    }
}

/// What an answered number says of a failed effect.
pub open spec fn failure_of(code: i32) -> DispatchFailure {
    if code == -3 {
        DispatchFailure::Policy
    } else if code == -4 {
        DispatchFailure::Unresolved
    } else if code == -5 {
        DispatchFailure::ReplayDivergence
    } else {
        DispatchFailure::Unavailable
    }
}

/// What the answer to an effect says. An answer to another effect is none.
pub fn effect_answer(message_id: u64, response: EffectResponseFrame) -> (r: Result<
    EffectReply,
    DispatchFailure,
>)
    ensures
        r == (if response.message_id != message_id {
            Err::<EffectReply, DispatchFailure>(DispatchFailure::Unavailable)
        } else {
            match response.response {
                EffectResponse::Committed { reply } => Ok(reply),
                EffectResponse::Failed { code } => Err(failure_of(code)),
            }
        }),
{
    if response.message_id != message_id {
        return Err(DispatchFailure::Unavailable);
    }
    match response.response {
        EffectResponse::Committed { reply } => Ok(reply),
        EffectResponse::Failed { code } => if code == -3 {
            Err(DispatchFailure::Policy)
        } else if code == -4 {
            Err(DispatchFailure::Unresolved)
        } else if code == -5 {
            Err(DispatchFailure::ReplayDivergence)
        } else {
            Err(DispatchFailure::Unavailable)
        },
    }
}

/// A failed dispatch reaches the guest as the failure that it was.
pub proof fn failures_survive_the_pipe(failure: DispatchFailure)
    ensures
        failure_of(failure.as_code().as_number()) == failure,
{
}

/// Fewer texts are no longer than more.
proof fn total_bytes_grow(texts: Seq<Seq<char>>, n: int)
    requires
        0 <= n <= texts.len(),
    ensures
        abi::total_bytes(texts.take(n)) <= abi::total_bytes(texts),
    decreases texts.len() - n,
{
    if n < texts.len() {
        assert(texts.take(n + 1).drop_last() =~= texts.take(n));
        total_bytes_grow(texts, n + 1);
    } else {
        assert(texts.take(n) =~= texts);
    }
}

/// After the first logs of an invocation, all is as before but for the logs.
proof fn logs_are_heard(
    before: SupervisionView,
    outcome: AbiOutcome,
    frames: Seq<ChildFrame>,
    n: int,
)
    requires
        before.is_sound(),
        before.pending is None,
        before.finish is None,
        are_frames_of(frames, outcome),
        before.sequence.messages + frames.len() <= ipc::MAX_MESSAGES,
        before.sequence.log_bytes + abi::total_bytes(names::texts(outcome.logs@))
            <= before.sequence.log_cap,
        0 <= n < frames.len(),
    ensures
        ({
            let logs = names::texts(outcome.logs@);
            let after = before.heard_all(frames.take(n));
            &&& after.sequence == (ipc::SequenceView {
                log_bytes: (before.sequence.log_bytes + abi::total_bytes(logs.take(n))) as usize,
                messages: (before.sequence.messages + n) as u32,
                ..before.sequence
            })
            &&& after.logs == before.logs + logs.take(n)
            &&& after.finish is None
            &&& after.sequence.expects(frames[n])
        }),
    decreases n,
{
    let logs = names::texts(outcome.logs@);
    let after = before.heard_all(frames.take(n));
    if n == 0 {
        assert(before.logs + logs.take(0) =~= before.logs);
    } else {
        logs_are_heard(before, outcome, frames, n - 1);
        assert(frames.take(n).drop_last() =~= frames.take(n - 1));
        assert(frames.take(n).last() == frames[n - 1]);
        assert(is_log_of(frames[n - 1], outcome.logs@[n - 1]@));
        assert(logs.take(n).drop_last() =~= logs.take(n - 1));
        assert(logs.take(n).last() == logs[n - 1]);
        total_bytes_grow(logs, n);
        assert(before.logs + logs.take(n) =~= (before.logs + logs.take(n - 1)).push(logs[n - 1]));
    }
    if n < logs.len() {
        assert(is_log_of(frames[n], outcome.logs@[n]@));
        assert(logs.take(n + 1).drop_last() =~= logs.take(n));
        assert(logs.take(n + 1).last() == logs[n]);
        total_bytes_grow(logs, n + 1);
    } else {
        assert(frames[n] == frames.last());
    }
}

/// What a guest left behind reaches the supervisor: of the frames in which a
/// successful invocation ends, each is expected when it comes, and in the end
/// the supervisor has the guest's logs and, in its last word, its output.
pub proof fn outcome_reaches_the_supervisor(
    before: SupervisionView,
    outcome: AbiOutcome,
    frames: Seq<ChildFrame>,
)
    requires
        before.is_sound(),
        before.pending is None,
        before.finish is None,
        are_frames_of(frames, outcome),
        before.sequence.messages + frames.len() <= ipc::MAX_MESSAGES,
        before.sequence.log_bytes + abi::total_bytes(names::texts(outcome.logs@))
            <= before.sequence.log_cap,
    ensures
        forall|i: int|
            0 <= i < frames.len() ==> before.heard_all(frames.take(i)).sequence.expects(
                #[trigger] frames[i],
            ),
        ({
            let after = before.heard_all(frames);
            &&& after.logs == before.logs + names::texts(outcome.logs@)
            &&& after.finish is Some
            &&& after.finish->0.error_code is None
            &&& after.finish->0.output_b64 is Some <==> outcome.output is Some
            &&& outcome.output is Some ==> encoding::base64_bytes(after.finish->0.output_b64->0@)
                == Some(outcome.output->0@)
        }),
{
    assert forall|i: int| 0 <= i < frames.len() implies before.heard_all(
        frames.take(i),
    ).sequence.expects(#[trigger] frames[i]) by {
        logs_are_heard(before, outcome, frames, i);
    }
    let n = frames.len() - 1;
    logs_are_heard(before, outcome, frames, n);
    assert(frames.drop_last() =~= frames.take(n));
    assert(names::texts(outcome.logs@).take(n) =~= names::texts(outcome.logs@));
}

/// Runner and supervisor count effects alike: while they agree on the next
/// identifier, the frame that the runner sends is the one that is expected, and
/// once it is answered they agree again.
pub proof fn effects_are_counted_alike(sequence: ipc::SequenceView, next: u64, frame: ChildFrame)
    requires
        sequence.is_sound(),
        sequence.next_id == next,
        sequence.pending is None,
        !sequence.finished,
        sequence.messages < ipc::MAX_MESSAGES,
        frame matches ChildFrame::EffectRequest { message_id, .. } && message_id == next,
    ensures
        sequence.expects(frame),
        sequence.observed(frame).answered().next_id == next + 1,
        sequence.observed(frame).answered().pending is None,
{
}

/// Digits are read from the left: one more makes the number ten times as large
/// and adds the digit.
pub proof fn digits_are_read_from_the_left(digits: Seq<u8>, digit: u8)
    requires
        0x30 <= digit <= 0x39,
    ensures
        decimal(Seq::<u8>::empty()) == 0,
        decimal(digits.push(digit)) == 10 * decimal(digits) + (digit - 0x30),
        is_digit(digit),
{
    assert(digits.push(digit).drop_last() =~= digits);
}

/// A number is one or more decimal digits within the maximum, and means the same
/// with a plus sign in front; no other character is allowed.
pub proof fn numbers_are_digits_after_a_plus(digits: Seq<u8>, maximum: nat)
    ensures
        digits.len() > 0 && (forall|i: int|
            0 <= i < digits.len() ==> 0x30 <= #[trigger] digits[i] <= 0x39) && decimal(digits)
            <= maximum ==> {
            &&& is_number(digits, maximum)
            &&& digits_of(digits) == digits
            &&& is_number(seq![0x2bu8] + digits, maximum)
            &&& digits_of(seq![0x2bu8] + digits) == digits
        },
        is_number(digits, maximum) ==> decimal(digits_of(digits)) <= maximum && digits_of(
            digits,
        ).len() > 0 && forall|i: int|
            0 <= i < digits_of(digits).len() ==> 0x30 <= #[trigger] digits_of(digits)[i] <= 0x39,
{
    assert((seq![0x2bu8] + digits).skip(1) =~= digits);
    if is_number(digits, maximum) {
        let read = digits_of(digits);
        assert forall|i: int| 0 <= i < read.len() implies 0x30 <= #[trigger] read[i] <= 0x39 by {
            assert(is_digit(read[i]));
        }
    }
}

/// A runner takes six arguments, three flags each before its value, in one order;
/// and the guest's caps are the numbers behind the last two.
pub proof fn arguments_are_three_flags_with_values(arguments: Seq<Option<String>>)
    ensures
        are_arguments(arguments) <==> {
            &&& arguments.len() == 7
            &&& forall|i: int| 1 <= i < 7 ==> #[trigger] arguments[i] is Some
            &&& arguments[1]->0@ == "--operator-caps-json"@
            &&& arguments[3]->0@ == "--host-calls"@
            &&& arguments[5]->0@ == "--log-bytes"@
            &&& is_number(text::utf8(arguments[4]->0@), 4_294_967_295)
            &&& is_number(text::utf8(arguments[6]->0@), usize::MAX as nat)
        },
        are_arguments(arguments) ==> abi_caps_of(arguments).host_calls == decimal(
            digits_of(text::utf8(arguments[4]->0@)),
        ) && abi_caps_of(arguments).log_bytes == decimal(digits_of(text::utf8(arguments[6]->0@))),
{
}

/// Each way to fail is reported under a code of its own.
pub proof fn failures_are_reported_apart(a: AbiError, b: AbiError)
    requires
        error_code_of(a) == error_code_of(b),
    ensures
        a is InputSize == b is InputSize,
        a is InvalidCaps == b is InvalidCaps,
        a is Runtime == b is Runtime,
        a is StatePoisoned == b is StatePoisoned,
        a matches AbiError::Violation(x) ==> b == AbiError::Violation(x),
{
    reveal_strlit("INPUT_SIZE");
    reveal_strlit("INVALID_CAPS");
    reveal_strlit("INVALID_MEMORY");
    reveal_strlit("SIZE");
    reveal_strlit("POLICY");
    reveal_strlit("UNRESOLVED");
    reveal_strlit("REPLAY_DIVERGED");
    reveal_strlit("INVALID_STATE");
    reveal_strlit("UNAVAILABLE");
    reveal_strlit("RUNTIME_FAILURE");
    reveal_strlit("STATE_POISONED");
    let x = error_code_of(a);
    let y = error_code_of(b);
    assert(x.len() == y.len() && x[0] == y[0] && x[1] == y[1] && x[2] == y[2] && x[3] == y[3]);
}

/// A failure is told in one frame: it is admitted, has no output, and says the
/// code of the error.
pub proof fn failures_are_told_in_one_frame(frame: ChildFrame, error: AbiError)
    requires
        is_failure(frame, error),
    ensures
        frame.fault() is None,
        frame matches ChildFrame::Finish { version, output_b64, error_code } && version == 1
            && output_b64 is None && error_code is Some && error_code->0@ == error_code_of(error),
{
}

/// A success is told in its logs, in order and each in a frame of its own, and in
/// a last frame with its output and no error.
pub proof fn successes_are_told_in_order(frames: Seq<ChildFrame>, outcome: AbiOutcome, i: int)
    requires
        are_frames_of(frames, outcome),
        0 <= i < outcome.logs@.len(),
    ensures
        frames.len() == outcome.logs@.len() + 1,
        frames[i] matches ChildFrame::Log { version, message } && version == 1 && message@
            == outcome.logs@[i]@,
        frames.last() matches ChildFrame::Finish { version, output_b64, error_code } && version
            == 1 && error_code is None && (output_b64 is Some <==> outcome.output is Some),
        outcome.output is Some ==> frames.last()->Finish_output_b64->0@ == encoding::base64_text(
            outcome.output->0@,
        ),
{
    assert(is_log_of(frames[i], outcome.logs@[i]@));
}

/// Every number that is no failure of its own means that the service was not
/// available.
pub proof fn unknown_numbers_mean_unavailable(code: i32)
    ensures
        failure_of(code) is Policy <==> code == -3,
        failure_of(code) is Unresolved <==> code == -4,
        failure_of(code) is ReplayDivergence <==> code == -5,
        failure_of(code) is Unavailable <==> !(-5 <= code <= -3),
{
}

/// The frame of a success has the output, whole and decodable, and no error; that
/// of a log has the message.
pub proof fn frames_carry_what_was_said(
    frame: ChildFrame,
    output: Option<Vec<u8>>,
    message: Seq<char>,
)
    ensures
        carries(frame, output) ==> {
            &&& frame is Finish && frame.fault() is None
            &&& frame->Finish_version == 1
            &&& frame->error_code is None
            &&& frame->output_b64 is Some <==> output is Some
            &&& output is Some ==> frame->output_b64->0@ == encoding::base64_text(output->0@)
            &&& output is Some ==> encoding::base64_bytes(frame->output_b64->0@) == Some(
                output->0@,
            )
        },
        is_log_of(frame, message) <==> frame is Log && frame->Log_version == 1
            && frame->message@ == message,
{
}

} // verus!
