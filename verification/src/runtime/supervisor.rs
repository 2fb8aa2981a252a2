//! Supervision of a runner that holds no credentials. The runner gets only
//! bounded frames on its standard input; all authority over effects stays with
//! the broker on the supervisor's side.
use vstd::prelude::*;

use crate::domain::limits;
use crate::domain::limits::{require_execution_host, ConfigError, Limits, LOG_BYTES};
use crate::domain::types::EffectRequest;
use crate::encoding;
use crate::names;
use crate::runtime::abi;
use crate::runtime::abi::{
    valid_reply, AbiCaps, DispatchFailure, EffectReply, MAX_HOST_CALLS,
};
use crate::runtime::ipc;
use crate::runtime::ipc::{
    ChildFrame, EffectResponse, EffectResponseFrame, ParentSequence, ProtocolError, SequenceView,
    StartFrame, PROTOCOL_VERSION,
};
use crate::text;

verus! {

/// What a runner gets above its wall time, in milliseconds.
pub const SUPERVISION_ALLOWANCE_MS: u64 = 500;

/// How long to wait for a frame between two looks at the lease.
pub const LEASE_POLL_MS: u64 = 20;

/// How long to wait between two looks at an exiting runner.
pub const EXIT_POLL_MS: u64 = 5;

/// How long a runner may take to exit.
pub const CLEANUP_WAIT_MS: u64 = 250;

#[derive(Clone, Copy, Debug, PartialEq, Eq, Structural)]
pub enum LeaseState {
    Current,
    Cancelled,
    Lost,
}

#[derive(Clone, Copy, Debug, PartialEq, Eq, Structural)]
pub enum BrokerError {
    Cancelled,
    LeaseLost,
    Effect(DispatchFailure),
}

/// The authority over one supervised invocation.
///
/// `dispatch_if_current` must check lease and cancellation durably and commit
/// the effect's intent in one step. Polling `lease_state` only stops idle
/// guests early; it authorizes nothing. A dispatch has its own deadline, and
/// an action authorized before may end after the supervisor has returned.
pub trait DispatchBroker: Send + Sync + 'static {
    fn lease_state(&self) -> LeaseState;

    fn dispatch_if_current(&self, request: EffectRequest) -> Result<EffectReply, BrokerError>;
}

#[derive(Debug)]
pub struct SupervisedOutcome {
    pub output: Option<Vec<u8>>,
    pub logs: Vec<String>,
}

#[derive(Debug)]
pub enum SupervisorError {
    /// The host or a limit is not supported.
    UnsupportedHost(ConfigError),
    /// The runner is not a file.
    RunnerPath,
    InvalidAbiCaps,
    Io(std::io::Error),
    Protocol(ProtocolError),
    Deadline,
    Cancelled,
    LeaseLost,
    /// The runner reported a failure of its own.
    RunnerFailure(String),
    /// The runner exited without a valid last frame.
    ChildExit(Option<i32>),
    /// The broker's answer is not to the request.
    BrokerResponse,
    Clock,
}

/// What every invocation under a supervisor is held to.
#[derive(Clone, Copy, Debug)]
pub struct Supervisor {
    operator_caps: Limits,
    abi_caps: AbiCaps,
}

/// What every invocation under a supervisor is held to.
pub struct SupervisorView {
    pub operator_caps: Limits,
    pub abi_caps: AbiCaps,
}

impl View for Supervisor {
    type V = SupervisorView;

    closed spec fn view(&self) -> SupervisorView {
        SupervisorView { operator_caps: self.operator_caps, abi_caps: self.abi_caps }
    }
}

impl SupervisorView {
    /// The caps are positive and within the fixed ones.
    pub open spec fn is_sound(self) -> bool {
        &&& self.operator_caps.first_violation(self.operator_caps) is None
        &&& self.abi_caps.is_valid()
    }
}

/// Why a supervisor cannot be had: the host, the operator's caps, the guest's
/// caps and the runner are judged in this order.
pub open spec fn setup_fault(
    os: Seq<char>,
    arch: Seq<char>,
    operator_caps: Limits,
    abi_caps: AbiCaps,
    runner_is_file: bool,
    error: SupervisorError,
) -> bool {
    if !limits::is_execution_host(os, arch) {
        error == SupervisorError::UnsupportedHost(ConfigError::UnsupportedHost)
    } else if operator_caps.first_violation(operator_caps) is Some {
        error matches SupervisorError::UnsupportedHost(ConfigError::InvalidLimit(name)) && Some(
            name@,
        ) == operator_caps.first_violation(operator_caps)
    } else if !abi_caps.is_valid() {
        error is InvalidAbiCaps
    } else {
        !runner_is_file && error is RunnerPath
    }
}

impl Supervisor {
    /// A supervisor that lets a guest use the host as far as the fixed caps go.
    pub fn new(os: &str, arch: &str, operator_caps: Limits, runner_is_file: bool) -> (r: Result<
        Supervisor,
        SupervisorError,
    >)
        ensures
            ({
                let abi_caps = AbiCaps { host_calls: MAX_HOST_CALLS, log_bytes: LOG_BYTES };
                match r {
                    Ok(supervisor) => {
                        &&& limits::is_execution_host(os@, arch@)
                        &&& runner_is_file
                        &&& supervisor@ == (SupervisorView { operator_caps, abi_caps })
                        &&& supervisor@.is_sound()
                    },
                    Err(error) => setup_fault(
                        os@,
                        arch@,
                        operator_caps,
                        abi_caps,
                        runner_is_file,
                        error,
                    ),
                }
            }),
    {
        Supervisor::new_with_abi_caps(
            os,
            arch,
            operator_caps,
            AbiCaps { host_calls: MAX_HOST_CALLS, log_bytes: LOG_BYTES },
            runner_is_file,
        )
    }

    pub fn new_with_abi_caps(
        os: &str,
        arch: &str,
        operator_caps: Limits,
        abi_caps: AbiCaps,
        runner_is_file: bool,
    ) -> (r: Result<Supervisor, SupervisorError>)
        ensures
            match r {
                Ok(supervisor) => {
                    &&& limits::is_execution_host(os@, arch@)
                    &&& runner_is_file
                    &&& supervisor@ == (SupervisorView { operator_caps, abi_caps })
                    &&& supervisor@.is_sound()
                },
                Err(error) => setup_fault(
                    os@,
                    arch@,
                    operator_caps,
                    abi_caps,
                    runner_is_file,
                    error,
                ),
            },
    {
        match require_execution_host(os, arch) {
            Ok(()) => {},
            Err(error) => return Err(SupervisorError::UnsupportedHost(error)),
        }
        match operator_caps.validate(operator_caps) {
            Ok(_) => {},
            Err(error) => return Err(SupervisorError::UnsupportedHost(error)),
        }
        match abi_caps.validate() {
            Ok(_) => {},
            Err(_) => return Err(SupervisorError::InvalidAbiCaps),
        }
        if !runner_is_file {
            return Err(SupervisorError::RunnerPath);
        }
        Ok(Supervisor { operator_caps, abi_caps })
    }

    #[verifier::type_invariant]
    closed spec fn inv(self) -> bool {
        self@.is_sound()
    }

    pub fn operator_caps(&self) -> (r: Limits)
        ensures
            r == self@.operator_caps,
    {
        self.operator_caps
    }

    pub fn abi_caps(&self) -> (r: AbiCaps)
        ensures
            r == self@.abi_caps,
    {
        self.abi_caps
    }

    /// Begin an invocation: the frame that starts the runner, and its supervision.
    pub fn run(&self, module: &[u8], input: &[u8], limits: Limits) -> (r: Result<
        (StartFrame, Supervision),
        SupervisorError,
    >)
        ensures
            match r {
                Ok((start, supervision)) => {
                    &&& limits.first_violation(self@.operator_caps) is None
                    &&& ipc::start_fault(module@, input@) is None
                    &&& start.fault() is None
                    &&& start.module_b64@ == encoding::base64_text(module@)
                    &&& start.input_b64@ == encoding::base64_text(input@)
                    &&& start.limits == limits
                    &&& supervision.inv()
                    &&& supervision@ == SupervisionView::initial(
                        limits.wall_ms + SUPERVISION_ALLOWANCE_MS,
                        self@.abi_caps.log_bytes,
                    )
                    &&& supervision@.deadline_ms == limits.wall_ms + SUPERVISION_ALLOWANCE_MS
                    &&& supervision@.deadline_ms == limits.wall_ms + 500
                    &&& supervision@.logs.len() == 0
                    &&& supervision@.pending is None
                    &&& supervision@.finish is None
                    &&& supervision@.sequence.next_id == 1
                    &&& supervision@.sequence.messages == 0
                    &&& supervision@.sequence.log_bytes == 0
                    &&& supervision@.sequence.log_cap == self@.abi_caps.log_bytes
                    &&& supervision@.sequence.pending is None
                    &&& !supervision@.sequence.finished
                },
                Err(SupervisorError::UnsupportedHost(ConfigError::InvalidLimit(name))) =>
                    limits.first_violation(self@.operator_caps) == Some(name@),
                Err(SupervisorError::Clock) => {
                    &&& limits.first_violation(self@.operator_caps) is None
                    &&& limits.wall_ms + SUPERVISION_ALLOWANCE_MS > u64::MAX
                },
                Err(SupervisorError::Protocol(error)) => {
                    &&& limits.first_violation(self@.operator_caps) is None
                    &&& limits.wall_ms + SUPERVISION_ALLOWANCE_MS <= u64::MAX
                    &&& ipc::start_fault(module@, input@) is Some
                    &&& error.reports(ipc::start_fault(module@, input@)->0)
                },
                Err(_) => false,
            },
    {
        proof {
            use_type_invariant(self);
        }
        let limits = match limits.validate(self.operator_caps) {
            Ok(limits) => limits,
            Err(error) => return Err(SupervisorError::UnsupportedHost(error)),
        };
        let deadline_ms: u64 = match limits.wall_ms.checked_add(SUPERVISION_ALLOWANCE_MS) {
            Some(deadline_ms) => deadline_ms,
            None => return Err(SupervisorError::Clock),
        };
        let start = match StartFrame::new(module, input, limits) {
            Ok(start) => start,
            Err(error) => return Err(SupervisorError::Protocol(error)),
        };
        let sequence = match ParentSequence::with_log_cap(self.abi_caps.log_bytes) {
            Ok(sequence) => sequence,
            Err(error) => return Err(SupervisorError::Protocol(error)),
        };
        let supervision = Supervision {
            deadline_ms,
            sequence,
            logs: Vec::new(),
            pending: None,
            finish: None,
        };
        assert(supervision@.logs =~= Seq::<Seq<char>>::empty());
        Ok((start, supervision))
    }
}

/// The runner's last word.
#[derive(Debug)]
pub struct Finish {
    pub output_b64: Option<String>,
    pub error_code: Option<String>,
}

/// One supervised invocation.
#[derive(Debug)]
pub struct Supervision {
    deadline_ms: u64,
    sequence: ParentSequence,
    logs: Vec<String>,
    pending: Option<EffectRequest>,
    finish: Option<Finish>,
}

/// One supervised invocation.
#[verifier::ext_equal]
pub struct SupervisionView {
    /// When the runner must have ended, in milliseconds from its start.
    pub deadline_ms: int,
    pub sequence: SequenceView,
    pub logs: Seq<Seq<char>>,
    /// The request that the broker has.
    pub pending: Option<EffectRequest>,
    pub finish: Option<Finish>,
}

impl View for Supervision {
    type V = SupervisionView;

    closed spec fn view(&self) -> SupervisionView {
        SupervisionView {
            deadline_ms: self.deadline_ms as int,
            sequence: self.sequence@,
            logs: names::texts(self.logs@),
            pending: self.pending,
            finish: self.finish,
        }
    }
}

impl SupervisionView {
    pub open spec fn initial(deadline_ms: int, log_cap: usize) -> SupervisionView {
        SupervisionView {
            deadline_ms,
            sequence: SequenceView::initial(log_cap),
            logs: seq![],
            pending: None,
            finish: None,
        }
    }

    /// The broker has a request exactly while the sequence waits for an answer,
    /// the logs are those that were counted, and a last word was the last frame.
    pub open spec fn is_sound(self) -> bool {
        &&& self.sequence.is_sound()
        &&& self.pending is Some <==> self.sequence.pending is Some
        &&& abi::total_bytes(self.logs) == self.sequence.log_bytes
        &&& self.finish is Some <==> self.sequence.finished
    }

    /// After an expected frame of the runner.
    pub open spec fn heard(self, frame: ChildFrame) -> SupervisionView {
        let sequence = self.sequence.observed(frame);
        match frame {
            ChildFrame::EffectRequest { request, .. } => SupervisionView {
                sequence,
                pending: Some(request),
                ..self
            },
            ChildFrame::Log { message, .. } => SupervisionView {
                sequence,
                logs: self.logs.push(message@),
                ..self
            },
            ChildFrame::Finish { output_b64, error_code, .. } => SupervisionView {
                sequence,
                finish: Some(Finish { output_b64, error_code }),
                ..self
            },
        }
    }

    /// After several frames of the runner.
    pub open spec fn heard_all(self, frames: Seq<ChildFrame>) -> SupervisionView
        decreases frames.len(),
    {
        if frames.len() == 0 {
            self
        } else {
            self.heard_all(frames.drop_last()).heard(frames.last())
        }
    }

    /// Why the runner is stopped at a look at lease and clock. The lease is
    /// judged first.
    pub open spec fn stop(self, lease: LeaseState, elapsed_ms: u64) -> Option<Stop> {
        match lease {
            LeaseState::Cancelled => Some(Stop::Cancelled),
            LeaseState::Lost => Some(Stop::LeaseLost),
            LeaseState::Current => if elapsed_ms >= self.deadline_ms {
                Some(Stop::Deadline)
            } else {
                None
            },
        }
    }
}

/// Why a runner is stopped from outside.
pub enum Stop {
    Cancelled,
    LeaseLost,
    Deadline,
}

impl SupervisorError {
    /// The error reports the stop.
    pub open spec fn reports(self, stop: Stop) -> bool {
        match stop {
            Stop::Cancelled => self is Cancelled,
            Stop::LeaseLost => self is LeaseLost,
            Stop::Deadline => self is Deadline,
        }
    }
}

/// What the broker's worker has to say.
#[derive(Debug)]
pub enum DispatchPoll {
    Empty,
    Done(Result<EffectReply, BrokerError>),
    /// The worker is gone without an answer.
    Disconnected,
}

/// What comes from the runner.
#[derive(Debug)]
pub enum RunnerEvent {
    Frame(ChildFrame),
    Failed(ProtocolError),
    Timeout,
    /// The runner's output has ended.
    Closed,
}

/// What to do next.
#[derive(Debug)]
pub enum Step {
    Continue,
    /// Hand the request to the broker.
    Dispatch(EffectRequest),
    /// Wait for the runner to exit, and conclude.
    AwaitExit,
}

/// How the runner exited.
#[derive(Clone, Copy, Debug, PartialEq, Eq, Structural)]
pub struct Exit {
    pub success: bool,
    pub code: Option<i32>,
}

/// The number that the guest gets for a failed dispatch.
pub fn dispatch_code(failure: DispatchFailure) -> (r: i32)
    ensures
        r == failure.as_code().as_number(),
        -7 <= r <= -3,
{
    failure.code().number()
}

impl Supervision {
    pub closed spec fn inv(self) -> bool {
        self@.is_sound()
    }

    /// What every supervision keeps.
    pub proof fn inv_is_sound(self)
        requires
            self.inv(),
        ensures
            self@.is_sound(),
    {
    }

    /// Look at lease and clock before anything else is done.
    pub fn tick(&self, lease: LeaseState, elapsed_ms: u64) -> (r: Result<(), SupervisorError>)
        ensures
            match r {
                Ok(()) => self@.stop(lease, elapsed_ms) is None,
                Err(error) => self@.stop(lease, elapsed_ms) is Some && error.reports(
                    self@.stop(lease, elapsed_ms)->0,
                ),
            },
            r is Ok <==> lease is Current && elapsed_ms < self@.deadline_ms,
            lease is Cancelled ==> r is Err && r->Err_0 is Cancelled,
            lease is Lost ==> r is Err && r->Err_0 is LeaseLost,
            lease is Current && elapsed_ms >= self@.deadline_ms ==> r is Err
                && r->Err_0 is Deadline,
    {
        match lease {
            LeaseState::Current => {},
            LeaseState::Cancelled => return Err(SupervisorError::Cancelled),
            LeaseState::Lost => return Err(SupervisorError::LeaseLost),
        }
        if elapsed_ms >= self.deadline_ms {
            return Err(SupervisorError::Deadline);
        }
        Ok(())
    }

    /// How long to wait for the runner: to the deadline, or to the next look.
    pub fn wait_ms(&self, elapsed_ms: u64) -> (r: u64)
        ensures
            r <= LEASE_POLL_MS,
            elapsed_ms + r <= self@.deadline_ms || r == 0,
            r == LEASE_POLL_MS || r == 0 || elapsed_ms + r == self@.deadline_ms,
            r == 0 ==> elapsed_ms >= self@.deadline_ms,
    {
        if elapsed_ms >= self.deadline_ms {
            0
        } else if self.deadline_ms - elapsed_ms < LEASE_POLL_MS {
            self.deadline_ms - elapsed_ms
        } else {
            LEASE_POLL_MS
        }
    }

    /// Whether the broker has a request.
    pub fn is_dispatching(&self) -> (r: bool)
        ensures
            r == self@.pending is Some,
    {
        self.pending.is_some()
    }

    /// Take the broker's answer: the frame that answers the runner, if any.
    pub fn dispatched(&mut self, poll: DispatchPoll) -> (r: Result<
        Option<EffectResponseFrame>,
        SupervisorError,
    >)
        requires
            old(self).inv(),
            old(self)@.pending is Some,
        ensures
            match poll {
                DispatchPoll::Empty => r == Ok::<Option<EffectResponseFrame>, SupervisorError>(None)
                    && *final(self) == *old(self),
                DispatchPoll::Disconnected => r is Err && r->Err_0 is BrokerResponse,
                DispatchPoll::Done(Err(BrokerError::Cancelled)) => r is Err
                    && r->Err_0 is Cancelled,
                DispatchPoll::Done(Err(BrokerError::LeaseLost)) => r is Err
                    && r->Err_0 is LeaseLost,
                DispatchPoll::Done(Ok(reply)) => if reply.answers(old(self)@.pending->0@) {
                    &&& r is Ok
                    &&& r->Ok_0 is Some
                    &&& answers_pending(
                        r->Ok_0->0,
                        old(self)@,
                        EffectResponse::Committed { reply },
                    )
                } else {
                    r is Err && r->Err_0 is BrokerResponse
                },
                DispatchPoll::Done(Err(BrokerError::Effect(failure))) => {
                    &&& r is Ok
                    &&& r->Ok_0 is Some
                    &&& answers_pending(
                        r->Ok_0->0,
                        old(self)@,
                        EffectResponse::Failed { code: failure.as_code().as_number() },
                    )
                },
            },
            r is Ok && poll !is Empty ==> {
                &&& final(self).inv()
                &&& final(self)@ == (SupervisionView {
                    sequence: old(self)@.sequence.answered(),
                    pending: None,
                    ..old(self)@
                })
            },
    {
        let result = match poll {
            DispatchPoll::Empty => return Ok(None),
            DispatchPoll::Disconnected => return Err(SupervisorError::BrokerResponse),
            DispatchPoll::Done(result) => result,
        };
        let request = match self.pending.take() {
            Some(request) => request,
            None => return Err(SupervisorError::BrokerResponse),
        };
        let response = match result {
            Ok(reply) => {
                if !valid_reply(&request, &reply) {
                    return Err(SupervisorError::BrokerResponse);
                }
                EffectResponse::Committed { reply }
            },
            Err(BrokerError::Cancelled) => return Err(SupervisorError::Cancelled),
            Err(BrokerError::LeaseLost) => return Err(SupervisorError::LeaseLost),
            Err(BrokerError::Effect(failure)) => EffectResponse::Failed {
                code: dispatch_code(failure),
            },
        };
        let message_id: u64 = match self.sequence.pending_id() {
            Some(message_id) => message_id,
            None => return Err(SupervisorError::Protocol(ProtocolError::Sequence)),
        };
        let frame = EffectResponseFrame {
            version: PROTOCOL_VERSION,
            kind: text::copy_text("effect_response"),
            message_id,
            response,
        };
        match self.sequence.respond(&frame) {
            Ok(()) => Ok(Some(frame)),
            Err(error) => Err(SupervisorError::Protocol(error)),
        }
    }

    /// Take what comes from the runner.
    pub fn received(&mut self, event: RunnerEvent) -> (r: Result<Step, SupervisorError>)
        requires
            old(self).inv(),
        ensures
            match event {
                RunnerEvent::Timeout => r == Ok::<Step, SupervisorError>(Step::Continue)
                    && *final(self) == *old(self),
                RunnerEvent::Closed => r == Ok::<Step, SupervisorError>(Step::AwaitExit)
                    && *final(self) == *old(self),
                RunnerEvent::Failed(error) => r == Err::<Step, SupervisorError>(
                    SupervisorError::Protocol(error),
                ),
                RunnerEvent::Frame(frame) => if old(self)@.sequence.expects(frame) {
                    &&& final(self).inv()
                    &&& r is Ok
                    &&& final(self)@ == old(self)@.heard(frame)
                    &&& match frame {
                        ChildFrame::EffectRequest { request, .. } => r->Ok_0 matches Step::Dispatch(
                            handed,
                        ) && handed@ == request@,
                        ChildFrame::Log { .. } => r->Ok_0 is Continue,
                        ChildFrame::Finish { .. } => r->Ok_0 is AwaitExit,
                    }
                } else {
                    r is Err && r->Err_0 == SupervisorError::Protocol(ProtocolError::Sequence)
                },
            },
    {
        let frame = match event {
            RunnerEvent::Timeout => return Ok(Step::Continue),
            RunnerEvent::Closed => return Ok(Step::AwaitExit),
            RunnerEvent::Failed(error) => return Err(SupervisorError::Protocol(error)),
            RunnerEvent::Frame(frame) => frame,
        };
        match self.sequence.observe(&frame) {
            Ok(()) => {},
            Err(error) => return Err(SupervisorError::Protocol(error)),
        }
        match frame {
            ChildFrame::EffectRequest { request, .. } => {
                let handed = request.clone();
                self.pending = Some(request);
                Ok(Step::Dispatch(handed))
            },
            ChildFrame::Log { message, .. } => {
                let ghost before = self@.logs;
                let ghost said = message@;
                self.logs.push(message);
                assert(self@.logs =~= before.push(said));
                assert(self@.logs.drop_last() =~= before);
                Ok(Step::Continue)
            },
            ChildFrame::Finish { output_b64, error_code, .. } => {
                self.finish = Some(Finish { output_b64, error_code });
                Ok(Step::AwaitExit)
            },
        }
    }

    /// Conclude once the runner has exited. There is an outcome only where the
    /// runner said its last word without an error and exited with success.
    pub fn exited(self, exit: Exit) -> (r: Result<SupervisedOutcome, SupervisorError>)
        ensures
            match self@.finish {
                None => r == Err::<SupervisedOutcome, SupervisorError>(
                    SupervisorError::ChildExit(exit.code),
                ),
                Some(finish) => if !exit.success {
                    r == Err::<SupervisedOutcome, SupervisorError>(
                        SupervisorError::ChildExit(exit.code),
                    )
                } else if finish.error_code is Some {
                    r == Err::<SupervisedOutcome, SupervisorError>(
                        SupervisorError::RunnerFailure(finish.error_code->0),
                    )
                } else {
                    match finish.output_b64 {
                        None => r is Ok && r->Ok_0.output is None && names::texts(r->Ok_0.logs@)
                            == self@.logs,
                        Some(output) => match encoding::base64_bytes(output@) {
                            None => r == Err::<SupervisedOutcome, SupervisorError>(
                                SupervisorError::Protocol(ProtocolError::Message),
                            ),
                            Some(decoded) => {
                                &&& r is Ok
                                &&& r->Ok_0.output is Some
                                &&& r->Ok_0.output->0@ == decoded
                                &&& names::texts(r->Ok_0.logs@) == self@.logs
                            },
                        },
                    }
                },
            },
            forall|output: Seq<u8>|
                exit.success && self@.finish is Some && self@.finish->0.error_code is None
                    && ipc::optional_text(self@.finish->0.output_b64) == Some(
                    #[trigger] encoding::base64_text(output),
                ) ==> r is Ok && r->Ok_0.output is Some && r->Ok_0.output->0@ == output,
    {
        let finish = match self.finish {
            Some(finish) => finish,
            None => return Err(SupervisorError::ChildExit(exit.code)),
        };
        if !exit.success {
            return Err(SupervisorError::ChildExit(exit.code));
        }
        if let Some(code) = finish.error_code {
            return Err(SupervisorError::RunnerFailure(code));
        }
        match finish.output_b64 {
            None => Ok(SupervisedOutcome { output: None, logs: self.logs }),
            Some(output) => match encoding::decode_base64(output.as_str()) {
                Some(decoded) => Ok(SupervisedOutcome { output: Some(decoded), logs: self.logs }),
                None => Err(SupervisorError::Protocol(ProtocolError::Message)),
            },
        }
    }
}

/// The frame answers the request that the broker had, as the protocol wants it.
pub open spec fn answers_pending(
    frame: EffectResponseFrame,
    before: SupervisionView,
    response: EffectResponse,
) -> bool {
    &&& frame.is_sound()
    &&& before.sequence.pending == Some(frame.message_id)
    &&& frame.response == response
}

/// A runner has its wall time and half a second more: with a current lease it is
/// stopped from then on, and not a millisecond before.
pub proof fn runners_have_their_wall_time(
    wall_ms: u64,
    log_cap: usize,
    lease: LeaseState,
    elapsed_ms: u64,
)
    ensures
        ({
            let begun = SupervisionView::initial(wall_ms + SUPERVISION_ALLOWANCE_MS, log_cap);
            &&& begun.stop(LeaseState::Current, elapsed_ms) is Some <==> elapsed_ms >= wall_ms
                + 500
            &&& elapsed_ms < wall_ms ==> begun.stop(LeaseState::Current, elapsed_ms) is None
            &&& begun.stop(lease, elapsed_ms) is None ==> lease is Current
        }),
{
}

/// A lease that is gone stops a runner whatever the clock says, and a runner
/// that is stopped stays stopped as time goes on.
pub proof fn stops_are_for_a_reason(
    supervision: SupervisionView,
    lease: LeaseState,
    elapsed_ms: u64,
    later_ms: u64,
)
    requires
        elapsed_ms <= later_ms,
    ensures
        lease is Cancelled <==> (supervision.stop(lease, elapsed_ms) matches Some(stop)
            && stop is Cancelled),
        lease is Lost <==> (supervision.stop(lease, elapsed_ms) matches Some(stop)
            && stop is LeaseLost),
        supervision.stop(lease, elapsed_ms) is Some ==> supervision.stop(lease, later_ms) is Some,
{
}

/// A supervision begins with nothing heard and nothing asked for, and hears as
/// much log as its cap says.
pub proof fn supervision_begins_with_nothing_heard(deadline_ms: int, log_cap: usize)
    ensures
        ({
            let begun = SupervisionView::initial(deadline_ms, log_cap);
            &&& begun.deadline_ms == deadline_ms
            &&& begun.logs.len() == 0 && begun.pending is None && begun.finish is None
            &&& begun.sequence.next_id == 1 && begun.sequence.messages == 0
            &&& begun.sequence.log_bytes == 0 && begun.sequence.log_cap == log_cap
            &&& begun.sequence.pending is None && !begun.sequence.finished
        }),
{
}

/// What a frame leaves behind: a request waits for the broker, a log joins the
/// logs, and a last word is kept; nothing else changes, and the deadline never
/// moves.
pub proof fn frames_leave_what_they_say(supervision: SupervisionView, frame: ChildFrame)
    ensures
        ({
            let after = supervision.heard(frame);
            &&& after.deadline_ms == supervision.deadline_ms
            &&& frame matches ChildFrame::EffectRequest { request, .. } ==> {
                &&& after.pending == Some(request)
                &&& after.logs == supervision.logs
                &&& after.finish == supervision.finish
            }
            &&& frame matches ChildFrame::Log { message, .. } ==> {
                &&& after.logs.len() == supervision.logs.len() + 1
                &&& after.logs.last() == message@
                &&& after.logs.drop_last() == supervision.logs
                &&& after.pending == supervision.pending
                &&& after.finish == supervision.finish
            }
            &&& frame matches ChildFrame::Finish { output_b64, error_code, .. } ==> {
                &&& after.finish is Some
                &&& after.finish->0.output_b64 == output_b64
                &&& after.finish->0.error_code == error_code
                &&& after.pending == supervision.pending
                &&& after.logs == supervision.logs
            }
        }),
{
    if let ChildFrame::Log { message, .. } = frame {
        assert(supervision.logs.push(message@).drop_last() =~= supervision.logs);
    }
}

/// A supervisor is had on a Linux host, with caps that are positive and within
/// the fixed ones, and with a runner that is a file; otherwise the first of these
/// that fails is reported.
pub proof fn supervisors_are_had_on_their_terms(
    os: Seq<char>,
    arch: Seq<char>,
    operator_caps: Limits,
    abi_caps: AbiCaps,
    runner_is_file: bool,
    error: SupervisorError,
)
    requires
        setup_fault(os, arch, operator_caps, abi_caps, runner_is_file, error),
    ensures
        !limits::is_execution_host(os, arch) ==> error == SupervisorError::UnsupportedHost(
            ConfigError::UnsupportedHost,
        ),
        error is RunnerPath ==> !runner_is_file && abi_caps.is_valid(),
        error is InvalidAbiCaps ==> !abi_caps.is_valid() && operator_caps.first_violation(
            operator_caps,
        ) is None,
        limits::is_execution_host(os, arch) && abi_caps.is_valid() && runner_is_file
            ==> operator_caps.fuel == 0 || operator_caps.memory_bytes == 0
            || operator_caps.memory_bytes > 67_108_864 || operator_caps.wall_ms == 0
            || operator_caps.max_effects == 0 || operator_caps.max_effects > 8,
{
}

/// The answer to a runner is of the known version and kind, has the identifier of
/// the request that waits, and says what the broker said.
pub proof fn answers_are_to_what_waits(
    frame: EffectResponseFrame,
    before: SupervisionView,
    response: EffectResponse,
)
    ensures
        answers_pending(frame, before, response) ==> {
            &&& frame.version == 1
            &&& frame.kind@ == "effect_response"@
            &&& before.sequence.pending == Some(frame.message_id)
            &&& frame.response == response
        },
{
}

/// Exits and leases are looked at many times while a runner is cleaned up, and all
/// of it fits the allowance.
pub proof fn waits_fit_the_allowance()
    ensures
        EXIT_POLL_MS == 5 && LEASE_POLL_MS == 20 && CLEANUP_WAIT_MS == 250,
        EXIT_POLL_MS < LEASE_POLL_MS < CLEANUP_WAIT_MS < SUPERVISION_ALLOWANCE_MS,
{
}

} // verus!
