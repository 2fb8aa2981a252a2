//! Checked guest imports. Guest bytes are copied before anything is done with
//! them, and a violation once found answers every later call.
use vstd::prelude::*;

use crate::bytes;
use crate::domain::limits::{Limits, EFFECT_REQUEST_BYTES, LOG_BYTES, PAYLOAD_BYTES};
use crate::domain::types::{EffectRequest, EffectView};
use crate::names;
use crate::runtime::engine::RuntimeError;
use crate::text;

verus! {

pub const MAX_HOST_CALLS: u32 = 64;

/// What the operator lets a guest use of the host.
#[derive(Clone, Copy, Debug, PartialEq, Eq, Structural)]
pub struct AbiCaps {
    pub host_calls: u32,
    pub log_bytes: usize,
}

impl AbiCaps {
    /// Positive and no greater than the fixed caps.
    pub open spec fn is_valid(self) -> bool {
        &&& 0 < self.host_calls <= MAX_HOST_CALLS
        &&& 0 < self.log_bytes <= LOG_BYTES
    }

    pub fn validate(self) -> (r: Result<AbiCaps, AbiError>)
        ensures
            match r {
                Ok(caps) => caps == self && self.is_valid(),
                Err(error) => error is InvalidCaps && !self.is_valid(),
            },
    {
        if self.host_calls == 0 || self.host_calls > MAX_HOST_CALLS || self.log_bytes == 0
            || self.log_bytes > LOG_BYTES {
            return Err(AbiError::InvalidCaps);
        }
        Ok(self)
    }
}

/// What the guest is told of an effect that took place.
#[derive(Debug)]
pub struct EffectReply {
    pub ordinal: u64,
    pub state: Committed,
    pub response: TicketResponse,
    pub replayed: bool,
}

#[derive(Clone, Copy, Debug, PartialEq, Eq, Structural)]
pub enum Committed {
    Committed,
}

#[derive(Debug)]
pub struct TicketResponse {
    pub ticket_id: String,
    pub project: String,
}

impl EffectReply {
    /// The reply is to the request: it has its ordinal and its project, and
    /// names a ticket.
    pub open spec fn answers(self, request: EffectView) -> bool {
        &&& self.ordinal == request.ordinal
        &&& self.response.project@ == request.arguments.project
        &&& self.response.ticket_id@.len() > 0
    }
}

/// Whether a reply is to a request.
pub fn valid_reply(request: &EffectRequest, reply: &EffectReply) -> (r: bool)
    ensures
        r == reply.answers(request@),
{
    reply.ordinal == request.ordinal && text::text_equal(
        reply.response.project.as_str(),
        request.arguments.project.as_str(),
    ) && reply.response.ticket_id.as_str().unicode_len() > 0
}

/// How a host function refuses.
#[derive(Clone, Copy, Debug, PartialEq, Eq, Structural)]
pub enum AbiCode {
    InvalidMemory,
    Size,
    Policy,
    Unresolved,
    ReplayDivergence,
    InvalidState,
    Unavailable,
}

impl AbiCode {
    /// The number that the guest sees.
    pub open spec fn as_number(self) -> i32 {
        match self {
            AbiCode::InvalidMemory => (-1) as i32,
            AbiCode::Size => (-2) as i32,
            AbiCode::Policy => (-3) as i32,
            AbiCode::Unresolved => (-4) as i32,
            AbiCode::ReplayDivergence => (-5) as i32,
            AbiCode::InvalidState => (-6) as i32,
            AbiCode::Unavailable => (-7) as i32,
        }
    }

    pub fn number(self) -> (r: i32)
        ensures
            r == self.as_number(),
    {
        match self {
            AbiCode::InvalidMemory => -1,
            AbiCode::Size => -2,
            AbiCode::Policy => -3,
            AbiCode::Unresolved => -4,
            AbiCode::ReplayDivergence => -5,
            AbiCode::InvalidState => -6,
            AbiCode::Unavailable => -7,
        }
    }
}

/// Different refusals have different numbers, all of them negative.
pub proof fn numbers_tell_refusals_apart(a: AbiCode, b: AbiCode)
    ensures
        a.as_number() < 0,
        a.as_number() == b.as_number() ==> a == b,
{
}

/// Why an effect did not take place, or may not have.
#[derive(Clone, Copy, Debug, PartialEq, Eq, Structural)]
pub enum DispatchFailure {
    /// Denied by policy.
    Policy,
    /// The outcome is not known.
    Unresolved,
    /// The replay asks for something else than before.
    ReplayDivergence,
    /// The service is not available.
    Unavailable,
}

impl DispatchFailure {
    pub open spec fn as_code(self) -> AbiCode {
        match self {
            DispatchFailure::Policy => AbiCode::Policy,
            DispatchFailure::Unresolved => AbiCode::Unresolved,
            DispatchFailure::ReplayDivergence => AbiCode::ReplayDivergence,
            DispatchFailure::Unavailable => AbiCode::Unavailable,
        }
    }

    pub fn code(self) -> (r: AbiCode)
        ensures
            r == self.as_code(),
    {
        match self {
            DispatchFailure::Policy => AbiCode::Policy,
            DispatchFailure::Unresolved => AbiCode::Unresolved,
            DispatchFailure::ReplayDivergence => AbiCode::ReplayDivergence,
            DispatchFailure::Unavailable => AbiCode::Unavailable,
        }
    }
}

/// The broker remains authoritative for grant, lease and effect identity. It
/// receives an owned, strictly parsed request, never guest memory.
pub trait EffectDispatcher: Send {
    fn dispatch(&mut self, request: EffectRequest) -> Result<Vec<u8>, DispatchFailure>;
}

#[derive(Debug)]
pub enum AbiError {
    InputSize,
    InvalidCaps,
    /// The guest violated the interface.
    Violation(AbiCode),
    Runtime(RuntimeError),
    StatePoisoned,
}

#[derive(Debug)]
pub struct AbiOutcome {
    pub return_code: i32,
    pub output: Option<Vec<u8>>,
    pub logs: Vec<String>,
    pub host_calls: u32,
}

/// The guest must stop: the outcome of its effect is not known.
#[derive(Clone, Copy, Debug, PartialEq, Eq, Structural)]
pub struct Trap;

/// The guest address that a pointer denotes: its 32 bits, unsigned.
pub open spec fn address(ptr: i32) -> int {
    if ptr >= 0 {
        ptr as int
    } else {
        ptr + 0x1_0000_0000
    }
}

/// What is wrong with so many bytes at a pointer, in a memory of the given size.
pub open spec fn range_fault(exported: bool, size: nat, ptr: i32, len: i32) -> Option<AbiCode> {
    if len < 0 {
        Some(AbiCode::Size)
    } else if !exported || address(ptr) + len > size {
        Some(AbiCode::InvalidMemory)
    } else {
        None
    }
}

/// The total length of texts in bytes.
pub open spec fn total_bytes(texts: Seq<Seq<char>>) -> nat
    decreases texts.len(),
{
    if texts.len() == 0 {
        0
    } else {
        total_bytes(texts.drop_last()) + text::utf8(texts.last()).len()
    }
}

/// What one guest has done, and what it may still do.
#[derive(Debug)]
pub struct State {
    input: Vec<u8>,
    output: Option<Vec<u8>>,
    logs: Vec<String>,
    log_bytes: usize,
    calls: u32,
    caps: AbiCaps,
    next_ordinal: u64,
    max_effects: u64,
    sticky: Option<AbiCode>,
}

/// The state of one guest.
#[verifier::ext_equal]
pub struct StateView {
    pub input: Seq<u8>,
    pub output: Option<Seq<u8>>,
    pub logs: Seq<Seq<char>>,
    pub calls: u32,
    pub caps: AbiCaps,
    /// The ordinal of the next new effect.
    pub next_ordinal: u64,
    pub max_effects: u64,
    /// The violation that was found first.
    pub sticky: Option<AbiCode>,
}

impl View for State {
    type V = StateView;

    closed spec fn view(&self) -> StateView {
        StateView {
            input: self.input@,
            output: match self.output {
                Some(output) => Some(output@),
                None => None,
            },
            logs: names::texts(self.logs@),
            calls: self.calls,
            caps: self.caps,
            next_ordinal: self.next_ordinal,
            max_effects: self.max_effects,
            sticky: self.sticky,
        }
    }
}

impl StateView {
    /// Input, output and logs are within their caps, and so are the effects; each
    /// log took a call.
    pub open spec fn holds_within_caps(self) -> bool {
        &&& self.input.len() <= PAYLOAD_BYTES
        &&& self.output matches Some(output) ==> output.len() <= PAYLOAD_BYTES
        &&& self.caps.is_valid()
        &&& total_bytes(self.logs) <= self.caps.log_bytes
        &&& self.logs.len() <= self.calls
        &&& self.logs.len() <= self.caps.host_calls
        &&& self.next_ordinal <= self.max_effects
    }

    /// What was taken in is within its caps, and so are the calls, as long as no
    /// violation was found.
    pub open spec fn is_bounded(self) -> bool {
        &&& self.holds_within_caps()
        &&& self.sticky is None ==> self.calls <= self.caps.host_calls
    }

    /// A guest that has not run.
    pub open spec fn initial(input: Seq<u8>, max_effects: u64, caps: AbiCaps) -> StateView {
        StateView {
            input,
            output: None,
            logs: seq![],
            calls: 0,
            caps,
            next_ordinal: 0,
            max_effects,
            sticky: None,
        }
    }

    /// After a violation: the first one stays.
    pub open spec fn failed(self, code: AbiCode) -> StateView {
        StateView {
            sticky: match self.sticky {
                Some(first) => Some(first),
                None => Some(code),
            },
            ..self
        }
    }

    /// With one more host call counted.
    pub open spec fn counted(self) -> StateView {
        StateView {
            calls: if self.calls == u32::MAX {
                u32::MAX
            } else {
                (self.calls + 1) as u32
            },
            ..self
        }
    }

    /// Why the counted call is refused whatever it asks: a violation was found
    /// before, the output is written, or the calls are used up.
    pub open spec fn refusal(self) -> Option<AbiCode> {
        match self.sticky {
            Some(code) => Some(code),
            None => if self.output is Some || self.calls > self.caps.host_calls {
                Some(AbiCode::InvalidState)
            } else {
                None
            },
        }
    }

    /// Why the counted `input_read` is refused.
    pub open spec fn input_read_fault(
        self,
        exported: bool,
        size: nat,
        ptr: i32,
        capacity: i32,
    ) -> Option<AbiCode> {
        if self.refusal() is Some {
            self.refusal()
        } else if capacity < self.input.len() {
            Some(AbiCode::Size)
        } else {
            range_fault(exported, size, ptr, capacity)
        }
    }

    /// Why the counted `output_write` is refused.
    pub open spec fn output_write_fault(
        self,
        exported: bool,
        size: nat,
        ptr: i32,
        len: i32,
    ) -> Option<AbiCode> {
        if self.refusal() is Some {
            self.refusal()
        } else if len > PAYLOAD_BYTES {
            Some(AbiCode::Size)
        } else {
            range_fault(exported, size, ptr, len)
        }
    }

    /// Why the counted `log` of the memory's bytes is refused.
    pub open spec fn log_fault(
        self,
        exported: bool,
        memory: Seq<u8>,
        ptr: i32,
        len: i32,
    ) -> Option<AbiCode> {
        if self.refusal() is Some {
            self.refusal()
        } else if total_bytes(self.logs) + len > self.caps.log_bytes {
            Some(AbiCode::Size)
        } else if range_fault(exported, memory.len(), ptr, len) is Some {
            range_fault(exported, memory.len(), ptr, len)
        } else if !vstd::utf8::valid_utf8(guest_bytes(memory, ptr, len)) {
            Some(AbiCode::Policy)
        } else {
            None
        }
    }

    /// Why the counted `effect_call` is refused before its request is read. The
    /// whole of the response's place is checked first.
    pub open spec fn effect_fault(
        self,
        exported: bool,
        size: nat,
        req_ptr: i32,
        req_len: i32,
        resp_ptr: i32,
        resp_cap: i32,
    ) -> Option<AbiCode> {
        if self.refusal() is Some {
            self.refusal()
        } else if req_len <= 0 || req_len > EFFECT_REQUEST_BYTES || resp_cap < PAYLOAD_BYTES {
            Some(AbiCode::Size)
        } else if range_fault(exported, size, resp_ptr, resp_cap) is Some {
            range_fault(exported, size, resp_ptr, resp_cap)
        } else {
            range_fault(exported, size, req_ptr, req_len)
        }
    }

    /// The request may go to the broker: it is valid, and its ordinal is the
    /// next one or an earlier one, below the limit.
    pub open spec fn admits(self, request: EffectView) -> bool {
        &&& request.first_invalid() is None
        &&& request.ordinal <= self.next_ordinal
        &&& request.ordinal < self.max_effects
    }

    /// After the effect with an ordinal took place.
    pub open spec fn committed(self, ordinal: u64) -> StateView {
        StateView {
            next_ordinal: if ordinal == self.next_ordinal {
                (self.next_ordinal + 1) as u64
            } else {
                self.next_ordinal
            },
            ..self
        }
    }
}

/// The guest's bytes at a pointer.
pub open spec fn guest_bytes(memory: Seq<u8>, ptr: i32, len: i32) -> Seq<u8> {
    memory.subrange(address(ptr), address(ptr) + len)
}

/// The place of so many bytes at a pointer, where they lie within a memory.
fn range(exported: bool, size: usize, ptr: i32, len: i32) -> (r: Result<(usize, usize), AbiCode>)
    ensures
        match r {
            Ok((start, length)) => {
                &&& range_fault(exported, size as nat, ptr, len) is None
                &&& start == address(ptr)
                &&& length == len
            },
            Err(code) => range_fault(exported, size as nat, ptr, len) == Some(code),
        },
{
    if len < 0 {
        return Err(AbiCode::Size);
    }
    if !exported {
        return Err(AbiCode::InvalidMemory);
    }
    let unsigned: u32 = ptr as u32;
    assert(unsigned == address(ptr)) by {
        assert(ptr >= 0 ==> ptr as u32 == ptr) by (bit_vector);
        assert(ptr < 0 ==> ptr as u32 == ptr + 0x1_0000_0000) by (bit_vector);
    }
    let end: u64 = unsigned as u64 + len as u64;
    if end > size as u64 {
        return Err(AbiCode::InvalidMemory);
    }
    Ok((unsigned as usize, len as usize))
}

/// A copy of so many guest bytes at a pointer.
fn read(memory: Option<&[u8]>, ptr: i32, len: i32) -> (r: Result<Vec<u8>, AbiCode>)
    ensures
        match r {
            Ok(copied) => {
                &&& range_fault(memory is Some, memory->0@.len(), ptr, len) is None
                &&& copied@ == guest_bytes(memory->0@, ptr, len)
            },
            Err(code) => range_fault(memory is Some, memory->0@.len(), ptr, len) == Some(code),
        },
{
    match memory {
        None => match range(false, 0, ptr, len) {
            Ok(_) => Err(AbiCode::InvalidMemory),
            Err(code) => Err(code),
        },
        Some(memory) => match range(true, memory.len(), ptr, len) {
            Ok((start, length)) => {
                let part = vstd::slice::slice_subrange(memory, start, start + length);
                Ok(bytes::copy_bytes(part))
            },
            Err(code) => Err(code),
        },
    }
}

/// What `effect_call` does before its request is parsed.
#[derive(Debug)]
pub enum EffectStart {
    /// The guest gets this number.
    Refused(i32),
    /// These bytes are to be parsed.
    Request(Vec<u8>),
}

impl State {
    /// What was taken in is within its caps, and the counter of logged bytes is
    /// what the logs hold.
    closed spec fn tallies(self) -> bool {
        &&& self@.holds_within_caps()
        &&& self.log_bytes == total_bytes(self@.logs)
    }

    /// The state is within its bounds, and its counter of logged bytes is what
    /// the logs hold.
    pub closed spec fn inv(self) -> bool {
        &&& self.tallies()
        &&& self@.is_bounded()
    }

    /// What an invariant state keeps within its caps.
    pub proof fn inv_is_bounded(self)
        requires
            self.inv(),
        ensures
            self@.is_bounded(),
    {
    }

    /// The state of a guest that has not run.
    pub fn new(input: Vec<u8>, requested: Limits, abi_caps: AbiCaps) -> (r: Result<State, AbiError>)
        ensures
            match r {
                Ok(state) => {
                    &&& input@.len() <= PAYLOAD_BYTES
                    &&& abi_caps.is_valid()
                    &&& state.inv()
                    &&& state@ == StateView::initial(input@, requested.max_effects, abi_caps)
                    &&& state@.max_effects == requested.max_effects
                    &&& state@.caps == abi_caps
                    &&& state@.input == input@
                    &&& state@.output is None
                    &&& state@.logs.len() == 0
                    &&& state@.calls == 0
                    &&& state@.next_ordinal == 0
                    &&& state@.sticky is None
                },
                Err(AbiError::InputSize) => input@.len() > PAYLOAD_BYTES,
                Err(AbiError::InvalidCaps) => input@.len() <= PAYLOAD_BYTES && !abi_caps.is_valid(),
                Err(_) => false,
            },
    {
        if input.len() > PAYLOAD_BYTES {
            return Err(AbiError::InputSize);
        }
        let caps = match abi_caps.validate() {
            Ok(caps) => caps,
            Err(error) => return Err(error),
        };
        let state = State {
            input,
            output: None,
            logs: Vec::new(),
            log_bytes: 0,
            calls: 0,
            caps,
            next_ordinal: 0,
            max_effects: requested.max_effects,
            sticky: None,
        };
        assert(state@ =~= StateView::initial(input@, requested.max_effects, abi_caps));
        Ok(state)
    }

    /// Record a violation; the first one stays.
    fn fail(&mut self, code: AbiCode) -> (r: i32)
        ensures
            r == code.as_number(),
            final(self)@ == old(self)@.failed(code),
            old(self).tallies() ==> final(self).inv(),
    {
        if self.sticky.is_none() {
            self.sticky = Some(code);
        }
        code.number()
    }

    /// Record that the outcome of an effect is not known.
    fn unresolved(&mut self) -> (r: Result<i32, Trap>)
        ensures
            r == Err::<i32, Trap>(Trap),
            final(self)@ == old(self)@.failed(AbiCode::Unresolved),
            old(self).tallies() ==> final(self).inv(),
    {
        let _number: i32 = self.fail(AbiCode::Unresolved);
        Err(Trap)
    }

    /// Count a host call, and refuse it where the guest may make none.
    fn budget(&mut self) -> (r: Result<(), i32>)
        requires
            old(self).inv(),
        ensures
            final(self).inv(),
            match old(self)@.counted().refusal() {
                Some(code) => r == Err::<(), i32>(code.as_number()) && final(self)@ == old(
                    self,
                )@.counted().failed(code),
                None => r == Ok::<(), i32>(()) && final(self)@ == old(self)@.counted(),
            },
    {
        self.calls = self.calls.saturating_add(1);
        assert(self@ =~= old(self)@.counted());
        if let Some(code) = self.sticky {
            return Err(code.number());
        }
        if self.output.is_some() || self.calls > self.caps.host_calls {
            return Err(self.fail(AbiCode::InvalidState));
        }
        Ok(())
    }

    /// The host function `input_len`.
    pub fn input_len(&mut self) -> (r: i32)
        requires
            old(self).inv(),
        ensures
            final(self).inv(),
            ({
                let counted = old(self)@.counted();
                match counted.refusal() {
                    Some(code) => r == code.as_number() && final(self)@ == counted.failed(code),
                    None => r == counted.input.len() && final(self)@ == counted,
                }
            }),
    {
        if let Err(code) = self.budget() {
            return code;
        }
        self.input.len() as i32
    }

    /// The host function `input_read`: the input goes to the guest's buffer.
    pub fn input_read(&mut self, memory: Option<&mut [u8]>, ptr: i32, capacity: i32) -> (r: i32)
        requires
            old(self).inv(),
        ensures
            final(self).inv(),
            ({
                let counted = old(self)@.counted();
                match counted.input_read_fault(
                    memory is Some,
                    old(memory->0)@.len(),
                    ptr,
                    capacity,
                ) {
                    Some(code) => {
                        &&& r == code.as_number()
                        &&& final(self)@ == counted.failed(code)
                        &&& memory is Some ==> final(memory->0)@ == old(memory->0)@
                    },
                    None => {
                        &&& r == counted.input.len()
                        &&& final(self)@ == counted
                        &&& final(memory->0)@ == bytes::overwritten(
                            old(memory->0)@,
                            address(ptr),
                            counted.input,
                        )
                    },
                }
            }),
    {
        if let Err(code) = self.budget() {
            return code;
        }
        if capacity < 0 || (capacity as usize) < self.input.len() {
            return self.fail(AbiCode::Size);
        }
        match memory {
            None => self.fail(AbiCode::InvalidMemory),
            Some(memory) => match range(true, memory.len(), ptr, capacity) {
                Ok((start, _)) => {
                    bytes::overwrite(memory, start, self.input.as_slice());
                    self.input.len() as i32
                },
                Err(code) => self.fail(code),
            },
        }
    }

    /// The host function `output_write`: the guest's bytes become the output.
    pub fn output_write(&mut self, memory: Option<&[u8]>, ptr: i32, len: i32) -> (r: i32)
        requires
            old(self).inv(),
        ensures
            final(self).inv(),
            ({
                let counted = old(self)@.counted();
                match counted.output_write_fault(memory is Some, memory->0@.len(), ptr, len) {
                    Some(code) => r == code.as_number() && final(self)@ == counted.failed(code),
                    None => {
                        &&& r == len
                        &&& final(self)@ == (StateView {
                            output: Some(guest_bytes(memory->0@, ptr, len)),
                            ..counted
                        })
                    },
                }
            }),
    {
        if let Err(code) = self.budget() {
            return code;
        }
        if len < 0 || len as usize > PAYLOAD_BYTES {
            return self.fail(AbiCode::Size);
        }
        match read(memory, ptr, len) {
            Ok(output) => {
                self.output = Some(output);
                len
            },
            Err(code) => self.fail(code),
        }
    }

    /// The host function `log`: the guest's text joins the logs.
    pub fn log(&mut self, memory: Option<&[u8]>, ptr: i32, len: i32) -> (r: i32)
        requires
            old(self).inv(),
        ensures
            final(self).inv(),
            ({
                let counted = old(self)@.counted();
                match counted.log_fault(memory is Some, memory->0@, ptr, len) {
                    Some(code) => r == code.as_number() && final(self)@ == counted.failed(code),
                    None => {
                        &&& r == len
                        &&& exists|message: Seq<char>|
                            {
                                &&& #[trigger] text::utf8(message) == guest_bytes(
                                    memory->0@,
                                    ptr,
                                    len,
                                )
                                &&& final(self)@ == (StateView {
                                    logs: counted.logs.push(message),
                                    ..counted
                                })
                            }
                    },
                }
            }),
    {
        if let Err(code) = self.budget() {
            return code;
        }
        if len < 0 || (len as usize) > self.caps.log_bytes - self.log_bytes {
            return self.fail(AbiCode::Size);
        }
        let copied = match read(memory, ptr, len) {
            Ok(copied) => copied,
            Err(code) => return self.fail(code),
        };
        let message = match text::text_from_utf8(copied) {
            Some(message) => message,
            None => return self.fail(AbiCode::Policy),
        };
        let ghost before = self@.logs;
        let ghost said = message@;
        self.log_bytes = self.log_bytes + len as usize;
        self.logs.push(message);
        assert(self@.logs =~= before.push(said));
        assert(self@.logs.drop_last() =~= before);
        len
    }

    /// The host function `effect_call`, up to its request: its bytes, copied.
    pub fn effect_call(
        &mut self,
        memory: Option<&[u8]>,
        req_ptr: i32,
        req_len: i32,
        resp_ptr: i32,
        resp_cap: i32,
    ) -> (r: EffectStart)
        requires
            old(self).inv(),
        ensures
            final(self).inv(),
            ({
                let counted = old(self)@.counted();
                match counted.effect_fault(
                    memory is Some,
                    memory->0@.len(),
                    req_ptr,
                    req_len,
                    resp_ptr,
                    resp_cap,
                ) {
                    Some(code) => {
                        &&& r == EffectStart::Refused(code.as_number())
                        &&& final(self)@ == counted.failed(code)
                    },
                    None => {
                        &&& r matches EffectStart::Request(copied) && copied@ == guest_bytes(
                            memory->0@,
                            req_ptr,
                            req_len,
                        )
                        &&& final(self)@ == counted
                    },
                }
            }),
    {
        if let Err(code) = self.budget() {
            return EffectStart::Refused(code);
        }
        if req_len <= 0 || req_len as usize > EFFECT_REQUEST_BYTES || resp_cap
            < PAYLOAD_BYTES as i32 {
            return EffectStart::Refused(self.fail(AbiCode::Size));
        }
        let (exported, size): (bool, usize) = match memory {
            Some(memory) => (true, memory.len()),
            None => (false, 0),
        };
        if let Err(code) = range(exported, size, resp_ptr, resp_cap) {
            return EffectStart::Refused(self.fail(code));
        }
        match read(memory, req_ptr, req_len) {
            Ok(copied) => EffectStart::Request(copied),
            Err(code) => EffectStart::Refused(self.fail(code)),
        }
    }

    /// `effect_call`, once its request was decoded: the request for the broker,
    /// or the number that the guest gets.
    pub fn effect_request(
        &mut self,
        copied: &[u8],
        decoded: Result<EffectRequest, serde_json::Error>,
    ) -> (r: Result<EffectRequest, i32>)
        requires
            old(self).inv(),
        ensures
            final(self).inv(),
            match r {
                Ok(request) => {
                    &&& copied@.len() <= EFFECT_REQUEST_BYTES
                    &&& decoded == Ok::<EffectRequest, serde_json::Error>(request)
                    &&& old(self)@.admits(request@)
                    &&& final(self)@ == old(self)@
                },
                Err(number) => {
                    &&& copied@.len() > EFFECT_REQUEST_BYTES || decoded is Err || !old(
                        self,
                    )@.admits(decoded->Ok_0@)
                    &&& number == AbiCode::Policy.as_number()
                    &&& final(self)@ == old(self)@.failed(AbiCode::Policy)
                },
            },
    {
        match EffectRequest::parse(copied, decoded) {
            Ok(request) => {
                if request.ordinal > self.next_ordinal || request.ordinal >= self.max_effects {
                    return Err(self.fail(AbiCode::Policy));
                }
                Ok(request)
            },
            Err(_) => Err(self.fail(AbiCode::Policy)),
        }
    }

    /// `effect_call`, once the broker has answered an admitted request. `reply`
    /// is what the response was decoded to. An answer that cannot be handed
    /// over leaves the outcome unresolved, and stops the guest.
    pub fn effect_response(
        &mut self,
        request: &EffectRequest,
        result: Result<Vec<u8>, DispatchFailure>,
        reply: Option<EffectReply>,
        memory: Option<&mut [u8]>,
        resp_ptr: i32,
        resp_cap: i32,
    ) -> (r: Result<i32, Trap>)
        requires
            old(self).inv(),
            old(self)@.admits(request@),
        ensures
            final(self).inv(),
            match result {
                Err(failure) => {
                    &&& final(self)@ == old(self)@.failed(failure.as_code())
                    &&& r == (if failure == DispatchFailure::Unresolved {
                        Err::<i32, Trap>(Trap)
                    } else {
                        Ok(failure.as_code().as_number())
                    })
                    &&& memory is Some ==> final(memory->0)@ == old(memory->0)@
                },
                Ok(response) => if response@.len() <= PAYLOAD_BYTES && response@.len() <= resp_cap
                    && reply is Some && reply->0.answers(request@) && range_fault(
                    memory is Some,
                    old(memory->0)@.len(),
                    resp_ptr,
                    resp_cap,
                ) is None {
                    &&& r == Ok::<i32, Trap>(response@.len() as i32)
                    &&& final(self)@ == old(self)@.committed(request.ordinal)
                    &&& final(memory->0)@ == bytes::overwritten(
                        old(memory->0)@,
                        address(resp_ptr),
                        response@,
                    )
                } else {
                    &&& r == Err::<i32, Trap>(Trap)
                    &&& final(self)@ == old(self)@.failed(AbiCode::Unresolved)
                    &&& memory is Some ==> final(memory->0)@ == old(memory->0)@
                },
            },
    {
        let response = match result {
            Ok(response) => response,
            Err(failure) => {
                let code = failure.code();
                let number: i32 = self.fail(code);
                if code == AbiCode::Unresolved {
                    return self.unresolved();
                }
                return Ok(number);
            },
        };
        if response.len() > PAYLOAD_BYTES || resp_cap < 0 || response.len() > resp_cap as usize {
            return self.unresolved();
        }
        let valid = match &reply {
            Some(reply) => valid_reply(request, reply),
            None => false,
        };
        if !valid {
            return self.unresolved();
        }
        match memory {
            None => self.unresolved(),
            Some(memory) => match range(true, memory.len(), resp_ptr, resp_cap) {
                Err(_) => self.unresolved(),
                Ok((start, _)) => {
                    bytes::overwrite(memory, start, response.as_slice());
                    if request.ordinal == self.next_ordinal {
                        self.next_ordinal = self.next_ordinal + 1;
                    }
                    Ok(response.len() as i32)
                },
            },
        }
    }

    /// How the invocation ended: a violation outweighs what the guest returned.
    pub fn outcome(self, result: Result<i32, RuntimeError>) -> (r: Result<AbiOutcome, AbiError>)
        requires
            self.inv(),
        ensures
            match (self@.sticky, result) {
                (Some(code), _) => r == Err::<AbiOutcome, AbiError>(AbiError::Violation(code)),
                (None, Err(error)) => r == Err::<AbiOutcome, AbiError>(AbiError::Runtime(error)),
                (None, Ok(return_code)) => r matches Ok(outcome) && {
                    &&& outcome.return_code == return_code
                    &&& outcome.output is Some == self@.output is Some
                    &&& outcome.output matches Some(output) ==> self@.output == Some(output@)
                    &&& names::texts(outcome.logs@) == self@.logs
                    &&& outcome.host_calls == self@.calls
                    &&& outcome.host_calls <= self@.caps.host_calls
                },
            },
    {
        match self.sticky {
            Some(code) => Err(AbiError::Violation(code)),
            None => match result {
                Ok(return_code) => Ok(
                    AbiOutcome {
                        return_code,
                        output: self.output,
                        logs: self.logs,
                        host_calls: self.calls,
                    },
                ),
                Err(error) => Err(AbiError::Runtime(error)),
            },
        }
    }
}

/// Once a violation is found, every later call of every host function is
/// answered with it, and it stays.
pub proof fn first_violation_answers_every_call(
    state: StateView,
    code: AbiCode,
    exported: bool,
    memory: Seq<u8>,
    ptr: i32,
    len: i32,
    resp_ptr: i32,
    resp_cap: i32,
)
    requires
        state.sticky == Some(code),
    ensures
        ({
            let counted = state.counted();
            let size = memory.len();
            &&& counted.refusal() == Some(code)
            &&& counted.input_read_fault(exported, size, ptr, len) == Some(code)
            &&& counted.output_write_fault(exported, size, ptr, len) == Some(code)
            &&& counted.log_fault(exported, memory, ptr, len) == Some(code)
            &&& counted.effect_fault(exported, size, ptr, len, resp_ptr, resp_cap) == Some(code)
            &&& forall|later: AbiCode| (#[trigger] counted.failed(later)).sticky == Some(code)
        }),
{
}

/// Nothing follows the output: once it is written, the next call is a violation.
pub proof fn output_is_the_last_word(state: StateView)
    requires
        state.sticky is None,
        state.output is Some,
    ensures
        state.counted().refusal() == Some(AbiCode::InvalidState),
        state.counted().failed(AbiCode::InvalidState).output == state.output,
{
}

/// A guest that has used up its calls gets no other.
pub proof fn spent_calls_bar_every_call(state: StateView)
    requires
        state.caps.is_valid(),
        state.calls >= state.caps.host_calls,
    ensures
        state.counted().refusal() is Some,
{
}

/// An unresolved effect leaves a violation behind, so that no outcome follows.
pub proof fn unresolved_effect_bars_an_outcome(state: StateView)
    ensures
        state.failed(AbiCode::Unresolved).sticky is Some,
        state.sticky is None ==> state.failed(AbiCode::Unresolved).sticky == Some(
            AbiCode::Unresolved,
        ),
{
}

/// Ordinals grow one at a time, never past the limit, and a replay of an
/// earlier one moves nothing.
pub proof fn effects_are_numbered_without_gaps(state: StateView, request: EffectView)
    requires
        state.is_bounded(),
        state.admits(request),
    ensures
        state.committed(request.ordinal).is_bounded(),
        request.ordinal < state.committed(request.ordinal).next_ordinal,
        request.ordinal == state.next_ordinal ==> state.committed(request.ordinal).next_ordinal
            == state.next_ordinal + 1,
        request.ordinal < state.next_ordinal ==> state.committed(request.ordinal) == state,
{
}

/// Caps are valid where a guest gets 1 to 64 host calls and 1 byte to 16 KiB of
/// logs, and nowhere else.
pub proof fn guest_caps_are_valid_within_fixed_ones(caps: AbiCaps)
    ensures
        caps.is_valid() <==> 1 <= caps.host_calls <= 64 && 1 <= caps.log_bytes <= 16_384,
{
}

/// A guest starts with all that it was given and nothing done: its effects are
/// those that were asked for, and its caps the operator's.
pub proof fn guests_start_with_what_they_were_given(
    input: Seq<u8>,
    max_effects: u64,
    caps: AbiCaps,
    request: EffectView,
)
    ensures
        ({
            let state = StateView::initial(input, max_effects, caps);
            &&& state.max_effects == max_effects
            &&& state.caps == caps
            &&& state.input == input
            &&& state.output is None && state.logs.len() == 0 && state.sticky is None
            &&& state.calls == 0 && state.next_ordinal == 0
            &&& max_effects == 0 ==> !state.admits(request)
            &&& state.admits(request) ==> request.ordinal == 0
        }),
{
}

/// No guest gets more effects than it was given, nor one out of turn: a request
/// goes to the broker exactly where it is valid, lies below the limit and is the
/// next or an earlier one.
pub proof fn effects_stay_below_their_limit(state: StateView, request: EffectView)
    ensures
        state.admits(request) ==> request.ordinal < state.max_effects && request.ordinal
            <= state.next_ordinal && request.first_invalid() is None,
        request.ordinal < state.max_effects && request.ordinal <= state.next_ordinal
            && request.first_invalid() is None ==> state.admits(request),
        state.next_ordinal >= state.max_effects && state.admits(request) ==> request.ordinal
            < state.next_ordinal,
{
}

/// Of a pointer's 32 bits, none stands for a sign: adding to the pointer what
/// wraps once round gives the address.
pub proof fn addresses_are_unsigned(ptr: i32)
    ensures
        0 <= address(ptr) < 0x1_0000_0000,
        address(ptr) == ptr || address(ptr) == ptr + 0x1_0000_0000,
{
}

/// Bytes are at hand exactly where the memory is exported and they end within
/// it; a negative length is a matter of size, and all else one of memory.
pub proof fn ranges_end_within_the_memory(exported: bool, size: nat, ptr: i32, len: i32)
    ensures
        range_fault(exported, size, ptr, len) is None <==> exported && 0 <= len && address(ptr)
            + len <= size,
        range_fault(exported, size, ptr, len) == Some(AbiCode::Size) <==> len < 0,
        range_fault(exported, size, ptr, len) == Some(AbiCode::InvalidMemory) <==> len >= 0 && !(
        exported && address(ptr) + len <= size),
{
}

/// What is copied of the guest's memory are the bytes at the pointer, in order.
pub proof fn guest_bytes_are_those_at_the_pointer(memory: Seq<u8>, ptr: i32, len: i32, k: int)
    requires
        range_fault(true, memory.len(), ptr, len) is None,
        0 <= k < len,
    ensures
        guest_bytes(memory, ptr, len).len() == len,
        guest_bytes(memory, ptr, len)[k] == memory[address(ptr) + k],
{
}

/// Each host call is counted once, up to the largest number, and counting
/// changes nothing else.
pub proof fn calls_are_counted_one_by_one(state: StateView)
    ensures
        state.calls < u32::MAX ==> state.counted().calls == state.calls + 1,
        state.calls == u32::MAX ==> state.counted().calls == state.calls,
        state.counted().input == state.input,
        state.counted().output == state.output,
        state.counted().logs == state.logs,
        state.counted().caps == state.caps,
        state.counted().next_ordinal == state.next_ordinal,
        state.counted().max_effects == state.max_effects,
        state.counted().sticky == state.sticky,
{
}

/// A violation is kept where it is the first, and changes nothing else.
pub proof fn violations_are_kept_once(state: StateView, code: AbiCode)
    ensures
        state.sticky is None ==> state.failed(code).sticky == Some(code),
        state.sticky is Some ==> state.failed(code).sticky == state.sticky,
        state.failed(code).input == state.input,
        state.failed(code).output == state.output,
        state.failed(code).logs == state.logs,
        state.failed(code).calls == state.calls,
        state.failed(code).caps == state.caps,
        state.failed(code).next_ordinal == state.next_ordinal,
        state.failed(code).max_effects == state.max_effects,
{
}

/// A guest that has violated nothing, has calls left and has written no output
/// is served: each host function refuses it only for what it asks itself.
pub proof fn calls_within_their_budget_are_served(
    state: StateView,
    exported: bool,
    memory: Seq<u8>,
    ptr: i32,
    len: i32,
    resp_ptr: i32,
    resp_cap: i32,
)
    requires
        state.caps.is_valid(),
        state.sticky is None,
        state.output is None,
        state.calls < state.caps.host_calls,
    ensures
        ({
            let counted = state.counted();
            let size = memory.len();
            let at_hand = exported && 0 <= len && address(ptr) + len <= size;
            &&& counted.refusal() is None
            &&& counted.input_read_fault(exported, size, ptr, len) is None <==> at_hand && len
                >= state.input.len()
            &&& counted.output_write_fault(exported, size, ptr, len) is None <==> at_hand && len
                <= 65_536
            &&& counted.log_fault(exported, memory, ptr, len) is None <==> at_hand && total_bytes(
                state.logs,
            ) + len <= state.caps.log_bytes && vstd::utf8::valid_utf8(
                guest_bytes(memory, ptr, len),
            )
            &&& counted.effect_fault(exported, size, ptr, len, resp_ptr, resp_cap) is None <==> {
                &&& at_hand
                &&& 1 <= len <= 16_384
                &&& resp_cap >= 65_536
                &&& address(resp_ptr) + resp_cap <= size
            }
        }),
{
}

/// Where a host function refuses for what it was asked, the number says why: too
/// much or too little is a matter of size, a place outside of memory one of
/// memory, and a log that is no text one of policy.
pub proof fn refusals_say_why(
    state: StateView,
    exported: bool,
    memory: Seq<u8>,
    ptr: i32,
    len: i32,
)
    requires
        state.caps.is_valid(),
        state.sticky is None,
        state.output is None,
        state.calls < state.caps.host_calls,
        0 <= len,
    ensures
        ({
            let counted = state.counted();
            let size = memory.len();
            let at_hand = exported && address(ptr) + len <= size;
            &&& len < state.input.len() ==> counted.input_read_fault(exported, size, ptr, len)
                == Some(AbiCode::Size)
            &&& len >= state.input.len() && !at_hand ==> counted.input_read_fault(
                exported,
                size,
                ptr,
                len,
            ) == Some(AbiCode::InvalidMemory)
            &&& len > 65_536 ==> counted.output_write_fault(exported, size, ptr, len) == Some(
                AbiCode::Size,
            )
            &&& len <= 65_536 && !at_hand ==> counted.output_write_fault(exported, size, ptr, len)
                == Some(AbiCode::InvalidMemory)
            &&& total_bytes(state.logs) + len > state.caps.log_bytes ==> counted.log_fault(
                exported,
                memory,
                ptr,
                len,
            ) == Some(AbiCode::Size)
            &&& total_bytes(state.logs) + len <= state.caps.log_bytes && !at_hand
                ==> counted.log_fault(exported, memory, ptr, len) == Some(AbiCode::InvalidMemory)
            &&& total_bytes(state.logs) + len <= state.caps.log_bytes && at_hand
                && !vstd::utf8::valid_utf8(guest_bytes(memory, ptr, len)) ==> counted.log_fault(
                exported,
                memory,
                ptr,
                len,
            ) == Some(AbiCode::Policy)
        }),
{
}

/// A call made after a violation, after the output or beyond the budget is
/// refused as such.
pub proof fn unserved_calls_are_refused(state: StateView)
    requires
        state.caps.is_valid(),
    ensures
        state.sticky is Some ==> state.counted().refusal() == state.sticky,
        state.sticky is None && (state.output is Some || state.calls >= state.caps.host_calls)
            ==> state.counted().refusal() == Some(AbiCode::InvalidState),
        state.sticky is None && state.output is None && state.calls < state.caps.host_calls
            ==> state.counted().refusal() is None,
{
}

/// A reply is taken exactly where it names a ticket, in the project and at the
/// position that were asked for.
pub proof fn replies_are_to_their_requests(reply: EffectReply, request: EffectView)
    ensures
        reply.answers(request) ==> reply.ordinal == request.ordinal,
        reply.answers(request) ==> reply.response.project@ == request.arguments.project,
        reply.answers(request) ==> reply.response.ticket_id@.len() >= 1,
        reply.ordinal == request.ordinal && reply.response.project@ == request.arguments.project
            && reply.response.ticket_id@.len() >= 1 ==> reply.answers(request),
{
}

/// The numbers that guests see, and the refusal that each failure of the broker
/// becomes.
pub proof fn numbers_are_fixed(code: AbiCode, failure: DispatchFailure)
    ensures
        -7 <= code.as_number() <= -1,
        code.as_number() == -1 <==> code is InvalidMemory,
        code.as_number() == -2 <==> code is Size,
        code.as_number() == -3 <==> code is Policy,
        code.as_number() == -4 <==> code is Unresolved,
        code.as_number() == -5 <==> code is ReplayDivergence,
        code.as_number() == -6 <==> code is InvalidState,
        code.as_number() == -7 <==> code is Unavailable,
        failure.as_code() is Policy <==> failure is Policy,
        failure.as_code() is Unresolved <==> failure is Unresolved,
        failure.as_code() is ReplayDivergence <==> failure is ReplayDivergence,
        failure.as_code() is Unavailable <==> failure is Unavailable,
{
}

/// The length of texts in all grows with each by its length in bytes.
pub proof fn each_text_adds_its_bytes(texts: Seq<Seq<char>>, added: Seq<char>)
    ensures
        total_bytes(Seq::<Seq<char>>::empty()) == 0,
        total_bytes(texts.push(added)) == total_bytes(texts) + text::utf8(added).len(),
{
    assert(texts.push(added).drop_last() =~= texts);
}

/// What a guest state keeps within bounds.
pub proof fn guests_stay_within_their_bounds(state: StateView)
    requires
        state.is_bounded(),
    ensures
        state.input.len() <= 65_536,
        state.output matches Some(output) ==> output.len() <= 65_536,
        total_bytes(state.logs) <= state.caps.log_bytes <= 16_384,
        state.logs.len() <= state.caps.host_calls <= 64,
        state.next_ordinal <= state.max_effects,
        state.sticky is None ==> state.calls <= state.caps.host_calls,
{
}

} // verus!
