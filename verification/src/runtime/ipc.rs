//! The length-prefixed protocol between a supervisor and its runner. The
//! supervisor stops the runner on any error returned here.
use vstd::prelude::*;

use crate::bytes;
use crate::domain::limits::{Limits, LOG_BYTES, MODULE_BYTES, PAYLOAD_BYTES};
use crate::domain::types::EffectRequest;
use crate::encoding;
use crate::encoding::Base64Fault;
use crate::runtime::abi::EffectReply;
use crate::text;

verus! {

pub const START_FRAME_BYTES: usize = 4 * 1024 * 1024;

pub const MESSAGE_FRAME_BYTES: usize = 128 * 1024;

/// The version of the protocol.
pub const PROTOCOL_VERSION: u8 = 1;

/// How many frames a runner may send.
pub const MAX_MESSAGES: u32 = 128;

#[derive(Debug)]
pub enum ProtocolError {
    /// The pipe failed, or a frame was truncated.
    Io(std::io::Error),
    /// A frame or a field exceeds the protocol's cap.
    FrameSize,
    Json(serde_json::Error),
    /// Unknown version or message.
    Message,
    /// Out of sequence, or a message identifier that does not match.
    Sequence,
}

/// What can be wrong with a decoded frame.
pub enum Fault {
    FrameSize,
    Message,
}

impl ProtocolError {
    /// The error reports the fault.
    pub open spec fn reports(self, fault: Fault) -> bool {
        match fault {
            Fault::FrameSize => self is FrameSize,
            Fault::Message => self is Message,
        }
    }
}

/// What is wrong with a base64 text for at most so many bytes.
pub open spec fn base64_fault(value: Seq<char>, maximum: int) -> Option<Fault> {
    if text::utf8(value).len() > encoding::base64_len(maximum) {
        Some(Fault::FrameSize)
    } else if !encoding::is_canonical_base64(value, maximum) {
        Some(Fault::Message)
    } else {
        None
    }
}

/// The bytes behind a canonical base64 text.
pub fn canonical_base64(value: &str, max_bytes: usize) -> (r: Result<Vec<u8>, ProtocolError>)
    requires
        encoding::base64_len(max_bytes as int) <= isize::MAX,
    ensures
        match r {
            Ok(decoded) => {
                &&& base64_fault(value@, max_bytes as int) is None
                &&& decoded@.len() <= max_bytes
                &&& value@ == encoding::base64_text(decoded@)
            },
            Err(error) => {
                &&& base64_fault(value@, max_bytes as int) is Some
                &&& error.reports(base64_fault(value@, max_bytes as int)->0)
            },
        },
{
    match encoding::canonical_base64(value, max_bytes) {
        Ok(decoded) => Ok(decoded),
        Err(Base64Fault::TooLong) => Err(ProtocolError::FrameSize),
        Err(_) => Err(ProtocolError::Message),
    }
}

/// The first frame that a runner gets.
#[derive(Debug)]
pub struct StartFrame {
    pub version: u8,
    pub kind: String,
    pub module_b64: String,
    pub input_b64: String,
    pub limits: Limits,
}

impl StartFrame {
    /// What is wrong with the frame.
    pub open spec fn fault(self) -> Option<Fault> {
        if self.version != PROTOCOL_VERSION || self.kind@ != "start"@ {
            Some(Fault::Message)
        } else if base64_fault(self.module_b64@, MODULE_BYTES as int) is Some {
            base64_fault(self.module_b64@, MODULE_BYTES as int)
        } else {
            base64_fault(self.input_b64@, PAYLOAD_BYTES as int)
        }
    }

    pub fn check(&self) -> (r: Result<(), ProtocolError>)
        ensures
            match r {
                Ok(()) => self.fault() is None,
                Err(error) => self.fault() is Some && error.reports(self.fault()->0),
            },
    {
        if self.version != PROTOCOL_VERSION || !text::text_equal(self.kind.as_str(), "start") {
            return Err(ProtocolError::Message);
        }
        match canonical_base64(self.module_b64.as_str(), MODULE_BYTES) {
            Ok(_) => match canonical_base64(self.input_b64.as_str(), PAYLOAD_BYTES) {
                Ok(_) => Ok(()),
                Err(error) => Err(error),
            },
            Err(error) => Err(error),
        }
    }

    /// The frame that starts a runner on a module and its input.
    pub fn new(module: &[u8], input: &[u8], limits: Limits) -> (r: Result<
        StartFrame,
        ProtocolError,
    >)
        ensures
            match r {
                Ok(start) => {
                    &&& start_fault(module@, input@) is None
                    &&& start.fault() is None
                    &&& start.version == PROTOCOL_VERSION
                    &&& start.kind@ == "start"@
                    &&& start.module_b64@ == encoding::base64_text(module@)
                    &&& start.input_b64@ == encoding::base64_text(input@)
                    &&& start.limits == limits
                },
                Err(error) => {
                    &&& start_fault(module@, input@) is Some
                    &&& error.reports(start_fault(module@, input@)->0)
                },
            },
    {
        if module.len() > MODULE_BYTES {
            return Err(oversize(module.len(), MODULE_BYTES));
        }
        if input.len() > PAYLOAD_BYTES {
            return Err(oversize(input.len(), PAYLOAD_BYTES));
        }
        let module_b64 = encoding::encode_base64(module);
        let input_b64 = encoding::encode_base64(input);
        Ok(
            StartFrame {
                version: PROTOCOL_VERSION,
                kind: text::copy_text("start"),
                module_b64,
                input_b64,
                limits,
            },
        )
    }
}

/// The fault of a byte string that is too long: its text is too long, or, just
/// above the maximum, decodes to too many bytes.
pub open spec fn length_fault(length: int, maximum: int) -> Fault {
    if encoding::base64_len(length) > encoding::base64_len(maximum) {
        Fault::FrameSize
    } else {
        Fault::Message
    }
}

/// Why no start frame can carry a module and its input.
pub open spec fn start_fault(module: Seq<u8>, input: Seq<u8>) -> Option<Fault> {
    if module.len() > MODULE_BYTES {
        Some(length_fault(module.len() as int, MODULE_BYTES as int))
    } else if input.len() > PAYLOAD_BYTES {
        Some(length_fault(input.len() as int, PAYLOAD_BYTES as int))
    } else {
        None
    }
}

fn oversize(length: usize, maximum: usize) -> (r: ProtocolError)
    requires
        length > maximum,
        maximum <= MODULE_BYTES,
    ensures
        r.reports(length_fault(length as int, maximum as int)),
{
    if length > (maximum + 2) / 3 * 3 {
        ProtocolError::FrameSize
    } else {
        ProtocolError::Message
    }
}

/// A frame that a runner sends.
#[derive(Debug)]
pub enum ChildFrame {
    EffectRequest { version: u8, message_id: u64, request: EffectRequest },
    Log { version: u8, message: String },
    Finish { version: u8, output_b64: Option<String>, error_code: Option<String> },
}

/// An effect request of a runner before its own request is parsed. `request`
/// is its text, `decoded` what that text was decoded to.
#[derive(Debug)]
pub struct RawEffectRequestFrame {
    pub version: u8,
    pub kind: String,
    pub message_id: u64,
    pub request: String,
    pub decoded: Result<EffectRequest, serde_json::Error>,
}

impl ChildFrame {
    pub open spec fn version_of(self) -> u8 {
        match self {
            ChildFrame::EffectRequest { version, .. } => version,
            ChildFrame::Log { version, .. } => version,
            ChildFrame::Finish { version, .. } => version,
        }
    }

    /// What is wrong with the frame.
    pub open spec fn fault(self) -> Option<Fault> {
        if self.version_of() != PROTOCOL_VERSION {
            Some(Fault::Message)
        } else {
            match self {
                ChildFrame::EffectRequest { request, .. } => if request@.first_invalid() is None {
                    None
                } else {
                    Some(Fault::Message)
                },
                ChildFrame::Log { message, .. } => if text::utf8(message@).len() <= LOG_BYTES {
                    None
                } else {
                    Some(Fault::Message)
                },
                ChildFrame::Finish { output_b64, error_code, .. } => if output_b64 is Some
                    && error_code is Some {
                    Some(Fault::Message)
                } else if output_b64 is Some {
                    base64_fault(output_b64->0@, PAYLOAD_BYTES as int)
                } else if error_code is Some && !text::is_error_code(error_code->0@) {
                    Some(Fault::Message)
                } else {
                    None
                },
            }
        }
    }

    fn version(&self) -> (r: u8)
        ensures
            r == self.version_of(),
    {
        match self {
            ChildFrame::EffectRequest { version, .. } => *version,
            ChildFrame::Log { version, .. } => *version,
            ChildFrame::Finish { version, .. } => *version,
        }
    }

    /// Whether the frame may be acted upon.
    pub fn check(&self) -> (r: Result<(), ProtocolError>)
        ensures
            match r {
                Ok(()) => self.fault() is None,
                Err(error) => self.fault() is Some && error.reports(self.fault()->0),
            },
    {
        if self.version() != PROTOCOL_VERSION {
            return Err(ProtocolError::Message);
        }
        match self {
            ChildFrame::EffectRequest { request, .. } => match request.validate() {
                Ok(()) => Ok(()),
                Err(_) => Err(ProtocolError::Message),
            },
            ChildFrame::Log { message, .. } => if text::byte_len(message.as_str()) <= LOG_BYTES {
                Ok(())
            } else {
                Err(ProtocolError::Message)
            },
            ChildFrame::Finish { output_b64, error_code, .. } => match (output_b64, error_code) {
                (Some(_), Some(_)) => Err(ProtocolError::Message),
                (Some(output), None) => match canonical_base64(output.as_str(), PAYLOAD_BYTES) {
                    Ok(_) => Ok(()),
                    Err(error) => Err(error),
                },
                (None, Some(code)) => if text::error_code_text(code.as_str()) {
                    Ok(())
                } else {
                    Err(ProtocolError::Message)
                },
                (None, None) => Ok(()),
            },
        }
    }
}

/// The answer to an effect request.
#[derive(Debug)]
pub struct EffectResponseFrame {
    pub version: u8,
    pub kind: String,
    pub message_id: u64,
    pub response: EffectResponse,
}

#[derive(Debug)]
pub enum EffectResponse {
    Committed { reply: EffectReply },
    Failed { code: i32 },
}

impl EffectResponseFrame {
    /// Of the known version and kind, and a failure has a code that a guest
    /// may see.
    pub open spec fn is_sound(self) -> bool {
        &&& self.version == PROTOCOL_VERSION
        &&& self.kind@ == "effect_response"@
        &&& self.response matches EffectResponse::Failed { code } ==> -7 <= code <= -3
    }

    pub fn check(&self) -> (r: Result<(), ProtocolError>)
        ensures
            match r {
                Ok(()) => self.is_sound(),
                Err(error) => error is Message && !self.is_sound(),
            },
    {
        if self.version != PROTOCOL_VERSION || !text::text_equal(
            self.kind.as_str(),
            "effect_response",
        ) {
            return Err(ProtocolError::Message);
        }
        if let EffectResponse::Failed { code } = &self.response {
            if *code < -7 || *code > -3 {
                return Err(ProtocolError::Message);
            }
        }
        Ok(())
    }
}

/// A frame on the wire: four bytes of length, then the body.
pub open spec fn frame_bytes(body: Seq<u8>) -> Seq<u8> {
    bytes::be32(body.len() as u32) + body
}

/// The length of the body that a header announces, refused before anything is
/// allocated for it.
pub fn frame_length(header: [u8; 4], maximum: usize) -> (r: Result<usize, ProtocolError>)
    ensures
        ({
            let length = bytes::from_be32(header@);
            match r {
                Ok(announced) => announced == length && 0 < length <= maximum,
                Err(error) => error is FrameSize && !(0 < length <= maximum),
            }
        }),
{
    let length: u32 = ((header[0] as u32) << 24) | ((header[1] as u32) << 16) | ((header[2] as u32)
        << 8) | (header[3] as u32);
    if length == 0 || length as usize > maximum {
        return Err(ProtocolError::FrameSize);
    }
    Ok(length as usize)
}

/// The bytes of a frame with a given body.
pub fn write_frame(body: &[u8], maximum: usize) -> (r: Result<Vec<u8>, ProtocolError>)
    ensures
        match r {
            Ok(framed) => {
                &&& 0 < body@.len() <= maximum
                &&& body@.len() <= u32::MAX
                &&& framed@ == frame_bytes(body@)
            },
            Err(error) => {
                &&& error is FrameSize
                &&& body@.len() == 0 || body@.len() > maximum || body@.len() > u32::MAX
            },
        },
{
    if body.len() == 0 || body.len() > maximum || body.len() > u32::MAX as usize {
        return Err(ProtocolError::FrameSize);
    }
    let mut out: Vec<u8> = Vec::new();
    bytes::push_be32(&mut out, body.len() as u32);
    bytes::push_bytes(&mut out, body);
    assert(out@ =~= frame_bytes(body@));
    Ok(out)
}

/// What was written as a frame is read back: the header announces the body's
/// length, and the body follows.
pub proof fn written_frame_reads_back(body: Seq<u8>)
    requires
        body.len() <= u32::MAX,
    ensures
        bytes::from_be32(frame_bytes(body).take(4)) == body.len(),
        frame_bytes(body).skip(4) == body,
{
    assert(frame_bytes(body).take(4) =~= bytes::be32(body.len() as u32));
    assert(frame_bytes(body).skip(4) =~= body);
    bytes::be32_reads_back(body.len() as u32);
}

/// Admit the start frame that was read.
pub fn read_start(decoded: Result<StartFrame, ProtocolError>) -> (r: Result<
    StartFrame,
    ProtocolError,
>)
    ensures
        match decoded {
            Err(error) => r == decoded,
            Ok(start) => match r {
                Ok(admitted) => admitted == start && start.fault() is None,
                Err(error) => start.fault() is Some && error.reports(start.fault()->0),
            },
        },
{
    match decoded {
        Ok(start) => match start.check() {
            Ok(()) => Ok(start),
            Err(error) => Err(error),
        },
        Err(error) => Err(error),
    }
}

/// The view of an optional text.
pub open spec fn optional_text(value: Option<String>) -> Option<Seq<char>> {
    match value {
        Some(value) => Some(value@),
        None => None,
    }
}

/// The text that a JSON document has under a key: none of the first where it
/// is not JSON, none of the second where there is no text under the key.
pub uninterp spec fn json_text(document: Seq<u8>, key: Seq<char>) -> Option<Option<Seq<char>>>;

/// Calls `serde_json::from_slice` for a `serde_json::Value`, and its `get` and
/// `as_str`. Claimed: the text is a function of the document and the key.
#[verifier::external_body]
fn read_json_text(document: &[u8], key: &str) -> (r: Result<Option<String>, serde_json::Error>)
    ensures
        match r {
            Ok(value) => json_text(document@, key@) == Some(optional_text(value)),
            Err(_) => json_text(document@, key@) is None,
        },
{
    let document: serde_json::Value = serde_json::from_slice(document)?;
    Ok(document.get(key).and_then(|value| value.as_str()).map(|value| value.to_owned()))
}

/// Which decoder a runner's frame is for.
#[derive(Clone, Copy, Debug, PartialEq, Eq, Structural)]
pub enum ChildKind {
    EffectRequest,
    Other,
}

/// The kind that the type of a frame says.
pub fn kind_of(kind: Option<String>) -> (r: Result<ChildKind, ProtocolError>)
    ensures
        match kind {
            None => r is Err && r->Err_0 is Message,
            Some(kind) => r == Ok::<ChildKind, ProtocolError>(
                if kind@ == "effect_request"@ {
                    ChildKind::EffectRequest
                } else {
                    ChildKind::Other
                },
            ),
        },
{
    match kind {
        None => Err(ProtocolError::Message),
        Some(kind) => if text::text_equal(kind.as_str(), "effect_request") {
            Ok(ChildKind::EffectRequest)
        } else {
            Ok(ChildKind::Other)
        },
    }
}

/// The kind of a runner's frame.
pub fn child_kind(body: &[u8]) -> (r: Result<ChildKind, ProtocolError>)
    ensures
        match json_text(body@, "type"@) {
            None => r is Err && r->Err_0 is Json,
            Some(None) => r is Err && r->Err_0 is Message,
            Some(Some(kind)) => r == Ok::<ChildKind, ProtocolError>(
                if kind == "effect_request"@ {
                    ChildKind::EffectRequest
                } else {
                    ChildKind::Other
                },
            ),
        },
{
    match read_json_text(body, "type") {
        Ok(kind) => kind_of(kind),
        Err(error) => Err(ProtocolError::Json(error)),
    }
}

/// A runner's frame as its decoder left it.
#[derive(Debug)]
pub enum DecodedChild {
    EffectRequest(Result<RawEffectRequestFrame, serde_json::Error>),
    Other(Result<ChildFrame, serde_json::Error>),
}

impl RawEffectRequestFrame {
    /// The request within is of the right kind, short enough, and valid.
    pub open spec fn is_sound(self) -> bool {
        &&& self.version == PROTOCOL_VERSION
        &&& self.kind@ == "effect_request"@
        &&& text::utf8(self.request@).len() <= crate::domain::limits::EFFECT_REQUEST_BYTES
        &&& self.decoded matches Ok(request) && request@.first_invalid() is None
    }
}

/// Admit the runner's frame that was read.
pub fn read_child(decoded: DecodedChild) -> (r: Result<ChildFrame, ProtocolError>)
    ensures
        match decoded {
            DecodedChild::EffectRequest(Err(error)) => r == Err::<ChildFrame, ProtocolError>(
                ProtocolError::Json(error),
            ),
            DecodedChild::EffectRequest(Ok(raw)) => if raw.is_sound() {
                r == Ok::<ChildFrame, ProtocolError>(
                    ChildFrame::EffectRequest {
                        version: raw.version,
                        message_id: raw.message_id,
                        request: raw.decoded->Ok_0,
                    },
                )
            } else {
                r is Err && r->Err_0 is Message
            },
            DecodedChild::Other(Err(error)) => r == Err::<ChildFrame, ProtocolError>(
                ProtocolError::Json(error),
            ),
            DecodedChild::Other(Ok(frame)) => match r {
                Ok(admitted) => admitted == frame && frame.fault() is None,
                Err(error) => frame.fault() is Some && error.reports(frame.fault()->0),
            },
        },
        r matches Ok(frame) ==> frame.fault() is None,
{
    let frame = match decoded {
        DecodedChild::EffectRequest(Err(error)) => return Err(ProtocolError::Json(error)),
        DecodedChild::EffectRequest(Ok(raw)) => {
            if !text::text_equal(raw.kind.as_str(), "effect_request") {
                return Err(ProtocolError::Message);
            }
            match EffectRequest::parse(raw.request.as_str().as_bytes(), raw.decoded) {
                Ok(request) => ChildFrame::EffectRequest {
                    version: raw.version,
                    message_id: raw.message_id,
                    request,
                },
                Err(_) => return Err(ProtocolError::Message),
            }
        },
        DecodedChild::Other(Err(error)) => return Err(ProtocolError::Json(error)),
        DecodedChild::Other(Ok(frame)) => frame,
    };
    match frame.check() {
        Ok(()) => Ok(frame),
        Err(error) => Err(error),
    }
}

/// The supervisor's side of one runner. A new effect is accepted only after the
/// previous one was answered; nothing else comes while one is outstanding.
#[derive(Debug)]
pub struct ParentSequence {
    next_id: u64,
    pending: Option<u64>,
    finished: bool,
    log_bytes: usize,
    log_cap: usize,
    messages: u32,
}

/// The supervisor's side of one runner.
pub struct SequenceView {
    /// The identifier of the next effect.
    pub next_id: u64,
    /// The effect that waits for its answer.
    pub pending: Option<u64>,
    pub finished: bool,
    pub log_bytes: usize,
    pub log_cap: usize,
    pub messages: u32,
}

impl View for ParentSequence {
    type V = SequenceView;

    closed spec fn view(&self) -> SequenceView {
        SequenceView {
            next_id: self.next_id,
            pending: self.pending,
            finished: self.finished,
            log_bytes: self.log_bytes,
            log_cap: self.log_cap,
            messages: self.messages,
        }
    }
}

impl SequenceView {
    /// A runner that has said nothing.
    pub open spec fn initial(log_cap: usize) -> SequenceView {
        SequenceView {
            next_id: 1,
            pending: None,
            finished: false,
            log_bytes: 0,
            log_cap,
            messages: 0,
        }
    }

    /// What every sequence keeps: identifiers count the effects from one, the
    /// one outstanding is the last, and the logs are within their cap.
    pub open spec fn is_sound(self) -> bool {
        &&& 1 <= self.next_id <= self.messages + 1
        &&& self.pending matches Some(id) ==> id + 1 == self.next_id
        &&& self.finished ==> self.pending is None
        &&& self.log_bytes <= self.log_cap <= LOG_BYTES
    }

    /// With one more frame counted.
    pub open spec fn counted(self) -> SequenceView {
        SequenceView {
            messages: if self.messages == u32::MAX {
                u32::MAX
            } else {
                (self.messages + 1) as u32
            },
            ..self
        }
    }

    /// The frame may come now: the runner has not finished nor sent too much,
    /// no effect is outstanding, an effect has the next identifier, and a log
    /// fits its cap.
    pub open spec fn expects(self, frame: ChildFrame) -> bool {
        &&& !self.finished
        &&& self.messages < MAX_MESSAGES
        &&& self.pending is None
        &&& match frame {
            ChildFrame::EffectRequest { message_id, .. } => message_id == self.next_id,
            ChildFrame::Log { message, .. } => self.log_bytes + text::utf8(message@).len()
                <= self.log_cap,
            ChildFrame::Finish { .. } => true,
        }
    }

    /// After an expected frame.
    pub open spec fn observed(self, frame: ChildFrame) -> SequenceView {
        let counted = self.counted();
        match frame {
            ChildFrame::EffectRequest { message_id, .. } => SequenceView {
                pending: Some(message_id),
                next_id: (self.next_id + 1) as u64,
                ..counted
            },
            ChildFrame::Log { message, .. } => SequenceView {
                log_bytes: (self.log_bytes + text::utf8(message@).len()) as usize,
                ..counted
            },
            ChildFrame::Finish { .. } => SequenceView { finished: true, ..counted },
        }
    }

    /// After the answer to the outstanding effect.
    pub open spec fn answered(self) -> SequenceView {
        SequenceView { pending: None, ..self }
    }
}

impl ParentSequence {
    #[verifier::type_invariant]
    closed spec fn inv(self) -> bool {
        self@.is_sound()
    }

    pub fn new() -> (r: ParentSequence)
        ensures
            r@ == SequenceView::initial(LOG_BYTES),
    {
        ParentSequence {
            next_id: 1,
            pending: None,
            finished: false,
            log_bytes: 0,
            log_cap: LOG_BYTES,
            messages: 0,
        }
    }

    pub fn with_log_cap(log_cap: usize) -> (r: Result<ParentSequence, ProtocolError>)
        ensures
            match r {
                Ok(sequence) => 0 < log_cap <= LOG_BYTES && sequence@ == SequenceView::initial(
                    log_cap,
                ),
                Err(error) => error is FrameSize && !(0 < log_cap <= LOG_BYTES),
            },
    {
        if log_cap == 0 || log_cap > LOG_BYTES {
            return Err(ProtocolError::FrameSize);
        }
        Ok(
            ParentSequence {
                next_id: 1,
                pending: None,
                finished: false,
                log_bytes: 0,
                log_cap,
                messages: 0,
            },
        )
    }

    /// The effect that waits for its answer.
    pub fn pending_id(&self) -> (r: Option<u64>)
        ensures
            r == self@.pending,
    {
        self.pending
    }

    /// Take in a frame of the runner. One that is not expected is counted and refused.
    pub fn observe(&mut self, frame: &ChildFrame) -> (r: Result<(), ProtocolError>)
        ensures
            old(self)@.is_sound(),
            final(self)@.is_sound(),
            match r {
                Ok(()) => old(self)@.expects(*frame) && final(self)@ == old(self)@.observed(*frame),
                Err(error) => {
                    &&& error is Sequence
                    &&& !old(self)@.expects(*frame)
                    &&& final(self)@ == old(self)@.counted()
                },
            },
    {
        proof {
            use_type_invariant(&*self);
        }
        self.messages = self.messages.saturating_add(1);
        if self.finished || self.messages > MAX_MESSAGES || self.pending.is_some() {
            return Err(ProtocolError::Sequence);
        }
        match frame {
            ChildFrame::EffectRequest { message_id, .. } => {
                if *message_id != self.next_id {
                    return Err(ProtocolError::Sequence);
                }
                self.next_id = self.next_id + 1;
                self.pending = Some(*message_id);
            },
            ChildFrame::Log { message, .. } => {
                let length: usize = text::byte_len(message.as_str());
                if length > self.log_cap - self.log_bytes {
                    return Err(ProtocolError::Sequence);
                }
                self.log_bytes = self.log_bytes + length;
            },
            ChildFrame::Finish { .. } => {
                self.finished = true;
            },
        }
        Ok(())
    }

    /// Answer the outstanding effect.
    pub fn respond(&mut self, response: &EffectResponseFrame) -> (r: Result<(), ProtocolError>)
        ensures
            match r {
                Ok(()) => {
                    &&& response.is_sound()
                    &&& old(self)@.pending == Some(response.message_id)
                    &&& final(self)@ == old(self)@.answered()
                },
                Err(error) => {
                    &&& final(self)@ == old(self)@
                    &&& if response.is_sound() {
                        error is Sequence && old(self)@.pending != Some(response.message_id)
                    } else {
                        error is Message
                    }
                },
            },
    {
        proof {
            use_type_invariant(&*self);
        }
        match response.check() {
            Ok(()) => {},
            Err(error) => return Err(error),
        }
        match self.pending {
            Some(id) => if id != response.message_id {
                return Err(ProtocolError::Sequence);
            },
            None => return Err(ProtocolError::Sequence),
        }
        self.pending = None;
        Ok(())
    }
}

impl Default for ParentSequence {
    fn default() -> (r: ParentSequence)
        ensures
            r@ == SequenceView::initial(LOG_BYTES),
    {
        ParentSequence::new()
    }
}

/// While an effect is outstanding, and once the runner has finished, no frame
/// of any kind is expected.
pub proof fn outstanding_effect_or_finish_bars_every_frame(
    sequence: SequenceView,
    frame: ChildFrame,
)
    requires
        sequence.pending is Some || sequence.finished,
    ensures
        !sequence.expects(frame),
        sequence.counted().pending == sequence.pending,
        sequence.counted().finished == sequence.finished,
{
}

/// An effect is outstanding from its request to its answer, and then the next
/// identifier is expected.
pub proof fn effects_are_answered_in_turn(
    sequence: SequenceView,
    message_id: u64,
    first: ChildFrame,
    second: ChildFrame,
)
    requires
        sequence.is_sound(),
        first matches ChildFrame::EffectRequest { message_id: id, .. } && id == message_id,
        sequence.expects(first),
        second is EffectRequest,
    ensures
        sequence.observed(first).pending == Some(message_id),
        !sequence.observed(first).expects(second),
        sequence.observed(first).answered().expects(second) ==> second->EffectRequest_message_id
            == message_id + 1,
{
}

/// A runner is heard a bounded number of times: once it has sent its share, no
/// frame is expected, and the share is used up by one with each frame.
pub proof fn messages_are_bounded(sequence: SequenceView, frame: ChildFrame)
    ensures
        sequence.messages >= MAX_MESSAGES ==> !sequence.expects(frame),
        sequence.expects(frame) ==> sequence.observed(frame).messages == sequence.messages + 1,
{
}

/// A module of up to 2 MiB with an input of up to 64 KiB can be sent, and nothing
/// larger; a text that is too long is a matter of the frame's size.
pub proof fn start_frames_carry_what_fits(module: Seq<u8>, input: Seq<u8>)
    ensures
        start_fault(module, input) is None <==> module.len() <= 2_097_152 && input.len() <= 65_536,
        module.len() > 2_097_155 ==> (start_fault(module, input) matches Some(fault)
            && fault is FrameSize),
        module.len() <= 2_097_152 && input.len() > 65_538 ==> (start_fault(
            module,
            input,
        ) matches Some(fault) && fault is FrameSize),
{
}

/// A base64 text is taken exactly where it is canonical; one that is too long for
/// its bytes is a matter of the frame's size.
pub proof fn texts_are_taken_where_canonical(value: Seq<char>, maximum: int)
    requires
        0 <= maximum,
    ensures
        base64_fault(value, maximum) is None <==> encoding::is_canonical_base64(value, maximum),
        (base64_fault(value, maximum) matches Some(fault) && fault is FrameSize)
            <==> text::utf8(value).len() > 4 * ((maximum + 2) / 3),
{
}

/// A start frame is taken exactly where it is of version one and its kind, and
/// its module and input are canonical texts of at most 2 MiB and 64 KiB.
pub proof fn start_frames_are_taken_on_their_terms(start: StartFrame)
    ensures
        start.fault() is None <==> {
            &&& start.version == 1
            &&& start.kind@ == "start"@
            &&& encoding::is_canonical_base64(start.module_b64@, 2_097_152)
            &&& encoding::is_canonical_base64(start.input_b64@, 65_536)
        },
{
    texts_are_taken_where_canonical(start.module_b64@, 2_097_152);
    texts_are_taken_where_canonical(start.input_b64@, 65_536);
}

/// A runner's frame is taken exactly where it is of version one, and asks for a
/// valid effect, logs at most 16 KiB, or ends with an output of at most 64 KiB or
/// an error code, not both.
pub proof fn runner_frames_are_taken_on_their_terms(frame: ChildFrame)
    ensures
        frame matches ChildFrame::EffectRequest { version, request, .. } ==> (
        frame.fault() is None <==> version == 1 && request@.first_invalid() is None),
        frame matches ChildFrame::Log { version, message } ==> (frame.fault() is None <==> version
            == 1 && text::utf8(message@).len() <= 16_384),
        frame matches ChildFrame::Finish { version, output_b64, error_code } ==> (
        frame.fault() is None <==> {
            &&& version == 1
            &&& output_b64 is None || error_code is None
            &&& output_b64 matches Some(output) ==> encoding::is_canonical_base64(output@, 65_536)
            &&& error_code matches Some(code) ==> text::is_error_code(code@)
        }),
{
    if let ChildFrame::Finish { output_b64, .. } = frame {
        if output_b64 is Some {
            texts_are_taken_where_canonical(output_b64->0@, 65_536);
        }
    }
}

/// An answer is sound exactly where it is of version one and its kind, and a
/// failure in it has one of the five numbers that a broker's failure can have.
pub proof fn answers_are_sound_on_their_terms(frame: EffectResponseFrame)
    ensures
        frame.is_sound() <==> {
            &&& frame.version == 1
            &&& frame.kind@ == "effect_response"@
            &&& frame.response is Committed || (-8 < frame.response->Failed_code
                && frame.response->Failed_code < -2)
        },
{
}

/// A raw request is taken exactly where it is of version one and its kind, takes
/// at most 16 KiB, and was decoded to a valid request.
pub proof fn raw_requests_are_taken_on_their_terms(raw: RawEffectRequestFrame)
    ensures
        raw.is_sound() ==> raw.version == 1 && raw.kind@ == "effect_request"@ && text::utf8(
            raw.request@,
        ).len() <= 16_384 && raw.decoded is Ok,
        raw.version == 1 && raw.kind@ == "effect_request"@ && text::utf8(raw.request@).len()
            <= 16_384 && raw.decoded is Ok && raw.decoded->Ok_0@.first_invalid() is None
            ==> raw.is_sound(),
        raw.is_sound() ==> raw.decoded->Ok_0@.first_invalid() is None,
{
}

/// A frame on the wire is four bytes longer than its body.
pub proof fn frames_add_four_bytes(body: Seq<u8>)
    requires
        body.len() <= u32::MAX,
    ensures
        frame_bytes(body).len() == body.len() + 4,
        frame_bytes(body).take(4) == bytes::be32(body.len() as u32),
{
    assert(frame_bytes(body).take(4) =~= bytes::be32(body.len() as u32));
}

/// A runner is heard in turn: while it has not ended, waits for nothing and has
/// sent fewer than 128 frames, its last word is always taken, a log where it
/// fits, and a request where it has the next identifier.
pub proof fn runners_are_heard_in_turn(sequence: SequenceView, frame: ChildFrame)
    ensures
        sequence.expects(frame) ==> !sequence.finished && sequence.pending is None
            && sequence.messages < 128,
        !sequence.finished && sequence.pending is None && sequence.messages < 128 ==> {
            &&& frame is Finish ==> sequence.expects(frame)
            &&& frame matches ChildFrame::Log { message, .. } ==> (sequence.expects(frame)
                <==> sequence.log_bytes + text::utf8(message@).len() <= sequence.log_cap)
            &&& frame matches ChildFrame::EffectRequest { message_id, .. } ==> (sequence.expects(
                frame,
            ) <==> message_id == sequence.next_id)
        },
{
}

/// What a frame changes of a sequence: each is counted, a request waits and moves
/// the next identifier on, a log adds its bytes, a last word ends it; and an
/// answer leaves nothing waiting. The rest stays.
pub proof fn frames_change_their_own_part(sequence: SequenceView, frame: ChildFrame)
    requires
        sequence.is_sound(),
        sequence.expects(frame),
    ensures
        ({
            let after = sequence.observed(frame);
            &&& after.messages == sequence.messages + 1
            &&& after.log_cap == sequence.log_cap
            &&& frame is Finish <==> after.finished
            &&& frame is EffectRequest <==> after.pending is Some
            &&& after.next_id == sequence.next_id + (if frame is EffectRequest {
                1int
            } else {
                0
            })
            &&& frame is EffectRequest ==> after.pending == Some(sequence.next_id)
            &&& after.log_bytes == sequence.log_bytes + (if frame is Log {
                text::utf8(frame->Log_message@).len() as int
            } else {
                0
            })
            &&& after.answered().pending is None
            &&& after.answered().next_id == after.next_id
            &&& after.answered().messages == after.messages
            &&& after.answered().log_bytes == after.log_bytes
            &&& after.answered().finished == after.finished
        }),
{
}

/// A sequence begins with identifier one, nothing counted and nothing waiting,
/// and what every sequence keeps then holds.
pub proof fn sequences_begin_at_one(log_cap: usize)
    requires
        log_cap <= 16_384,
    ensures
        ({
            let begun = SequenceView::initial(log_cap);
            &&& begun.next_id == 1 && begun.messages == 0 && begun.log_bytes == 0
            &&& begun.pending is None && !begun.finished
            &&& begun.log_cap == log_cap
            &&& begun.is_sound()
        }),
{
}

/// What every sequence keeps.
pub proof fn sequences_keep_their_bounds(sequence: SequenceView)
    requires
        sequence.is_sound(),
    ensures
        1 <= sequence.next_id <= sequence.messages + 1,
        sequence.pending matches Some(id) ==> id == sequence.next_id - 1,
        sequence.log_bytes <= sequence.log_cap <= 16_384,
        sequence.finished ==> sequence.pending is None,
{
}

/// What is far above its maximum makes a frame too long; what is above it by so
/// little that its text is no longer is at fault as a message.
pub proof fn too_many_bytes_are_at_fault_by_their_text(length: int, maximum: int)
    requires
        0 <= maximum < length,
    ensures
        length > maximum + 2 ==> length_fault(length, maximum) == Fault::FrameSize,
        (length + 2) / 3 == (maximum + 2) / 3 ==> length_fault(length, maximum) == Fault::Message,
        maximum % 3 == 0 ==> length_fault(length, maximum) == Fault::FrameSize,
{
}

/// Each frame of a runner has the version that it was sent with.
pub proof fn frames_have_their_own_version(frame: ChildFrame)
    ensures
        frame is EffectRequest ==> frame.version_of() == frame->EffectRequest_version,
        frame is Log ==> frame.version_of() == frame->Log_version,
        frame is Finish ==> frame.version_of() == frame->Finish_version,
{
}

} // verus!
