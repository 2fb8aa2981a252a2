//! Requests as callers write them, and the form in which they are admitted.
use vstd::prelude::*;

use crate::domain::limits::{Limits, EFFECT_REQUEST_BYTES, MAX_EFFECTS, PAYLOAD_BYTES};
use crate::encoding;
use crate::encoding::Base64Fault;
use crate::ids;
use crate::ids::Uuid;
use crate::text;

verus! {

/// The error of a JSON decoder.
#[verifier::external_type_specification]
#[verifier::external_body]
pub struct ExJsonError(serde_json::Error);

/// A request that is not admitted.
#[derive(Debug)]
pub enum ValidationError {
    /// The named part is invalid.
    Invalid(&'static str),
    /// Not JSON of the expected shape.
    Json(serde_json::Error),
}

impl ValidationError {
    /// The named part is what is invalid.
    pub open spec fn blames(self, part: Seq<char>) -> bool {
        self matches ValidationError::Invalid(named) && named@ == part
    }
}

/// Whether a name is 1 to 64 ASCII letters, digits, `_` or `-`.
pub fn alias(value: &str) -> (r: bool)
    ensures
        r == text::is_alias(value@),
{
    text::alias_text(value)
}

#[derive(Debug)]
pub struct TicketArguments {
    pub project: String,
    pub title: String,
    pub body: String,
}

/// An effect that a guest asks for.
#[derive(Debug)]
pub struct EffectRequest {
    pub ordinal: u64,
    pub action: String,
    pub destination: String,
    pub arguments: TicketArguments,
}

/// What a ticket request says, as text.
pub struct TicketView {
    pub project: Seq<char>,
    pub title: Seq<char>,
    pub body: Seq<char>,
}

/// What an effect request says.
pub struct EffectView {
    pub ordinal: u64,
    pub action: Seq<char>,
    pub destination: Seq<char>,
    pub arguments: TicketView,
}

impl View for TicketArguments {
    type V = TicketView;

    open spec fn view(&self) -> TicketView {
        TicketView { project: self.project@, title: self.title@, body: self.body@ }
    }
}

impl View for EffectRequest {
    type V = EffectView;

    open spec fn view(&self) -> EffectView {
        EffectView {
            ordinal: self.ordinal,
            action: self.action@,
            destination: self.destination@,
            arguments: self.arguments@,
        }
    }
}

impl Clone for TicketArguments {
    fn clone(&self) -> (r: TicketArguments)
        ensures
            r@ == self@,
    {
        TicketArguments {
            project: self.project.clone(),
            title: self.title.clone(),
            body: self.body.clone(),
        }
    }
}

impl Clone for EffectRequest {
    fn clone(&self) -> (r: EffectRequest)
        ensures
            r@ == self@,
    {
        EffectRequest {
            ordinal: self.ordinal,
            action: self.action.clone(),
            destination: self.destination.clone(),
            arguments: self.arguments.clone(),
        }
    }
}

impl EffectView {
    /// The first part of the request that breaks a rule.
    pub open spec fn first_invalid(self) -> Option<Seq<char>> {
        if self.ordinal >= MAX_EFFECTS {
            Some("ordinal"@)
        } else if self.action != "ticket.create"@ {
            Some("action"@)
        } else if !text::is_alias(self.destination) || !text::is_alias(self.arguments.project) {
            Some("destination/project"@)
        } else if !(1 <= self.arguments.title.len() <= 200) || text::utf8(
            self.arguments.title,
        ).len() > 800 {
            Some("title"@)
        } else if text::utf8(self.arguments.body).len() > 8192 {
            Some("body"@)
        } else {
            None
        }
    }
}

impl EffectRequest {
    pub fn validate(&self) -> (r: Result<(), ValidationError>)
        ensures
            match r {
                Ok(()) => self@.first_invalid() is None,
                Err(ValidationError::Invalid(part)) => self@.first_invalid() == Some(part@),
                Err(ValidationError::Json(_)) => false,
            },
    {
        if self.ordinal >= MAX_EFFECTS {
            return Err(ValidationError::Invalid("ordinal"));
        }
        if !text::text_equal(self.action.as_str(), "ticket.create") {
            return Err(ValidationError::Invalid("action"));
        }
        if !alias(self.destination.as_str()) || !alias(self.arguments.project.as_str()) {
            return Err(ValidationError::Invalid("destination/project"));
        }
        let title = self.arguments.title.as_str();
        let count: usize = title.unicode_len();
        if count == 0 || count > 200 || text::byte_len(title) > 800 {
            return Err(ValidationError::Invalid("title"));
        }
        if text::byte_len(self.arguments.body.as_str()) > 8192 {
            return Err(ValidationError::Invalid("body"));
        }
        Ok(())
    }

    /// Admit the request that `bytes` were decoded to. The size of the bytes is
    /// judged before what they hold.
    pub fn parse(bytes: &[u8], decoded: Result<EffectRequest, serde_json::Error>) -> (r: Result<
        EffectRequest,
        ValidationError,
    >)
        ensures
            bytes@.len() > EFFECT_REQUEST_BYTES ==> r is Err && r->Err_0.blames("request size"@),
            bytes@.len() <= EFFECT_REQUEST_BYTES ==> match decoded {
                Err(error) => r == Err::<EffectRequest, ValidationError>(
                    ValidationError::Json(error),
                ),
                Ok(request) => match r {
                    Ok(admitted) => admitted == request && request@.first_invalid() is None,
                    Err(ValidationError::Invalid(part)) => request@.first_invalid() == Some(part@),
                    Err(ValidationError::Json(_)) => false,
                },
            },
    {
        if bytes.len() > EFFECT_REQUEST_BYTES {
            return Err(ValidationError::Invalid("request size"));
        }
        match decoded {
            Err(error) => Err(ValidationError::Json(error)),
            Ok(request) => match request.validate() {
                Ok(()) => Ok(request),
                Err(error) => Err(error),
            },
        }
    }
}

/// A run as a caller asks for it.
#[derive(Debug)]
pub struct RunCreate {
    pub module_digest: String,
    pub grant_id: String,
    pub input_b64: String,
    pub limits: Limits,
}

/// A run as it is admitted.
#[derive(Debug)]
pub struct NormalizedRun {
    pub module_digest: [u8; 32],
    pub grant_id: Uuid,
    pub input: Vec<u8>,
    pub limits: Limits,
}

impl RunCreate {
    /// The first part of the request that breaks a rule, given the identifier
    /// that the grant's text was read as, the bytes that the input's text was
    /// decoded to, and the text that those bytes encode to.
    pub open spec fn first_invalid(
        self,
        caps: Limits,
        id: Option<u128>,
        decoded: Option<Seq<u8>>,
        encoded: Seq<char>,
    ) -> Option<Seq<char>> {
        if !is_digest_text(self.module_digest@) {
            Some("digest"@)
        } else if id is None {
            Some("grant_id"@)
        } else if ids::hyphenated(id->0) != self.grant_id@ {
            Some("canonical grant_id"@)
        } else if text::utf8(self.input_b64@).len() > encoding::base64_len(PAYLOAD_BYTES as int) {
            Some("input size"@)
        } else if decoded is None {
            Some("base64"@)
        } else if decoded->0.len() > PAYLOAD_BYTES || encoded != self.input_b64@ {
            Some("canonical base64"@)
        } else if self.limits.first_violation(caps) is Some {
            Some("limits"@)
        } else {
            None
        }
    }

    /// The texts of the request are the canonical texts of what was admitted.
    pub open spec fn normalizes_to(self, run: NormalizedRun) -> bool {
        &&& text::utf8(self.module_digest@) == hex_bytes(run.module_digest@)
        &&& self.grant_id@ == ids::hyphenated(run.grant_id.value)
        &&& self.input_b64@ == encoding::base64_text(run.input@)
        &&& run.input@.len() <= PAYLOAD_BYTES
        &&& self.limits == run.limits
    }

    /// Admit a request whose texts have been read.
    pub fn normalize_decoded(
        self,
        caps: Limits,
        id: Option<Uuid>,
        decoded: Option<Vec<u8>>,
        encoded: &str,
    ) -> (r: Result<NormalizedRun, ValidationError>)
        ensures
            ({
                let blamed = self.first_invalid(
                    caps,
                    ids::optional_value(id),
                    encoding::optional_bytes(decoded),
                    encoded@,
                );
                match r {
                    Err(error) => blamed is Some && error.blames(blamed->0),
                    Ok(run) => {
                        &&& blamed is None
                        &&& hex_bytes(run.module_digest@) == text::utf8(self.module_digest@)
                        &&& id == Some(run.grant_id)
                        &&& decoded == Some(run.input)
                        &&& run.limits == self.limits
                    },
                }
            }),
    {
        let module_digest = match digest_bytes(self.module_digest.as_str()) {
            Ok(digest) => digest,
            Err(error) => return Err(error),
        };
        let grant_id = match id {
            Some(id) => id,
            None => return Err(ValidationError::Invalid("grant_id")),
        };
        let canonical = grant_id.to_text();
        if !text::text_equal(canonical.as_str(), self.grant_id.as_str()) {
            return Err(ValidationError::Invalid("canonical grant_id"));
        }
        let input = match encoding::judge_base64(
            self.input_b64.as_str(),
            PAYLOAD_BYTES,
            decoded,
            encoded,
        ) {
            Ok(input) => input,
            Err(Base64Fault::TooLong) => return Err(ValidationError::Invalid("input size")),
            Err(Base64Fault::Undecodable) => return Err(ValidationError::Invalid("base64")),
            Err(Base64Fault::NotCanonical) => {
                return Err(ValidationError::Invalid("canonical base64"));
            },
        };
        match self.limits.validate(caps) {
            Ok(limits) => Ok(NormalizedRun { module_digest, grant_id, input, limits }),
            Err(_) => Err(ValidationError::Invalid("limits")),
        }
    }

    /// Admit a request within the operator's caps. Every text must be canonical.
    pub fn normalize(self, caps: Limits) -> (r: Result<NormalizedRun, ValidationError>)
        ensures
            ({
                let id = ids::parsed_uuid(self.grant_id@);
                let decoded = encoding::base64_bytes(self.input_b64@);
                let blamed = self.first_invalid(
                    caps,
                    id,
                    decoded,
                    encoding::base64_text(decoded->0),
                );
                match r {
                    Err(error) => blamed is Some && error.blames(blamed->0),
                    Ok(run) => blamed is None && self.normalizes_to(run),
                }
            }),
            r is Ok <==> {
                &&& is_digest_text(self.module_digest@)
                &&& ids::is_canonical_id(self.grant_id@)
                &&& encoding::is_canonical_base64(self.input_b64@, PAYLOAD_BYTES as int)
                &&& self.limits.first_violation(caps) is None
            },
    {
        let id = match ids::parse_uuid(self.grant_id.as_str()) {
            Some(value) => Some(Uuid { value }),
            None => None,
        };
        if text::byte_len(self.input_b64.as_str()) > (PAYLOAD_BYTES + 2) / 3 * 4 {
            return self.normalize_decoded(caps, id, None, "");
        }
        match encoding::decode_base64(self.input_b64.as_str()) {
            None => self.normalize_decoded(caps, id, None, ""),
            Some(decoded) => {
                if decoded.len() > PAYLOAD_BYTES {
                    return self.normalize_decoded(caps, id, Some(decoded), "");
                }
                let encoded = encoding::encode_base64(decoded.as_slice());
                self.normalize_decoded(caps, id, Some(decoded), encoded.as_str())
            },
        }
    }
}

/// Two requests admitted as the same run say the same: there is one text for
/// each admitted run.
pub proof fn admitted_run_determines_request(a: RunCreate, b: RunCreate, run: NormalizedRun)
    requires
        a.normalizes_to(run),
        b.normalizes_to(run),
    ensures
        a.module_digest@ == b.module_digest@,
        a.grant_id@ == b.grant_id@,
        a.input_b64@ == b.input_b64@,
        a.limits == b.limits,
{
    text::utf8_is_injective(a.module_digest@, b.module_digest@);
}

/// The byte of a lower-case hexadecimal digit.
pub open spec fn hex_byte(nibble: u8) -> u8 {
    if nibble < 10 {
        (0x30 + nibble) as u8
    } else {
        (0x57 + nibble) as u8
    }
}

/// The two lower-case hexadecimal digits of each byte, in order.
pub open spec fn hex_bytes(bytes: Seq<u8>) -> Seq<u8> {
    Seq::new(
        2 * bytes.len(),
        |i: int| hex_byte(if i % 2 == 0 { bytes[i / 2] / 16 } else { bytes[i / 2] % 16 }),
    )
}

/// The lower-case hexadecimal text of a byte string.
pub open spec fn hex_text(bytes: Seq<u8>) -> Seq<char> {
    Seq::new(2 * bytes.len(), |i: int| hex_bytes(bytes)[i] as char)
}

/// Hexadecimal text is ASCII: its UTF-8 bytes are its digits.
pub proof fn hex_text_is_ascii(bytes: Seq<u8>)
    ensures
        text::utf8(hex_text(bytes)) == hex_bytes(bytes),
{
    let chars = hex_text(bytes);
    assert forall|i: int| 0 <= i < chars.len() implies chars[i] as u8 == hex_bytes(bytes)[i]
        && 0 <= chars[i] as u32 <= 127 by {
        let b = if i % 2 == 0 {
            bytes[i / 2] / 16
        } else {
            bytes[i / 2] % 16
        };
        assert(b < 16);
        assert(hex_bytes(bytes)[i] == hex_byte(b as u8));
    }
    vstd::utf8::is_ascii_chars_encode_utf8(chars);
    assert(text::utf8(chars) =~= hex_bytes(bytes));
}

/// The text of a SHA-256 digest: 64 lower-case hexadecimal digits.
pub open spec fn is_digest_text(value: Seq<char>) -> bool {
    &&& text::utf8(value).len() == 64
    &&& forall|i: int| 0 <= i < 64 ==> text::is_hex_digit(#[trigger] text::utf8(value)[i])
}

fn nibble(b: u8) -> (r: u8)
    requires
        text::is_hex_digit(b),
    ensures
        r < 16,
        hex_byte(r) == b,
{
    if b <= 0x39 {
        b - 0x30
    } else {
        b - 0x61 + 10
    }
}

/// The 32 bytes that a digest's text stands for.
pub fn digest_bytes(value: &str) -> (r: Result<[u8; 32], ValidationError>)
    ensures
        r is Ok <==> is_digest_text(value@),
        r matches Ok(digest) ==> hex_bytes(digest@) == text::utf8(value@),
        r matches Err(error) ==> error.blames("digest"@),
{
    let bytes = value.as_bytes();
    if bytes.len() != 64 {
        return Err(ValidationError::Invalid("digest"));
    }
    let mut out: [u8; 32] = [0u8; 32];
    let mut i: usize = 0;
    while i < 32
        invariant
            i <= 32,
            bytes@ == text::utf8(value@),
            bytes@.len() == 64,
            forall|k: int| 0 <= k < 2 * i ==> text::is_hex_digit(bytes@[k]),
            forall|k: int| 0 <= k < 2 * i ==> hex_bytes(out@)[k] == bytes@[k],
        decreases 32 - i,
    {
        let high: u8 = bytes[2 * i];
        let low: u8 = bytes[2 * i + 1];
        let high_ok = (0x30 <= high && high <= 0x39) || (0x61 <= high && high <= 0x66);
        let low_ok = (0x30 <= low && low <= 0x39) || (0x61 <= low && low <= 0x66);
        if !high_ok {
            assert(!text::is_hex_digit(text::utf8(value@)[2 * i as int]));
            return Err(ValidationError::Invalid("digest"));
        }
        if !low_ok {
            assert(!text::is_hex_digit(text::utf8(value@)[2 * i + 1]));
            return Err(ValidationError::Invalid("digest"));
        }
        let ghost before = out@;
        out[i] = nibble(high) * 16 + nibble(low);
        proof {
            assert forall|k: int| 0 <= k < 2 * (i + 1) implies hex_bytes(out@)[k] == bytes@[k] by {
                if k < 2 * i {
                    assert(hex_bytes(before)[k] == bytes@[k]);
                }
            }
        }
        i = i + 1;
    }
    assert(hex_bytes(out@) =~= text::utf8(value@));
    Ok(out)
}

/// Different byte strings have different hexadecimal texts.
pub proof fn hex_is_injective(a: Seq<u8>, b: Seq<u8>)
    requires
        hex_bytes(a) == hex_bytes(b),
    ensures
        a == b,
{
    assert(2 * a.len() == hex_bytes(a).len() == hex_bytes(b).len() == 2 * b.len());
    assert forall|i: int| 0 <= i < a.len() implies a[i] == b[i] by {
        assert(hex_bytes(a)[2 * i] == hex_bytes(b)[2 * i]);
        assert(hex_bytes(a)[2 * i + 1] == hex_bytes(b)[2 * i + 1]);
        assert((2 * i) / 2 == i && (2 * i + 1) / 2 == i && (2 * i) % 2 == 0 && (2 * i + 1) % 2
            == 1);
        assert(hex_bytes(a)[2 * i] == hex_byte((a[i] / 16) as u8));
        assert(hex_bytes(b)[2 * i] == hex_byte((b[i] / 16) as u8));
        assert(hex_bytes(a)[2 * i + 1] == hex_byte((a[i] % 16) as u8));
        assert(hex_bytes(b)[2 * i + 1] == hex_byte((b[i] % 16) as u8));
        assert(a[i] / 16 == b[i] / 16);
        assert(a[i] % 16 == b[i] % 16);
    }
    assert(a =~= b);
}

/// Reading the text of a digest gives the digest back.
pub proof fn digest_text_reads_back(digest: Seq<u8>, value: Seq<char>)
    requires
        digest.len() == 32,
        text::utf8(value) == hex_bytes(digest),
    ensures
        is_digest_text(value),
        forall|read: Seq<u8>| #[trigger] hex_bytes(read) == text::utf8(value) ==> read == digest,
{
    assert forall|i: int| 0 <= i < 64 implies text::is_hex_digit(
        #[trigger] text::utf8(value)[i],
    ) by {
        assert(hex_bytes(digest)[i] == text::utf8(value)[i]);
    }
    assert forall|read: Seq<u8>| #[trigger] hex_bytes(read) == text::utf8(value) implies read
        == digest by {
        hex_is_injective(read, digest);
    }
}

/// A digest's text is 64 characters, each a digit or one of the first six small
/// letters, and nothing else is one.
pub proof fn digest_texts_are_lower_case(value: Seq<char>)
    ensures
        is_digest_text(value) <==> {
            &&& value.len() == 64
            &&& forall|i: int|
                0 <= i < value.len() ==> ('0' <= #[trigger] value[i] <= '9' || 'a' <= value[i]
                    <= 'f')
        },
{
    let is_hex = forall|i: int|
        0 <= i < value.len() ==> ('0' <= #[trigger] value[i] <= '9' || 'a' <= value[i] <= 'f');
    if is_digest_text(value) {
        text::ascii_bytes_are_ascii_text(value);
    }
    if is_digest_text(value) || is_hex {
        vstd::utf8::is_ascii_chars_encode_utf8(value);
        assert forall|i: int| 0 <= i < value.len() implies text::utf8(value)[i]
            == #[trigger] value[i] as u8 by {
        }
    }
}

/// Each byte is written as two digits, the one that weighs sixteen first.
pub proof fn bytes_are_written_as_two_digits(bytes: Seq<u8>, i: int)
    requires
        0 <= i < bytes.len(),
    ensures
        hex_text(bytes).len() == 2 * bytes.len(),
        hex_text(bytes)[2 * i] == "0123456789abcdef"@[bytes[i] as int / 16],
        hex_text(bytes)[2 * i + 1] == "0123456789abcdef"@[bytes[i] as int % 16],
{
    reveal_strlit("0123456789abcdef");
    assert((2 * i) / 2 == i && (2 * i) % 2 == 0 && (2 * i + 1) / 2 == i && (2 * i + 1) % 2 == 1);
    assert(hex_bytes(bytes)[2 * i] == hex_byte((bytes[i] / 16) as u8));
    assert(hex_bytes(bytes)[2 * i + 1] == hex_byte((bytes[i] % 16) as u8));
}

/// A request to create a ticket at one of the first eight positions is valid,
/// whatever it is about, as long as its names are aliases, its title has 1 to
/// 200 characters in at most 800 bytes, and its body at most 8192 bytes.
pub proof fn requests_within_bounds_are_valid(request: EffectView)
    ensures
        request.first_invalid() is None <==> {
            &&& request.ordinal <= 7
            &&& request.action == "ticket.create"@
            &&& text::is_alias(request.destination)
            &&& text::is_alias(request.arguments.project)
            &&& 0 < request.arguments.title.len() < 201
            &&& text::utf8(request.arguments.title).len() < 801
            &&& text::utf8(request.arguments.body).len() < 8193
        },
{
}

/// The part of a request that is blamed is at fault, and those judged before it
/// are not.
pub proof fn blamed_part_is_at_fault(request: EffectView, part: Seq<char>)
    requires
        request.first_invalid() == Some(part),
    ensures
        part == "ordinal"@ <==> request.ordinal > 7,
        part == "action"@ ==> request.action != "ticket.create"@,
        part == "destination/project"@ ==> request.action == "ticket.create"@ && !(text::is_alias(
            request.destination,
        ) && text::is_alias(request.arguments.project)),
        part == "title"@ ==> {
            &&& text::is_alias(request.destination)
            &&& text::is_alias(request.arguments.project)
            &&& request.arguments.title.len() == 0 || request.arguments.title.len() > 200
                || text::utf8(request.arguments.title).len() > 800
        },
        part == "body"@ ==> {
            &&& text::utf8(request.arguments.body).len() > 8192
            &&& 1 <= request.arguments.title.len() <= 200
        },
        part == "ordinal"@ || part == "action"@ || part == "destination/project"@ || part
            == "title"@ || part == "body"@,
{
    reveal_strlit("ordinal");
    reveal_strlit("action");
    reveal_strlit("destination/project");
    reveal_strlit("title");
    reveal_strlit("body");
    assert("ordinal"@.len() == 7 && "action"@.len() == 6 && "destination/project"@.len() == 19
        && "title"@.len() == 5 && "body"@.len() == 4);
}

/// The part of a run's request that is blamed is at fault, in the order in which
/// the parts are read.
pub proof fn blamed_part_of_a_run_is_at_fault(
    create: RunCreate,
    caps: Limits,
    id: Option<u128>,
    decoded: Option<Seq<u8>>,
    encoded: Seq<char>,
    part: Seq<char>,
)
    requires
        create.first_invalid(caps, id, decoded, encoded) == Some(part),
    ensures
        part == "digest"@ <==> !is_digest_text(create.module_digest@),
        part == "grant_id"@ ==> id is None,
        part == "canonical grant_id"@ ==> id is Some && ids::hyphenated(id->0) != create.grant_id@,
        part == "input size"@ ==> text::utf8(create.input_b64@).len() > 87_384,
        part == "base64"@ ==> decoded is None,
        part == "canonical base64"@ ==> decoded is Some && (decoded->0.len() > 65_536 || encoded
            != create.input_b64@),
        part == "limits"@ ==> create.limits.first_violation(caps) is Some && decoded is Some
            && decoded->0.len() <= 65_536 && encoded == create.input_b64@ && id is Some
            && ids::hyphenated(id->0) == create.grant_id@,
{
    reveal_strlit("digest");
    reveal_strlit("grant_id");
    reveal_strlit("canonical grant_id");
    reveal_strlit("input size");
    reveal_strlit("base64");
    reveal_strlit("canonical base64");
    reveal_strlit("limits");
    assert("digest"@[0] == 'd' && "base64"@[0] == 'b' && "limits"@[0] == 'l');
    assert("digest"@.len() == 6 && "grant_id"@.len() == 8 && "canonical grant_id"@.len() == 18
        && "input size"@.len() == 10 && "base64"@.len() == 6 && "canonical base64"@.len() == 16
        && "limits"@.len() == 6);
}

/// A run whose digest, grant and input are canonical, whose input is at most 64
/// KiB and whose limits are within the caps is not refused.
pub proof fn canonical_runs_are_not_refused(
    create: RunCreate,
    caps: Limits,
    id: u128,
    input: Seq<u8>,
)
    requires
        is_digest_text(create.module_digest@),
        create.grant_id@ == ids::hyphenated(id),
        input.len() <= 65_536,
        text::utf8(create.input_b64@).len() <= 87_384,
        1 <= create.limits.fuel <= caps.fuel,
        1 <= create.limits.memory_bytes <= caps.memory_bytes,
        create.limits.memory_bytes <= 67_108_864,
        1 <= create.limits.wall_ms <= caps.wall_ms,
        1 <= create.limits.max_effects <= caps.max_effects,
        create.limits.max_effects <= 8,
    ensures
        create.first_invalid(caps, Some(id), Some(input), create.input_b64@) is None,
{
    crate::domain::limits::limits_within_caps_are_accepted(create.limits, caps);
}

/// What was admitted is what was asked for: nothing of a request is changed on
/// its way, and its input is within 64 KiB.
pub proof fn admitted_run_says_what_was_asked(create: RunCreate, run: NormalizedRun)
    requires
        create.normalizes_to(run),
    ensures
        run.limits == create.limits,
        create.input_b64@ == encoding::base64_text(run.input@),
        create.grant_id@ == ids::hyphenated(run.grant_id.value),
        text::utf8(create.module_digest@) == hex_bytes(run.module_digest@),
        run.input@.len() <= 65_536,
{
}

/// An error blames the part that it names and no other.
pub proof fn errors_blame_one_part(failed: ValidationError, a: Seq<char>, b: Seq<char>)
    ensures
        failed.blames(a) <==> failed is Invalid && failed->Invalid_0@ == a,
        failed.blames(a) && failed.blames(b) ==> a == b,
{
}

} // verus!
