//! What requests are answered at the admission boundary. The tenant comes from
//! the operator's mapping alone.
use vstd::prelude::*;

use crate::control::auth::{Principal, PrincipalView, Principals};
use crate::control::auth;
use crate::control::config;
use crate::control::grants::Bounds;
use crate::domain::hash::hex;
use crate::domain::limits::Limits;
use crate::domain::types;
use crate::domain::types::{NormalizedRun, RunCreate};
use crate::encoding;
use crate::ids::Uuid;
use crate::runtime::validate;
use crate::store::admission;
use crate::store::scheduler::{ClaimPolicy, ReapPolicy};
use crate::store::{AdmissionKind, EffectRecord, PutModule, RunRecord, StoreError};
use crate::text;

verus! {

/// A refusal, as it is sent.
#[derive(Clone, Copy, Debug)]
pub struct ApiError {
    pub status: u16,
    pub code: &'static str,
    pub message: &'static str,
    pub retryable: bool,
    /// Ask the caller to come back after a second.
    pub retry_after: bool,
}

impl ApiError {
    /// The refusal is this one, and asks for nothing but what it says.
    pub open spec fn says(
        self,
        status: u16,
        code: Seq<char>,
        message: Seq<char>,
        retryable: bool,
    ) -> bool {
        &&& self.status == status
        &&& self.code@ == code
        &&& self.message@ == message
        &&& self.retryable == retryable
        &&& !self.retry_after
    }

    /// The refusal of a run for which there is no room now.
    pub open spec fn is_queue_full(self) -> bool {
        &&& self.status == 429
        &&& self.code@ == "QUEUE_FULL"@
        &&& self.message@ == "Pending run capacity is exhausted"@
        &&& self.retryable
        &&& self.retry_after
    }
}

/// A refusal.
pub fn error(status: u16, code: &'static str, message: &'static str, retryable: bool) -> (r:
    ApiError)
    ensures
        r.says(status, code@, message@, retryable),
{
    ApiError { status, code, message, retryable, retry_after: false }
}

/// The code of a JSON body that was refused with a status.
pub open spec fn rejection_code(status: u16) -> Seq<char> {
    if status == 413 {
        "BODY_TOO_LARGE"@
    } else if status == 415 {
        "INVALID_MEDIA_TYPE"@
    } else {
        "INVALID_JSON"@
    }
}

/// The refusal of a JSON body.
pub fn json_rejection(status: u16, message: &'static str) -> (r: ApiError)
    ensures
        r.says(status, rejection_code(status), message@, false),
{
    let code: &'static str = if status == 413 {
        "BODY_TOO_LARGE"
    } else if status == 415 {
        "INVALID_MEDIA_TYPE"
    } else {
        "INVALID_JSON"
    };
    error(status, code, message, false)
}

/// What requests are judged by.
#[derive(Debug)]
pub struct ApiState {
    pub caps: Limits,
    pub max_pending_global: u64,
    pub max_pending_tenant: u64,
    pub grant_bounds: Bounds,
    pub lease_ms: u64,
    pub max_active_global: u8,
    pub max_active_per_tenant: u8,
    pub max_attempts: u8,
}

impl ApiState {
    pub fn new(configuration: &config::Config) -> (r: ApiState)
        ensures
            r.caps == (Limits {
                fuel: configuration.limits.fuel,
                memory_bytes: configuration.limits.memory_bytes,
                wall_ms: configuration.limits.wall_ms,
                max_effects: configuration.limits.max_effects,
            }),
            r.max_pending_global == configuration.limits.max_pending_global,
            r.max_pending_tenant == configuration.limits.max_pending_per_tenant,
            r.grant_bounds.bounds(configuration.adapters@),
            r.lease_ms == configuration.limits.lease_ms,
            r.max_active_global == configuration.limits.max_active_global as u8,
            r.max_active_per_tenant == configuration.limits.max_active_per_tenant as u8,
            r.max_attempts == configuration.limits.max_attempts as u8,
    {
        let limits = &configuration.limits;
        ApiState {
            caps: Limits {
                fuel: limits.fuel,
                memory_bytes: limits.memory_bytes,
                wall_ms: limits.wall_ms,
                max_effects: limits.max_effects,
            },
            max_pending_global: limits.max_pending_global,
            max_pending_tenant: limits.max_pending_per_tenant,
            grant_bounds: Bounds::from_config(&configuration.adapters),
            lease_ms: limits.lease_ms,
            max_active_global: limits.max_active_global as u8,
            max_active_per_tenant: limits.max_active_per_tenant as u8,
            max_attempts: limits.max_attempts as u8,
        }
    }

    /// The policy under which workers claim runs.
    pub fn claim_policy(&self) -> (r: ClaimPolicy)
        ensures
            r == (ClaimPolicy {
                max_active_global: self.max_active_global,
                max_active_per_tenant: self.max_active_per_tenant,
                max_attempts: self.max_attempts,
                lease_ms: self.lease_ms,
            }),
    {
        ClaimPolicy {
            max_active_global: self.max_active_global,
            max_active_per_tenant: self.max_active_per_tenant,
            max_attempts: self.max_attempts,
            lease_ms: self.lease_ms,
        }
    }

    /// The policy under which expired leases are reaped.
    pub fn reap_policy(&self) -> (r: ReapPolicy)
        ensures
            r == (ReapPolicy {
                max_attempts: self.max_attempts,
                max_pending_global: self.max_pending_global,
                max_pending_tenant: self.max_pending_tenant,
            }),
    {
        ReapPolicy {
            max_attempts: self.max_attempts,
            max_pending_global: self.max_pending_global,
            max_pending_tenant: self.max_pending_tenant,
        }
    }
}

/// An accepted configuration gives the store policies and caps that it takes,
/// and caps for guests that are valid.
pub proof fn accepted_configuration_gives_valid_policies(limits: config::Limits)
    requires
        limits.is_valid(),
    ensures
        (ClaimPolicy {
            max_active_global: limits.max_active_global as u8,
            max_active_per_tenant: limits.max_active_per_tenant as u8,
            max_attempts: limits.max_attempts as u8,
            lease_ms: limits.lease_ms,
        }).is_valid(),
        (ReapPolicy {
            max_attempts: limits.max_attempts as u8,
            max_pending_global: limits.max_pending_global,
            max_pending_tenant: limits.max_pending_per_tenant,
        }).is_valid(),
        admission::are_queue_caps(limits.max_pending_global, limits.max_pending_per_tenant),
        ({
            let caps = Limits {
                fuel: limits.fuel,
                memory_bytes: limits.memory_bytes,
                wall_ms: limits.wall_ms,
                max_effects: limits.max_effects,
            };
            caps.first_violation(caps) is None
        }),
{
}

/// What is sent for a stored module.
#[derive(Debug)]
pub struct ModuleResponse {
    pub digest: String,
    pub size_bytes: usize,
    pub abi_version: u8,
}

/// A module that may be stored.
#[derive(Clone, Copy, Debug)]
pub struct Upload {
    pub tenant: Uuid,
    pub digest: [u8; 32],
}

/// Why an upload is refused: by its media type, its role, its body, or as a
/// module, in this order.
pub open spec fn upload_refusal(
    principal: PrincipalView,
    content_type: Option<Seq<u8>>,
    body: Result<Seq<u8>, u16>,
    refusal: ApiError,
) -> bool {
    if content_type != Some(text::utf8("application/wasm"@)) {
        refusal.says(415, "INVALID_MEDIA_TYPE"@, "Expected application/wasm"@, false)
    } else if principal.own_tenant() is None {
        refusal.says(403, "FORBIDDEN"@, "Role is not permitted"@, false)
    } else {
        match body {
            Err(status) => refusal.says(status, if status == 413 {
                    "BODY_TOO_LARGE"@
                } else {
                    "INVALID_BODY"@
                }, "Module body is invalid"@, false),
            Ok(wasm) => !validate::is_abi_module(wasm) && refusal.says(422, "INVALID_MODULE"@, "Module does not implement EffectLatch ABI v1"@, false),
        }
    }
}

/// The view of an optional byte string.
pub open spec fn optional_slice(bytes: Option<&[u8]>) -> Option<Seq<u8>> {
    match bytes {
        Some(bytes) => Some(bytes@),
        None => None,
    }
}

/// The view of a body, or the status with which it was refused.
pub open spec fn body_view(body: Result<&[u8], u16>) -> Result<Seq<u8>, u16> {
    match body {
        Ok(body) => Ok(body@),
        Err(status) => Err(status),
    }
}

/// Judge an upload: the tenant and the digest under which it is to be stored.
pub fn upload_module(
    principal: &Principal,
    content_type: Option<&[u8]>,
    body: Result<&[u8], u16>,
) -> (r: Result<Upload, ApiError>)
    ensures
        match r {
            Ok(upload) => {
                &&& optional_slice(content_type) == Some(text::utf8("application/wasm"@))
                &&& principal@.own_tenant() == Some(upload.tenant)
                &&& body is Ok
                &&& validate::is_abi_module(body->Ok_0@)
                &&& upload.digest@ == encoding::sha256(body->Ok_0@)
            },
            Err(refusal) => upload_refusal(
                principal@,
                optional_slice(content_type),
                body_view(body),
                refusal,
            ),
        },
{
    let is_wasm = match content_type {
        Some(content_type) => text::bytes_equal(content_type, "application/wasm".as_bytes()),
        None => false,
    };
    if !is_wasm {
        return Err(error(415, "INVALID_MEDIA_TYPE", "Expected application/wasm", false));
    }
    let tenant = match principal.tenant() {
        Ok(tenant) => tenant,
        Err(_) => return Err(error(403, "FORBIDDEN", "Role is not permitted", false)),
    };
    let wasm = match body {
        Ok(wasm) => wasm,
        Err(status) => {
            let code: &'static str = if status == 413 {
                "BODY_TOO_LARGE"
            } else {
                "INVALID_BODY"
            };
            return Err(error(status, code, "Module body is invalid", false));
        },
    };
    match validate::validate(wasm) {
        Ok(()) => {},
        Err(_) => {
            return Err(
                error(
                    422,
                    "INVALID_MODULE",
                    "Module does not implement EffectLatch ABI v1",
                    false,
                ),
            );
        },
    }
    Ok(Upload { tenant, digest: encoding::sha256_digest(wasm) })
}

/// What an upload is answered once the store has been asked.
pub fn module_stored(
    stored: Result<PutModule, StoreError>,
    digest: &[u8; 32],
    size_bytes: usize,
) -> (r: Result<(u16, ModuleResponse), ApiError>)
    ensures
        match stored {
            Ok(kind) => r matches Ok((status, response)) && {
                &&& status == (if kind == PutModule::Created {
                    201u16
                } else {
                    200u16
                })
                &&& response.digest@ == types::hex_text(digest@)
                &&& response.size_bytes == size_bytes
                &&& response.abi_version == 1
            },
            Err(_) => r is Err && r->Err_0.says(503, "STORE_UNAVAILABLE"@, "Module could not be stored"@, true),
        },
{
    match stored {
        Ok(kind) => {
            let status: u16 = if kind == PutModule::Created {
                201
            } else {
                200
            };
            Ok(
                (
                    status,
                    ModuleResponse { digest: hex(digest.as_slice()), size_bytes, abi_version: 1 },
                ),
            )
        },
        Err(_) => Err(error(503, "STORE_UNAVAILABLE", "Module could not be stored", true)),
    }
}

/// An effect as it is sent.
#[derive(Debug)]
pub struct EffectView {
    pub ordinal: i32,
    pub state: String,
    pub request_hash: String,
    pub provider_key: String,
    pub send_attempts: i32,
}

/// A run as it is sent.
#[derive(Debug)]
pub struct RunView {
    pub id: Uuid,
    pub state: String,
    pub module_digest: String,
    pub grant_id: Uuid,
    pub created_at: String,
    pub updated_at: String,
    pub lease_epoch: i64,
    pub attempt: i32,
    pub cancel_requested: bool,
    pub output_b64: Option<String>,
    pub error_code: Option<String>,
    pub effects: Vec<EffectView>,
}

impl EffectView {
    /// The view shows the effect, its hash in hexadecimal.
    pub open spec fn shows(self, effect: EffectRecord) -> bool {
        &&& self.ordinal == effect.ordinal
        &&& self.state == effect.state
        &&& self.request_hash@ == types::hex_text(effect.request_hash@)
        &&& self.provider_key == effect.provider_key
        &&& self.send_attempts == effect.send_attempts
    }
}

impl RunView {
    /// The view shows the run: its digests in hexadecimal, its output in base64.
    pub open spec fn shows(self, run: RunRecord) -> bool {
        &&& self.id == run.id
        &&& self.state == run.state
        &&& self.module_digest@ == types::hex_text(run.module_digest@)
        &&& self.grant_id == run.grant_id
        &&& self.created_at == run.created_at
        &&& self.updated_at == run.updated_at
        &&& self.lease_epoch == run.lease_epoch
        &&& self.attempt == run.attempt
        &&& self.cancel_requested == run.cancel_requested
        &&& self.output_b64 is Some == run.output is Some
        &&& self.output_b64 matches Some(shown) ==> shown@ == encoding::base64_text(run.output->0@)
        &&& self.error_code == run.error_code
        &&& self.effects@.len() == run.effects@.len()
        &&& forall|i: int|
            0 <= i < run.effects@.len() ==> (#[trigger] self.effects@[i]).shows(run.effects@[i])
    }

    /// The view of a run. The bound on its output is that of an allocation.
    pub fn from_record(run: RunRecord) -> (r: RunView)
        requires
            run.output matches Some(output) ==> encoding::base64_len(output@.len() as int)
                <= isize::MAX,
        ensures
            r.shows(run),
    {
        let module_digest = hex(run.module_digest.as_slice());
        let output_b64 = match &run.output {
            Some(output) => Some(encoding::encode_base64(output.as_slice())),
            None => None,
        };
        let ghost stored = run.effects@;
        let records = run.effects;
        let mut effects: Vec<EffectView> = Vec::new();
        for effect in iter: records
            invariant
                stored == records@,
                iter.seq() == stored,
                effects@.len() == iter.index(),
                forall|k: int| 0 <= k < effects@.len() ==> (#[trigger] effects@[k]).shows(stored[k]),
        {
            assert(effect == stored[effects@.len() as int]);
            let request_hash = hex(effect.request_hash.as_slice());
            effects.push(
                EffectView {
                    ordinal: effect.ordinal,
                    state: effect.state,
                    request_hash,
                    provider_key: effect.provider_key,
                    send_attempts: effect.send_attempts,
                },
            );
        }
        RunView {
            id: run.id,
            state: run.state,
            module_digest,
            grant_id: run.grant_id,
            created_at: run.created_at,
            updated_at: run.updated_at,
            lease_epoch: run.lease_epoch,
            attempt: run.attempt,
            cancel_requested: run.cancel_requested,
            output_b64,
            error_code: run.error_code,
            effects,
        }
    }
}

/// A run that may be admitted.
#[derive(Debug)]
pub struct RunRequest {
    pub tenant: Uuid,
    pub key: String,
    pub request: NormalizedRun,
}

/// The one idempotency key among the headers, each `None` where it is not text.
pub open spec fn only_key(keys: Seq<Option<String>>) -> Option<Seq<char>> {
    if keys.len() == 1 && keys[0] is Some && admission::is_key(keys[0]->0@) {
        Some(keys[0]->0@)
    } else {
        None
    }
}

/// What is said of headers that hold no idempotency key.
pub open spec fn key_refusal(keys: Seq<Option<String>>) -> Seq<char> {
    if keys.len() != 1 {
        "Exactly one Idempotency-Key is required"@
    } else {
        "Idempotency-Key must be 1..128 visible ASCII bytes"@
    }
}

/// The request says a canonical run within the caps.
pub open spec fn is_run(create: RunCreate, caps: Limits) -> bool {
    &&& types::is_digest_text(create.module_digest@)
    &&& crate::ids::is_canonical_id(create.grant_id@)
    &&& encoding::is_canonical_base64(
        create.input_b64@,
        crate::domain::limits::PAYLOAD_BYTES as int,
    )
    &&& create.limits.first_violation(caps) is None
}

/// Judge a request for a run: by its role, its key, its body, what it says and
/// the grant it names, in this order.
pub fn create_run(
    principal: &Principal,
    keys: &[Option<String>],
    body: Result<RunCreate, u16>,
    caps: Limits,
) -> (r: Result<RunRequest, ApiError>)
    ensures
        if principal@.own_tenant() is None {
            r is Err && r->Err_0.says(403, "FORBIDDEN"@, "Role is not permitted"@, false)
        } else if only_key(keys@) is None {
            r is Err && r->Err_0.says(400, "INVALID_IDEMPOTENCY_KEY"@, key_refusal(keys@), false)
        } else {
            match body {
                Err(status) => r is Err && r->Err_0.says(status, rejection_code(status), "Run body is invalid"@, false),
                Ok(create) => if !is_run(create, caps) {
                    r is Err && r->Err_0.says(422, "INVALID_RUN"@, "Run request is invalid"@, false)
                } else {
                    match r {
                        Ok(run) => {
                            &&& principal@.own_tenant() == Some(run.tenant)
                            &&& only_key(keys@) == Some(run.key@)
                            &&& create.normalizes_to(run.request)
                            &&& principal@.may_use_grant(run.tenant, run.request.grant_id)
                        },
                        Err(refusal) => {
                            &&& refusal.says(403, "FORBIDDEN"@, "Grant is not permitted"@, false)
                            &&& exists|run: NormalizedRun|
                                {
                                    &&& #[trigger] create.normalizes_to(run)
                                    &&& !principal@.may_use_grant(
                                        principal@.own_tenant()->0,
                                        run.grant_id,
                                    )
                                }
                        },
                    }
                },
            }
        },
{
    let tenant = match principal.tenant() {
        Ok(tenant) => tenant,
        Err(_) => return Err(error(403, "FORBIDDEN", "Role is not permitted", false)),
    };
    if keys.len() != 1 {
        return Err(
            error(
                400,
                "INVALID_IDEMPOTENCY_KEY",
                "Exactly one Idempotency-Key is required",
                false,
            ),
        );
    }
    let key = match &keys[0] {
        Some(value) => {
            let length: usize = text::byte_len(value.as_str());
            if length == 0 || length > 128 || !text::graphic_text(value.as_str()) {
                return Err(invalid_key());
            }
            text::copy_text(value.as_str())
        },
        None => return Err(invalid_key()),
    };
    let create = match body {
        Ok(create) => create,
        Err(status) => return Err(json_rejection(status, "Run body is invalid")),
    };
    let request = match create.normalize(caps) {
        Ok(request) => request,
        Err(_) => return Err(error(422, "INVALID_RUN", "Run request is invalid", false)),
    };
    if !principal.permits_grant(tenant, request.grant_id) {
        assert(create.normalizes_to(request));
        return Err(error(403, "FORBIDDEN", "Grant is not permitted", false));
    }
    Ok(RunRequest { tenant, key, request })
}

fn invalid_key() -> (r: ApiError)
    ensures
        r.says(400, "INVALID_IDEMPOTENCY_KEY"@, "Idempotency-Key must be 1..128 visible ASCII bytes"@, false),
{
    error(
        400,
        "INVALID_IDEMPOTENCY_KEY",
        "Idempotency-Key must be 1..128 visible ASCII bytes",
        false,
    )
}

/// What a request for a run is answered once the store has been asked: the
/// status of the run's view, or a refusal.
pub fn run_admitted(admitted: Result<AdmissionKind, StoreError>) -> (r: Result<u16, ApiError>)
    ensures
        match admitted {
            Ok(AdmissionKind::Created) => r == Ok::<u16, ApiError>(202),
            Ok(AdmissionKind::Existing) => r == Ok::<u16, ApiError>(200),
            Err(StoreError::IdempotencyConflict) => r is Err && r->Err_0.says(
                409,
                "IDEMPOTENCY_CONFLICT"@,
                "Idempotency-Key is bound to another request"@,
                false,
            ),
            Err(StoreError::CapacityExhausted) => r is Err && r->Err_0.is_queue_full(),
            Err(StoreError::ModuleNotFound) => r is Err && r->Err_0.says(
                404,
                "MODULE_NOT_FOUND"@,
                "Module does not exist"@,
                false,
            ),
            Err(StoreError::GrantDenied) => r is Err && r->Err_0.says(
                422,
                "GRANT_DENIED"@,
                "Grant is unavailable"@,
                false,
            ),
            Err(_) => r is Err && r->Err_0.says(
                503,
                "STORE_UNAVAILABLE"@,
                "Run could not be admitted"@,
                true,
            ),
        },
{
    match admitted {
        Ok(AdmissionKind::Created) => Ok(202),
        Ok(AdmissionKind::Existing) => Ok(200),
        Err(StoreError::IdempotencyConflict) => Err(
            error(
                409,
                "IDEMPOTENCY_CONFLICT",
                "Idempotency-Key is bound to another request",
                false,
            ),
        ),
        Err(StoreError::CapacityExhausted) => Err(
            ApiError {
                status: 429,
                code: "QUEUE_FULL",
                message: "Pending run capacity is exhausted",
                retryable: true,
                retry_after: true,
            },
        ),
        Err(StoreError::ModuleNotFound) => Err(
            error(404, "MODULE_NOT_FOUND", "Module does not exist", false),
        ),
        Err(StoreError::GrantDenied) => Err(
            error(422, "GRANT_DENIED", "Grant is unavailable", false),
        ),
        Err(_) => Err(error(503, "STORE_UNAVAILABLE", "Run could not be admitted", true)),
    }
}

/// The principal behind a request's credentials, each `None` where it is not
/// text. Repeated credentials are ambiguous, and refused.
pub fn authenticate<'a>(principals: &'a Principals, credentials: &[Option<String>]) -> (r: Result<
    &'a Principal,
    ApiError,
>)
    ensures
        match r {
            Ok(principal) => {
                &&& credentials@.len() == 1
                &&& credentials@[0] matches Some(credential) && auth::bearer_token(
                    credential@,
                ) matches Some(token) && exists|i: int|
                    {
                        &&& 0 <= i < principals@.len()
                        &&& (#[trigger] principals@[i]).digest == encoding::sha256(token)
                        &&& principals@[i].principal == principal@
                    }
            },
            Err(refusal) => {
                &&& refusal.says(401, "UNAUTHORIZED"@, "Invalid credential"@, false)
                &&& {
                    ||| credentials@.len() != 1
                    ||| credentials@[0] is None
                    ||| auth::bearer_token(credentials@[0]->0@) is None
                    ||| forall|i: int|
                        0 <= i < principals@.len() ==> (#[trigger] principals@[i]).digest
                            != encoding::sha256(auth::bearer_token(credentials@[0]->0@)->0)
                }
            },
        },
{
    if credentials.len() != 1 {
        return Err(error(401, "UNAUTHORIZED", "Invalid credential", false));
    }
    match &credentials[0] {
        Some(credential) => match principals.authenticate(credential.as_str()) {
            Ok(principal) => Ok(principal),
            Err(_) => Err(error(401, "UNAUTHORIZED", "Invalid credential", false)),
        },
        None => Err(error(401, "UNAUTHORIZED", "Invalid credential", false)),
    }
}

/// A refusal says its status, code, message and whether to try again, and nothing
/// of when; only a full queue says when.
pub proof fn refusals_say_what_they_say(
    refusal: ApiError,
    status: u16,
    code: Seq<char>,
    message: Seq<char>,
    retryable: bool,
)
    ensures
        refusal.says(status, code, message, retryable) <==> {
            &&& refusal.status == status
            &&& refusal.code@ == code
            &&& refusal.message@ == message
            &&& refusal.retryable == retryable
            &&& refusal.retry_after == false
        },
        refusal.is_queue_full() ==> !refusal.says(status, code, message, retryable),
        refusal.is_queue_full() <==> {
            &&& refusal.status == 429
            &&& refusal.code@ == "QUEUE_FULL"@
            &&& refusal.message@ == "Pending run capacity is exhausted"@
            &&& refusal.retryable == true
            &&& refusal.retry_after == true
        },
{
}

/// The code of a refused body is by its status: too large, of another type, or
/// not JSON.
pub proof fn refused_bodies_have_their_code(status: u16)
    ensures
        status == 413 ==> rejection_code(status) == "BODY_TOO_LARGE"@,
        status == 415 ==> rejection_code(status) == "INVALID_MEDIA_TYPE"@,
        status != 413 && status != 415 ==> rejection_code(status) == "INVALID_JSON"@,
{
}

/// What an upload is refused for: first its media type, then the role, then its
/// body, and last as a module; none of these is worth trying again as it is.
pub proof fn uploads_are_refused_in_order(
    principal: PrincipalView,
    content_type: Option<Seq<u8>>,
    body: Result<Seq<u8>, u16>,
    refusal: ApiError,
)
    requires
        upload_refusal(principal, content_type, body, refusal),
    ensures
        !refusal.retryable && !refusal.retry_after,
        content_type != Some(text::utf8("application/wasm"@)) ==> refusal.status == 415
            && refusal.code@ == "INVALID_MEDIA_TYPE"@,
        content_type == Some(text::utf8("application/wasm"@)) ==> {
            &&& principal.own_tenant() is None ==> refusal.status == 403 && refusal.code@
                == "FORBIDDEN"@
            &&& principal.own_tenant() is Some && body is Err ==> refusal.status == body->Err_0
            &&& principal.own_tenant() is Some && body is Err && body->Err_0 == 413
                ==> refusal.code@ == "BODY_TOO_LARGE"@
            &&& principal.own_tenant() is Some && body is Err && body->Err_0 != 413
                ==> refusal.code@ == "INVALID_BODY"@
            &&& principal.own_tenant() is Some && body is Ok ==> {
                &&& refusal.status == 422 && refusal.code@ == "INVALID_MODULE"@
                &&& !validate::is_abi_module(body->Ok_0)
            }
        },
{
}

/// A run is shown as it is recorded, its result and each of its effects among it.
pub proof fn runs_are_shown_as_recorded(shown: RunView, run: RunRecord, i: int)
    requires
        shown.shows(run),
    ensures
        shown.id == run.id && shown.state == run.state && shown.grant_id == run.grant_id,
        shown.module_digest@ == types::hex_text(run.module_digest@),
        shown.created_at == run.created_at && shown.updated_at == run.updated_at,
        shown.lease_epoch == run.lease_epoch && shown.attempt == run.attempt,
        shown.cancel_requested == run.cancel_requested,
        shown.error_code == run.error_code,
        run.output is None ==> shown.output_b64 is None,
        run.output is Some ==> shown.output_b64 is Some && shown.output_b64->0@
            == encoding::base64_text(run.output->0@),
        shown.effects@.len() == run.effects@.len(),
        0 <= i < run.effects@.len() ==> {
            &&& shown.effects@[i].ordinal == run.effects@[i].ordinal
            &&& shown.effects@[i].state == run.effects@[i].state
            &&& shown.effects@[i].request_hash@ == types::hex_text(run.effects@[i].request_hash@)
            &&& shown.effects@[i].provider_key == run.effects@[i].provider_key
            &&& shown.effects@[i].send_attempts == run.effects@[i].send_attempts
        },
{
    if 0 <= i < run.effects@.len() {
        assert(shown.effects@[i].shows(run.effects@[i]));
    }
}

/// Headers hold a key exactly where there is one header, it is text, and the text
/// is 1 to 128 visible ASCII characters, which are the key; otherwise what is
/// said depends on how many headers there are.
pub proof fn one_header_holds_the_key(keys: Seq<Option<String>>, key: Seq<char>)
    ensures
        only_key(keys) == Some(key) <==> {
            &&& keys.len() == 1
            &&& keys[0] is Some && keys[0]->0@ == key
            &&& 1 <= key.len() <= 128
            &&& forall|i: int| 0 <= i < key.len() ==> '!' <= #[trigger] key[i] <= '~'
        },
        keys.len() == 1 ==> key_refusal(keys)
            == "Idempotency-Key must be 1..128 visible ASCII bytes"@,
        keys.len() != 1 ==> key_refusal(keys) == "Exactly one Idempotency-Key is required"@,
{
    admission::keys_are_visible_words(key);
}

/// A request says a run exactly where its digest, its grant and its input, of up to
/// 64 KiB, are canonical and its limits break no cap.
pub proof fn requests_say_runs_on_their_terms(create: RunCreate, caps: Limits)
    ensures
        is_run(create, caps) <==> {
            &&& types::is_digest_text(create.module_digest@)
            &&& crate::ids::is_canonical_id(create.grant_id@)
            &&& encoding::is_canonical_base64(create.input_b64@, 65_536)
            &&& create.limits.first_violation(caps) is None
        },
{
}

} // verus!
