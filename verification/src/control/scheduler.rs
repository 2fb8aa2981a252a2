//! What workers are answered. Authentication supplies the worker's name and the
//! tenants it may serve; what a request says can only confirm them.
use vstd::prelude::*;

use crate::control::api::{error, ApiError};
use crate::control::auth::{Authority, Principal, PrincipalView};
use crate::domain::hash::hex;
use crate::domain::limits::PAYLOAD_BYTES;
use crate::domain::types;
use crate::encoding;
use crate::ids::{IdSet, Uuid};
use crate::store::scheduler::Lease;
use crate::store::StoreError;
use crate::text;

verus! {

/// How many runs one sweep reassesses at most.
pub const SWEEP_BATCH: u32 = 64;

/// Whether a sweep goes on, after so many runs and what the last one came to:
/// it ends with its batch, when nothing is left, and upon an error.
pub fn sweep_goes_on(done: u32, last: &Result<bool, StoreError>) -> (r: bool)
    ensures
        r == (done < SWEEP_BATCH && *last == Ok::<bool, StoreError>(true)),
        r ==> done < 64,
        done < 64 && *last == Ok::<bool, StoreError>(true) ==> r,
{
    done < SWEEP_BATCH && match last {
        Ok(reaped) => *reaped,
        Err(_) => false,
    }
}

#[derive(Debug)]
pub struct ClaimRequest {
    pub worker_id: String,
    pub available_slots: u8,
}

#[derive(Debug)]
pub struct LeaseRequest {
    pub worker_id: String,
    pub lease_epoch: i64,
}

#[derive(Debug)]
pub struct FinishRequest {
    pub worker_id: String,
    pub lease_epoch: i64,
    pub output_b64: Option<String>,
    pub error_code: Option<String>,
}

/// The tenants that the principal may serve as the worker of this name.
pub fn worker_tenants<'a>(principal: &'a Principal, worker_id: &str) -> (r: Result<&'a IdSet, ()>)
    ensures
        match r {
            Ok(tenants) => principal@.served_tenants(worker_id@) == Some(tenants@),
            Err(()) => principal@.served_tenants(worker_id@) is None,
        },
{
    match &principal.authority {
        Authority::Worker { worker_id: configured, tenants } => if text::text_equal(
            configured.as_str(),
            worker_id,
        ) {
            Ok(tenants)
        } else {
            Err(())
        },
        _ => Err(()),
    }
}

fn bad_json() -> (r: ApiError)
    ensures
        is_bad_json(r),
{
    error(400, "INVALID_JSON", "Worker request is invalid", false)
}

fn forbidden() -> (r: ApiError)
    ensures
        is_forbidden(r),
{
    error(403, "FORBIDDEN", "Worker is not permitted", false)
}

/// The refusal of a body that could not be read.
pub open spec fn is_bad_json(refusal: ApiError) -> bool {
    refusal.says(400, "INVALID_JSON"@, "Worker request is invalid"@, false)
}

/// The refusal of a caller that is not the worker it says it is.
pub open spec fn is_forbidden(refusal: ApiError) -> bool {
    refusal.says(403, "FORBIDDEN"@, "Worker is not permitted"@, false)
}

/// What an error of the store is answered.
pub fn store_error(failed: StoreError) -> (r: ApiError)
    ensures
        match failed {
            StoreError::RunNotFound => r.says(
                404,
                "RUN_NOT_FOUND"@,
                "Run does not exist"@,
                false,
            ),
            StoreError::LeaseConflict => r.says(
                409,
                "LEASE_CONFLICT"@,
                "Lease is stale, expired or incompatible"@,
                false,
            ),
            StoreError::Configuration(_) => r.says(
                422,
                "INVALID_LEASE_REQUEST"@,
                "Lease request is invalid"@,
                false,
            ),
            _ => r.says(503, "STORE_UNAVAILABLE"@, "Lease operation unavailable"@, true),
        },
{
    match failed {
        StoreError::RunNotFound => error(404, "RUN_NOT_FOUND", "Run does not exist", false),
        StoreError::LeaseConflict => error(
            409,
            "LEASE_CONFLICT",
            "Lease is stale, expired or incompatible",
            false,
        ),
        StoreError::Configuration(_) => error(
            422,
            "INVALID_LEASE_REQUEST",
            "Lease request is invalid",
            false,
        ),
        _ => error(503, "STORE_UNAVAILABLE", "Lease operation unavailable", true),
    }
}

/// A worker's request, confirmed: the tenants that it may be about.
#[derive(Debug)]
pub struct Confirmed<T> {
    pub tenants: Vec<Uuid>,
    pub request: T,
}

/// A request in a worker's name was judged: by its body, then by the name.
pub open spec fn is_confirmed<T>(
    principal: PrincipalView,
    worker_id: Seq<char>,
    request: T,
    r: Result<Confirmed<T>, ApiError>,
) -> bool {
    match principal.served_tenants(worker_id) {
        Some(tenants) => r matches Ok(confirmed) && confirmed.tenants@ == tenants
            && confirmed.request == request,
        None => r is Err && is_forbidden(r->Err_0),
    }
}

/// Judge a request to claim a run.
pub fn claim(principal: &Principal, request: Option<ClaimRequest>) -> (r: Result<
    Confirmed<ClaimRequest>,
    ApiError,
>)
    ensures
        match request {
            None => r is Err && is_bad_json(r->Err_0),
            Some(request) => is_confirmed(principal@, request.worker_id@, request, r),
        },
{
    let request = match request {
        Some(request) => request,
        None => return Err(bad_json()),
    };
    match worker_tenants(principal, request.worker_id.as_str()) {
        Ok(tenants) => Ok(Confirmed { tenants: tenants.to_vec(), request }),
        Err(()) => Err(forbidden()),
    }
}

/// Judge a request to renew a lease.
pub fn heartbeat(principal: &Principal, request: Option<LeaseRequest>) -> (r: Result<
    Confirmed<LeaseRequest>,
    ApiError,
>)
    ensures
        match request {
            None => r is Err && is_bad_json(r->Err_0),
            Some(request) => is_confirmed(principal@, request.worker_id@, request, r),
        },
{
    let request = match request {
        Some(request) => request,
        None => return Err(bad_json()),
    };
    match worker_tenants(principal, request.worker_id.as_str()) {
        Ok(tenants) => Ok(Confirmed { tenants: tenants.to_vec(), request }),
        Err(()) => Err(forbidden()),
    }
}

/// Judge a report that a runner is ready.
pub fn started(principal: &Principal, request: Option<LeaseRequest>) -> (r: Result<
    Confirmed<LeaseRequest>,
    ApiError,
>)
    ensures
        match request {
            None => r is Err && is_bad_json(r->Err_0),
            Some(request) => is_confirmed(principal@, request.worker_id@, request, r),
        },
{
    heartbeat(principal, request)
}

/// The end of a run as a worker reports it, its output decoded.
#[derive(Debug)]
pub struct FinishedRun {
    pub worker_id: String,
    pub lease_epoch: i64,
    pub output: Option<Vec<u8>>,
    pub error_code: Option<String>,
}

/// Judge a report that a run has ended. Its output must be canonical base64 of
/// bounded length.
pub fn finish(principal: &Principal, request: Option<FinishRequest>) -> (r: Result<
    Confirmed<FinishedRun>,
    ApiError,
>)
    ensures
        match request {
            None => r is Err && is_bad_json(r->Err_0),
            Some(request) => match principal@.served_tenants(request.worker_id@) {
                None => r is Err && is_forbidden(r->Err_0),
                Some(tenants) => if request.output_b64 is Some && !encoding::is_canonical_base64(
                    request.output_b64->0@,
                    PAYLOAD_BYTES as int,
                ) {
                    r is Err && r->Err_0.says(
                        422,
                        "INVALID_OUTPUT"@,
                        "Output must be canonical bounded base64"@,
                        false,
                    )
                } else {
                    r matches Ok(confirmed) && {
                        let run = confirmed.request;
                        &&& confirmed.tenants@ == tenants
                        &&& run.worker_id == request.worker_id
                        &&& run.lease_epoch == request.lease_epoch
                        &&& run.error_code == request.error_code
                        &&& run.output is Some == request.output_b64 is Some
                        &&& run.output matches Some(output) ==> {
                            &&& output@.len() <= PAYLOAD_BYTES
                            &&& request.output_b64->0@ == encoding::base64_text(output@)
                        }
                    }
                },
            },
        },
{
    let request = match request {
        Some(request) => request,
        None => return Err(bad_json()),
    };
    let tenants = match worker_tenants(principal, request.worker_id.as_str()) {
        Ok(tenants) => tenants.to_vec(),
        Err(()) => return Err(forbidden()),
    };
    let output = match &request.output_b64 {
        Some(encoded) => match encoding::canonical_base64(encoded.as_str(), PAYLOAD_BYTES) {
            Ok(decoded) => Some(decoded),
            Err(_) => {
                return Err(
                    error(
                        422,
                        "INVALID_OUTPUT",
                        "Output must be canonical bounded base64",
                        false,
                    ),
                );
            },
        },
        None => None,
    };
    Ok(
        Confirmed {
            tenants,
            request: FinishedRun {
                worker_id: request.worker_id,
                lease_epoch: request.lease_epoch,
                output,
                error_code: request.error_code,
            },
        },
    )
}

/// A lease as it is sent.
#[derive(Debug)]
pub struct LeaseView {
    pub run_id: Uuid,
    pub epoch: i64,
    pub expires_at: String,
    pub module_digest: String,
    pub module_b64: String,
    pub input_b64: String,
    /// The limits of the run, as JSON.
    pub limits_json: String,
}

impl LeaseView {
    /// The view shows the lease: its digest in hexadecimal, its module and its
    /// input in base64.
    pub open spec fn shows(self, lease: Lease) -> bool {
        &&& self.run_id == lease.run
        &&& self.epoch == lease.epoch
        &&& self.expires_at == lease.expires_at
        &&& self.module_digest@ == types::hex_text(lease.module_digest@)
        &&& self.module_b64@ == encoding::base64_text(lease.module@)
        &&& self.input_b64@ == encoding::base64_text(lease.input@)
        &&& self.limits_json == lease.limits_json
    }

    /// The view of a lease. The bounds are those of allocations.
    pub fn from_lease(lease: Lease) -> (r: LeaseView)
        requires
            encoding::base64_len(lease.module@.len() as int) <= isize::MAX,
            encoding::base64_len(lease.input@.len() as int) <= isize::MAX,
        ensures
            r.shows(lease),
    {
        LeaseView {
            run_id: lease.run,
            epoch: lease.epoch,
            expires_at: lease.expires_at,
            module_digest: hex(lease.module_digest.as_slice()),
            module_b64: encoding::encode_base64(lease.module.as_slice()),
            input_b64: encoding::encode_base64(lease.input.as_slice()),
            limits_json: lease.limits_json,
        }
    }
}

/// What a claim whose stored limits are no JSON is answered.
pub fn invalid_limits() -> (r: ApiError)
    ensures
        r.says(503, "STORE_UNAVAILABLE"@, "Stored limits are invalid"@, false),
{
    error(503, "STORE_UNAVAILABLE", "Stored limits are invalid", false)
}

/// Whatever a worker says, it is heard only on tenants of its own mapping.
pub proof fn worker_never_widens_its_tenants<T>(
    principal: PrincipalView,
    worker_id: Seq<char>,
    request: T,
    r: Result<Confirmed<T>, ApiError>,
    tenant: Uuid,
)
    requires
        is_confirmed(principal, worker_id, request, r),
        r matches Ok(confirmed) && confirmed.tenants@.contains(tenant),
    ensures
        principal.may_serve(worker_id, tenant),
{
}

/// A worker is heard exactly where it speaks in its own name, and then of its own
/// tenants, all of them, with its request unchanged; otherwise it is forbidden.
pub proof fn workers_are_heard_in_their_own_name<T>(
    principal: PrincipalView,
    worker_id: Seq<char>,
    request: T,
    r: Result<Confirmed<T>, ApiError>,
    tenant: Uuid,
)
    requires
        is_confirmed(principal, worker_id, request, r),
    ensures
        r is Ok <==> principal.served_tenants(worker_id) is Some,
        r is Ok ==> r->Ok_0.request == request,
        r is Ok ==> (r->Ok_0.tenants@.contains(tenant) <==> principal.may_serve(worker_id, tenant)),
        r is Err ==> r->Err_0.status == 403 && r->Err_0.code@ == "FORBIDDEN"@
            && !r->Err_0.retryable,
{
}

/// A body that cannot be read and a worker that is another's are told apart.
pub proof fn workers_are_refused_apart(refusal: ApiError)
    ensures
        is_bad_json(refusal) ==> refusal.status == 400 && refusal.code@ == "INVALID_JSON"@
            && refusal.message@ == "Worker request is invalid"@ && !refusal.retryable
            && !refusal.retry_after,
        is_forbidden(refusal) ==> refusal.status == 403 && refusal.code@ == "FORBIDDEN"@
            && refusal.message@ == "Worker is not permitted"@ && !refusal.retryable
            && !refusal.retry_after,
        !(is_bad_json(refusal) && is_forbidden(refusal)),
{
}

/// A lease is shown as it was given, its module and its input whole.
pub proof fn leases_are_shown_as_given(shown: LeaseView, lease: Lease)
    ensures
        shown.shows(lease) <==> {
            &&& shown.run_id == lease.run && shown.epoch == lease.epoch
            &&& shown.expires_at == lease.expires_at && shown.limits_json == lease.limits_json
            &&& shown.module_digest@ == types::hex_text(lease.module_digest@)
            &&& shown.module_b64@ == encoding::base64_text(lease.module@)
            &&& shown.input_b64@ == encoding::base64_text(lease.input@)
        },
{
}

} // verus!
