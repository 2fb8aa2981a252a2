//! Principals as the operator maps them. No request text ever supplies authority.
use vstd::prelude::*;

use crate::domain::types;
use crate::domain::types::digest_bytes;
use crate::encoding;
use crate::encoding::{digests_equal, sha256_digest};
use crate::ids;
use crate::ids::{canonical_id, IdSet, Uuid};
use crate::runtime::ipc;
use crate::text;

verus! {

/// The largest principal file, in bytes.
pub const PRINCIPAL_BYTES: usize = 1_048_576;

/// The longest list of principals, grants or tenants.
pub const MAX_ENTRIES: usize = 1024;

#[derive(Debug)]
pub enum AuthError {
    Configuration,
    Read(std::io::Error),
    /// The credential is not known.
    Unauthorized,
    /// The role does not allow it.
    Forbidden,
}

/// What a principal may do.
#[derive(Debug)]
pub enum Authority {
    Owner { tenant: Uuid },
    Invoker { tenant: Uuid, grants: IdSet },
    Worker { worker_id: String, tenants: IdSet },
}

/// What a principal may do.
pub enum AuthorityView {
    Owner { tenant: Uuid },
    Invoker { tenant: Uuid, grants: Seq<Uuid> },
    Worker { worker_id: Seq<char>, tenants: Seq<Uuid> },
}

impl View for Authority {
    type V = AuthorityView;

    open spec fn view(&self) -> AuthorityView {
        match self {
            Authority::Owner { tenant } => AuthorityView::Owner { tenant: *tenant },
            Authority::Invoker { tenant, grants } => AuthorityView::Invoker {
                tenant: *tenant,
                grants: grants@,
            },
            Authority::Worker { worker_id, tenants } => AuthorityView::Worker {
                worker_id: worker_id@,
                tenants: tenants@,
            },
        }
    }
}

impl Clone for Authority {
    fn clone(&self) -> (r: Authority)
        ensures
            r@ == self@,
    {
        match self {
            Authority::Owner { tenant } => Authority::Owner { tenant: *tenant },
            Authority::Invoker { tenant, grants } => Authority::Invoker {
                tenant: *tenant,
                grants: grants.clone(),
            },
            Authority::Worker { worker_id, tenants } => Authority::Worker {
                worker_id: worker_id.clone(),
                tenants: tenants.clone(),
            },
        }
    }
}

#[derive(Debug)]
pub struct Principal {
    pub id: String,
    pub authority: Authority,
}

/// A principal and what it may do.
pub struct PrincipalView {
    pub id: Seq<char>,
    pub authority: AuthorityView,
}

impl View for Principal {
    type V = PrincipalView;

    open spec fn view(&self) -> PrincipalView {
        PrincipalView { id: self.id@, authority: self.authority@ }
    }
}

impl Clone for Principal {
    fn clone(&self) -> (r: Principal)
        ensures
            r@ == self@,
    {
        Principal { id: self.id.clone(), authority: self.authority.clone() }
    }
}

impl PrincipalView {
    /// The tenant that the principal owns.
    pub open spec fn owned_tenant(self) -> Option<Uuid> {
        match self.authority {
            AuthorityView::Owner { tenant } => Some(tenant),
            _ => None,
        }
    }

    /// The tenant that the principal acts for.
    pub open spec fn own_tenant(self) -> Option<Uuid> {
        match self.authority {
            AuthorityView::Owner { tenant } => Some(tenant),
            AuthorityView::Invoker { tenant, .. } => Some(tenant),
            AuthorityView::Worker { .. } => None,
        }
    }

    /// The principal may use a grant of a tenant: an owner every one of its
    /// own, an invoker those that it was allowed.
    pub open spec fn may_use_grant(self, tenant: Uuid, grant: Uuid) -> bool {
        match self.authority {
            AuthorityView::Owner { tenant: own } => own == tenant,
            AuthorityView::Invoker { tenant: own, grants } => own == tenant && grants.contains(
                grant,
            ),
            AuthorityView::Worker { .. } => false,
        }
    }

    /// The tenants that the principal may serve as a worker of this name.
    pub open spec fn served_tenants(self, worker: Seq<char>) -> Option<Seq<Uuid>> {
        match self.authority {
            AuthorityView::Worker { worker_id, tenants } => if worker_id == worker {
                Some(tenants)
            } else {
                None
            },
            _ => None,
        }
    }

    /// The principal is the worker, and may serve the tenant.
    pub open spec fn may_serve(self, worker: Seq<char>, tenant: Uuid) -> bool {
        self.served_tenants(worker) matches Some(tenants) && tenants.contains(tenant)
    }
}

impl Principal {
    pub fn owner_tenant(&self) -> (r: Result<Uuid, AuthError>)
        ensures
            match r {
                Ok(tenant) => self@.owned_tenant() == Some(tenant),
                Err(error) => error is Forbidden && self@.owned_tenant() is None,
            },
    {
        match &self.authority {
            Authority::Owner { tenant } => Ok(*tenant),
            _ => Err(AuthError::Forbidden),
        }
    }

    pub fn tenant(&self) -> (r: Result<Uuid, AuthError>)
        ensures
            match r {
                Ok(tenant) => self@.own_tenant() == Some(tenant),
                Err(error) => error is Forbidden && self@.own_tenant() is None,
            },
    {
        match &self.authority {
            Authority::Owner { tenant } => Ok(*tenant),
            Authority::Invoker { tenant, .. } => Ok(*tenant),
            Authority::Worker { .. } => Err(AuthError::Forbidden),
        }
    }

    pub fn permits_grant(&self, tenant: Uuid, grant: Uuid) -> (r: bool)
        ensures
            r == self@.may_use_grant(tenant, grant),
    {
        match &self.authority {
            Authority::Owner { tenant: own } => *own == tenant,
            Authority::Invoker { tenant: own, grants } => *own == tenant && grants.contains(grant),
            Authority::Worker { .. } => false,
        }
    }

    pub fn permits_worker(&self, worker: &str, tenant: Uuid) -> (r: bool)
        ensures
            r == self@.may_serve(worker@, tenant),
    {
        match &self.authority {
            Authority::Worker { worker_id, tenants } => text::text_equal(
                worker_id.as_str(),
                worker,
            ) && tenants.contains(tenant),
            _ => false,
        }
    }
}

/// A principal file as it was decoded.
#[derive(Debug)]
pub struct PrincipalFile {
    pub version: u32,
    pub principals: Vec<PrincipalRecord>,
}

/// A principal as the file has it.
#[derive(Debug)]
pub struct PrincipalRecord {
    pub id: String,
    pub role: String,
    pub token_sha256: String,
    pub tenant_id: Option<String>,
    pub worker_id: Option<String>,
    pub allowed_grants: Vec<String>,
    pub allowed_tenants: Vec<String>,
}

/// A list of identifiers: at most 1024, each in its canonical text, none twice.
pub open spec fn are_ids(values: Seq<String>) -> bool {
    &&& values.len() <= MAX_ENTRIES
    &&& forall|i: int| 0 <= i < values.len() ==> ids::is_canonical_id(#[trigger] values[i]@)
    &&& forall|i: int, j: int| 0 <= i < j < values.len() ==> values[i]@ != values[j]@
}

/// The set holds the identifiers of the list, and no others.
pub open spec fn holds_ids(set: Seq<Uuid>, values: Seq<String>) -> bool {
    forall|id: Uuid| #[trigger] set.contains(id) <==> exists|i: int|
        0 <= i < values.len() && #[trigger] values[i]@ == ids::hyphenated(id.value)
}

/// The identifier of a canonical text.
fn canonical_uuid(value: &str) -> (r: Result<Uuid, AuthError>)
    ensures
        match r {
            Ok(id) => value@ == ids::hyphenated(id.value),
            Err(error) => error is Configuration && !ids::is_canonical_id(value@),
        },
{
    match canonical_id(value) {
        Some(id) => Ok(id),
        None => Err(AuthError::Configuration),
    }
}

/// The set of a list of identifiers.
fn id_set(values: &[String]) -> (r: Result<IdSet, AuthError>)
    ensures
        match r {
            Ok(set) => are_ids(values@) && holds_ids(set@, values@),
            Err(error) => error is Configuration && !are_ids(values@),
        },
{
    if values.len() > MAX_ENTRIES {
        return Err(AuthError::Configuration);
    }
    let mut set = IdSet::new();
    let mut i: usize = 0;
    while i < values.len()
        invariant
            i <= values.len() <= MAX_ENTRIES,
            forall|k: int| 0 <= k < i ==> ids::is_canonical_id(#[trigger] values@[k]@),
            forall|j: int, k: int| 0 <= j < k < i ==> values@[j]@ != values@[k]@,
            forall|id: Uuid| #[trigger]
                set@.contains(id) <==> exists|k: int|
                    0 <= k < i && #[trigger] values@[k]@ == ids::hyphenated(id.value),
        decreases values.len() - i,
    {
        match canonical_uuid(values[i].as_str()) {
            Ok(id) => {
                let new = set.insert(id);
                if !new {
                    assert(!are_ids(values@)) by {
                        let k = choose|k: int|
                            0 <= k < i && #[trigger] values@[k]@ == ids::hyphenated(id.value);
                        assert(values@[k]@ == values@[i as int]@);
                    }
                    return Err(AuthError::Configuration);
                }
                proof {
                    assert(ids::is_canonical_id(values@[i as int]@));
                    assert forall|other: Uuid| #[trigger] set@.contains(other) <==> exists|k: int|
                        0 <= k < i + 1 && #[trigger] values@[k]@ == ids::hyphenated(other.value) by {
                        if values@[i as int]@ == ids::hyphenated(other.value) {
                            ids::canonical_text_determines_id(other.value, id.value);
                        }
                        if other == id {
                            assert(values@[i as int]@ == ids::hyphenated(other.value));
                        }
                    }
                    assert forall|j: int| 0 <= j < i implies values@[j]@ != #[trigger] values@[i as int]@ by {
                        if values@[j]@ == values@[i as int]@ {
                            assert(values@[j]@ == ids::hyphenated(id.value));
                        }
                    }
                }
            },
            Err(error) => {
                assert(!ids::is_canonical_id(values@[i as int]@));
                return Err(error);
            },
        }
        i = i + 1;
    }
    Ok(set)
}

impl PrincipalRecord {
    /// The record of an owner or an invoker names a tenant and neither a worker
    /// nor tenants; that of an owner no grants. That of a worker names a worker
    /// and tenants, and neither a tenant nor grants.
    pub open spec fn has_role(self) -> bool {
        if self.role@ == "owner"@ || self.role@ == "invoker"@ {
            &&& self.worker_id is None
            &&& self.allowed_tenants@.len() == 0
            &&& self.tenant_id matches Some(tenant) && ids::is_canonical_id(tenant@)
            &&& are_ids(self.allowed_grants@)
            &&& self.role@ == "owner"@ ==> self.allowed_grants@.len() == 0
        } else if self.role@ == "worker"@ {
            &&& self.tenant_id is None
            &&& self.allowed_grants@.len() == 0
            &&& self.worker_id matches Some(worker) && text::is_alias(worker@)
            &&& are_ids(self.allowed_tenants@)
            &&& self.allowed_tenants@.len() > 0
        } else {
            false
        }
    }

    /// The record by itself is valid.
    pub open spec fn is_valid(self) -> bool {
        &&& text::is_alias(self.id@)
        &&& types::is_digest_text(self.token_sha256@)
        &&& self.has_role()
    }

    /// The authority is the one that the record's role and lists say.
    pub open spec fn grants_authority(self, authority: AuthorityView) -> bool {
        match authority {
            AuthorityView::Owner { tenant } => {
                &&& self.role@ == "owner"@
                &&& ipc::optional_text(self.tenant_id) == Some(ids::hyphenated(tenant.value))
            },
            AuthorityView::Invoker { tenant, grants } => {
                &&& self.role@ == "invoker"@
                &&& ipc::optional_text(self.tenant_id) == Some(ids::hyphenated(tenant.value))
                &&& holds_ids(grants, self.allowed_grants@)
            },
            AuthorityView::Worker { worker_id, tenants } => {
                &&& self.role@ == "worker"@
                &&& ipc::optional_text(self.worker_id) == Some(worker_id)
                &&& holds_ids(tenants, self.allowed_tenants@)
            },
        }
    }

    /// What the record's role and lists allow.
    fn authority(&self) -> (r: Result<Authority, AuthError>)
        ensures
            match r {
                Ok(authority) => self.has_role() && self.grants_authority(authority@),
                Err(error) => error is Configuration && !self.has_role(),
            },
    {
        proof {
            reveal_strlit("owner");
            reveal_strlit("invoker");
            reveal_strlit("worker");
            assert("owner"@.len() != "invoker"@.len());
            assert("worker"@.len() != "invoker"@.len());
            assert("owner"@.len() != "worker"@.len());
        }
        let owner = text::text_equal(self.role.as_str(), "owner");
        let invoker = text::text_equal(self.role.as_str(), "invoker");
        if owner || invoker {
            if self.worker_id.is_some() || self.allowed_tenants.len() != 0 {
                return Err(AuthError::Configuration);
            }
            let tenant = match &self.tenant_id {
                Some(tenant) => match canonical_uuid(tenant.as_str()) {
                    Ok(tenant) => tenant,
                    Err(error) => return Err(error),
                },
                None => return Err(AuthError::Configuration),
            };
            assert(ids::is_canonical_id(self.tenant_id->0@));
            let grants = match id_set(self.allowed_grants.as_slice()) {
                Ok(grants) => grants,
                Err(error) => return Err(error),
            };
            if owner {
                if self.allowed_grants.len() != 0 {
                    return Err(AuthError::Configuration);
                }
                return Ok(Authority::Owner { tenant });
            }
            return Ok(Authority::Invoker { tenant, grants });
        }
        if text::text_equal(self.role.as_str(), "worker") {
            if self.tenant_id.is_some() || self.allowed_grants.len() != 0 {
                return Err(AuthError::Configuration);
            }
            let worker_id = match &self.worker_id {
                Some(worker_id) => text::copy_text(worker_id.as_str()),
                None => return Err(AuthError::Configuration),
            };
            let tenants = match id_set(self.allowed_tenants.as_slice()) {
                Ok(tenants) => tenants,
                Err(error) => return Err(error),
            };
            if !text::alias_text(worker_id.as_str()) || self.allowed_tenants.len() == 0 {
                return Err(AuthError::Configuration);
            }
            return Ok(Authority::Worker { worker_id, tenants });
        }
        Err(AuthError::Configuration)
    }
}

impl PrincipalFile {
    /// Version one, 1 to 1024 valid records, no name and no credential twice.
    pub open spec fn is_valid(self) -> bool {
        let records = self.principals@;
        &&& self.version == 1
        &&& 1 <= records.len() <= MAX_ENTRIES
        &&& forall|i: int| 0 <= i < records.len() ==> (#[trigger] records[i]).is_valid()
        &&& forall|i: int, j: int|
            0 <= i < j < records.len() ==> (#[trigger] records[i]).id@ != (
            #[trigger] records[j]).id@ && records[i].token_sha256@ != records[j].token_sha256@
    }
}

/// Principals by the digests of their credentials. The digests are not shown.
pub struct Principals {
    entries: Vec<([u8; 32], Principal)>,
}

/// A principal under the digest of its credential.
pub struct EntryView {
    pub digest: Seq<u8>,
    pub principal: PrincipalView,
}

impl View for Principals {
    type V = Seq<EntryView>;

    closed spec fn view(&self) -> Seq<EntryView> {
        Seq::new(
            self.entries@.len(),
            |i: int| EntryView { digest: self.entries@[i].0@, principal: self.entries@[i].1@ },
        )
    }
}

/// No two principals share a credential.
pub open spec fn are_unique(entries: Seq<EntryView>) -> bool {
    forall|i: int, j: int|
        0 <= i < j < entries.len() ==> (#[trigger] entries[i]).digest != (
        #[trigger] entries[j]).digest
}

/// The entry is the principal that the record describes.
pub open spec fn describes(record: PrincipalRecord, entry: EntryView) -> bool {
    &&& types::hex_bytes(entry.digest) == text::utf8(record.token_sha256@)
    &&& entry.principal.id == record.id@
    &&& record.grants_authority(entry.principal.authority)
}

/// The token of an authorization: what follows `Bearer `, where that is 32 to
/// 256 bytes of visible ASCII.
pub open spec fn bearer_token(authorization: Seq<char>) -> Option<Seq<u8>> {
    let bytes = text::utf8(authorization);
    let token = bytes.skip(7);
    if bytes.len() >= 7 && bytes.take(7) == text::utf8("Bearer "@) && 32 <= token.len() <= 256
        && forall|i: int| 0 <= i < token.len() ==> text::is_graphic(#[trigger] token[i]) {
        Some(token)
    } else {
        None
    }
}

/// The token of an authorization.
fn token_of(authorization: &str) -> (r: Option<&[u8]>)
    ensures
        match r {
            Some(token) => bearer_token(authorization@) == Some(token@),
            None => bearer_token(authorization@) is None,
        },
{
    let bytes = authorization.as_bytes();
    let prefix = "Bearer ".as_bytes();
    proof {
        reveal_strlit("Bearer ");
        vstd::utf8::is_ascii_chars_encode_utf8("Bearer "@);
    }
    if bytes.len() < 7 {
        return None;
    }
    let start = vstd::slice::slice_subrange(bytes, 0, 7);
    assert(start@ =~= bytes@.take(7));
    if !text::bytes_equal(start, prefix) {
        return None;
    }
    let token = vstd::slice::slice_subrange(bytes, 7, bytes.len());
    assert(token@ =~= bytes@.skip(7));
    if token.len() < 32 || token.len() > 256 {
        return None;
    }
    let mut i: usize = 0;
    while i < token.len()
        invariant
            i <= token.len(),
            token@ == text::utf8(authorization@).skip(7),
            forall|k: int| 0 <= k < i ==> text::is_graphic(#[trigger] token@[k]),
        decreases token.len() - i,
    {
        if token[i] < 0x21 || token[i] > 0x7e {
            assert(!text::is_graphic(token@[i as int]));
            return None;
        }
        i = i + 1;
    }
    Some(token)
}

/// Whether a principal file may be read: a regular file within its bound.
pub fn admit_file(is_file: bool, length: u64) -> (r: Result<(), AuthError>)
    ensures
        match r {
            Ok(()) => is_file && length <= PRINCIPAL_BYTES,
            Err(error) => error is Configuration && !(is_file && length <= PRINCIPAL_BYTES),
        },
        r is Ok <==> is_file && length < 1_048_577,
{
    if is_file && length <= PRINCIPAL_BYTES as u64 {
        Ok(())
    } else {
        Err(AuthError::Configuration)
    }
}

impl Principals {
    #[verifier::type_invariant]
    closed spec fn unique(self) -> bool {
        are_unique(self@)
    }

    /// Accept the file that `bytes` were decoded to, where they were.
    pub fn parse(bytes: &[u8], decoded: Option<PrincipalFile>) -> (r: Result<
        Principals,
        AuthError,
    >)
        ensures
            match r {
                Ok(principals) => {
                    &&& bytes@.len() <= PRINCIPAL_BYTES
                    &&& decoded is Some
                    &&& decoded->0.is_valid()
                    &&& principals@.len() == decoded->0.principals@.len()
                    &&& forall|i: int|
                        0 <= i < principals@.len() ==> describes(
                            decoded->0.principals@[i],
                            #[trigger] principals@[i],
                        )
                    &&& are_unique(principals@)
                },
                Err(error) => {
                    &&& error is Configuration
                    &&& bytes@.len() > PRINCIPAL_BYTES || decoded is None || !decoded->0.is_valid()
                },
            },
            r is Ok <==> bytes@.len() < 1_048_577 && decoded is Some && decoded->0.is_valid(),
    {
        if bytes.len() > PRINCIPAL_BYTES {
            return Err(AuthError::Configuration);
        }
        let file = match decoded {
            Some(file) => file,
            None => return Err(AuthError::Configuration),
        };
        if file.version != 1 || file.principals.len() == 0 || file.principals.len() > MAX_ENTRIES {
            return Err(AuthError::Configuration);
        }
        let ghost records = file.principals@;
        let mut entries: Vec<([u8; 32], Principal)> = Vec::new();
        let mut i: usize = 0;
        while i < file.principals.len()
            invariant
                i <= file.principals.len(),
                records == file.principals@,
                decoded == Some(file),
                file.version == 1,
                1 <= records.len() <= MAX_ENTRIES,
                entries@.len() == i,
                forall|k: int|
                    0 <= k < i ==> {
                        &&& (#[trigger] records[k]).is_valid()
                        &&& types::hex_bytes(entries@[k].0@) == text::utf8(records[k].token_sha256@)
                        &&& entries@[k].1.id@ == records[k].id@
                        &&& records[k].grants_authority(entries@[k].1.authority@)
                    },
                forall|j: int, k: int|
                    0 <= j < k < i ==> (#[trigger] records[j]).id@ != (#[trigger] records[k]).id@
                        && entries@[j].0@ != entries@[k].0@,
            decreases file.principals.len() - i,
        {
            let record = &file.principals[i];
            assert(*record == records[i as int]);
            if !text::alias_text(record.id.as_str()) {
                assert(!records[i as int].is_valid());
                return Err(AuthError::Configuration);
            }
            let digest = match digest_bytes(record.token_sha256.as_str()) {
                Ok(digest) => digest,
                Err(_) => {
                    assert(!records[i as int].is_valid());
                    return Err(AuthError::Configuration);
                },
            };
            let mut j: usize = 0;
            while j < i
                invariant
                    j <= i < records.len(),
                    records == file.principals@,
                    decoded == Some(file),
                    entries@.len() == i,
                    *record == records[i as int],
                    types::hex_bytes(digest@) == text::utf8(record.token_sha256@),
                    forall|k: int|
                        0 <= k < i ==> types::hex_bytes(entries@[k].0@) == text::utf8(
                            (#[trigger] records[k]).token_sha256@,
                        ),
                    forall|k: int|
                        0 <= k < j ==> (#[trigger] records[k]).id@ != records[i as int].id@
                            && entries@[k].0@ != digest@,
                decreases i - j,
            {
                let same_name = text::text_equal(
                    file.principals[j].id.as_str(),
                    record.id.as_str(),
                );
                let same_digest = text::bytes_equal(entries[j].0.as_slice(), digest.as_slice());
                if same_name || same_digest {
                    proof {
                        let a = records[j as int];
                        let b = records[i as int];
                        assert(types::hex_bytes(entries@[j as int].0@) == text::utf8(
                            a.token_sha256@,
                        ));
                        if same_digest {
                            text::utf8_is_injective(a.token_sha256@, b.token_sha256@);
                        }
                        assert(!file.is_valid());
                    }
                    return Err(AuthError::Configuration);
                }
                assert(records[j as int].id@ != records[i as int].id@);
                j = j + 1;
            }
            let authority = match record.authority() {
                Ok(authority) => authority,
                Err(error) => {
                    assert(!records[i as int].is_valid());
                    return Err(error);
                },
            };
            entries.push(
                (digest, Principal { id: text::copy_text(record.id.as_str()), authority }),
            );
            i = i + 1;
        }
        proof {
            assert forall|j: int, k: int| 0 <= j < k < records.len() implies (
            #[trigger] records[j]).id@ != (#[trigger] records[k]).id@ && records[j].token_sha256@
                != records[k].token_sha256@ by {
                assert(entries@[j].0@ != entries@[k].0@);
                if records[j].token_sha256@ == records[k].token_sha256@ {
                    types::hex_is_injective(entries@[j].0@, entries@[k].0@);
                }
            }
        }
        assert forall|j: int, k: int| 0 <= j < k < entries@.len() implies (
        #[trigger] entries@[j]).0@ != (#[trigger] entries@[k]).0@ by {
            assert(records[j].id@ != records[k].id@);
        }
        let principals = Principals { entries };
        proof {
            let shown = principals@;
            assert forall|k: int| 0 <= k < shown.len() implies describes(
                records[k],
                #[trigger] shown[k],
            ) by {
                assert(records[k].is_valid());
            }
        }
        Ok(principals)
    }

    /// The principal whose credential an authorization is. Every digest is
    /// looked at, whichever matches.
    pub fn authenticate(&self, authorization: &str) -> (r: Result<&Principal, AuthError>)
        ensures
            match bearer_token(authorization@) {
                None => r is Err && r->Err_0 is Unauthorized,
                Some(token) => match r {
                    Ok(principal) => exists|i: int|
                        {
                            &&& 0 <= i < self@.len()
                            &&& (#[trigger] self@[i]).digest == encoding::sha256(token)
                            &&& self@[i].principal == principal@
                        },
                    Err(error) => error is Unauthorized && forall|i: int|
                        0 <= i < self@.len() ==> (#[trigger] self@[i]).digest
                            != encoding::sha256(token),
                },
            },
            are_unique(self@),
    {
        proof {
            use_type_invariant(self);
        }
        let token = match token_of(authorization) {
            Some(token) => token,
            None => return Err(AuthError::Unauthorized),
        };
        let digest = sha256_digest(token);
        let mut matched: Option<usize> = None;
        let mut i: usize = 0;
        while i < self.entries.len()
            invariant
                i <= self.entries.len(),
                digest@ == encoding::sha256(token@),
                match matched {
                    Some(at) => at < i && self.entries@[at as int].0@ == digest@,
                    None => forall|k: int| 0 <= k < i ==> (#[trigger] self@[k]).digest != digest@,
                },
            decreases self.entries.len() - i,
        {
            if digests_equal(&self.entries[i].0, &digest) {
                matched = Some(i);
            } else {
                assert(self@[i as int].digest != digest@);
            }
            i = i + 1;
        }
        match matched {
            Some(at) => {
                assert(self@[at as int].digest == digest@);
                Ok(&self.entries[at].1)
            },
            None => Err(AuthError::Unauthorized),
        }
    }
}

/// A credential names at most one principal.
pub proof fn credential_names_one_principal(entries: Seq<EntryView>, digest: Seq<u8>, i: int, j: int)
    requires
        are_unique(entries),
        0 <= i < entries.len(),
        0 <= j < entries.len(),
        entries[i].digest == digest,
        entries[j].digest == digest,
    ensures
        i == j,
        entries[i].principal == entries[j].principal,
{
    if i < j {
        assert(entries[i].digest != entries[j].digest);
    }
    if j < i {
        assert(entries[j].digest != entries[i].digest);
    }
}

/// No principal reaches into another tenant: what it may own, act for or use
/// lies in the one tenant of its mapping.
pub proof fn principal_stays_in_its_tenant(
    principal: PrincipalView,
    tenant: Uuid,
    grant: Uuid,
)
    requires
        principal.may_use_grant(tenant, grant),
    ensures
        principal.own_tenant() == Some(tenant),
        principal.owned_tenant() is Some ==> principal.owned_tenant() == Some(tenant),
{
}

/// An owner owns its tenant, acts for it and may use every grant of it, and none
/// of another; it serves no tenant as a worker.
pub proof fn owners_act_for_their_tenant(
    principal: PrincipalView,
    own: Uuid,
    tenant: Uuid,
    grant: Uuid,
    worker: Seq<char>,
)
    requires
        principal.authority == (AuthorityView::Owner { tenant: own }),
    ensures
        principal.owned_tenant() == Some(own),
        principal.own_tenant() == Some(own),
        principal.may_use_grant(tenant, grant) <==> tenant == own,
        principal.served_tenants(worker) is None,
        !principal.may_serve(worker, tenant),
{
}

/// An invoker owns no tenant, acts for its own, and may use there the grants of
/// its list alone; it serves no tenant as a worker.
pub proof fn invokers_use_what_they_were_allowed(
    principal: PrincipalView,
    own: Uuid,
    grants: Seq<Uuid>,
    tenant: Uuid,
    grant: Uuid,
    worker: Seq<char>,
)
    requires
        principal.authority == (AuthorityView::Invoker { tenant: own, grants }),
    ensures
        principal.owned_tenant() is None,
        principal.own_tenant() == Some(own),
        principal.may_use_grant(tenant, grant) <==> tenant == own && grants.contains(grant),
        principal.served_tenants(worker) is None,
        !principal.may_serve(worker, tenant),
{
}

/// A worker owns no tenant, acts for none and uses no grant; under its own name,
/// and no other, it serves the tenants of its list and no others.
pub proof fn workers_serve_what_they_were_allowed(
    principal: PrincipalView,
    name: Seq<char>,
    tenants: Seq<Uuid>,
    tenant: Uuid,
    grant: Uuid,
    worker: Seq<char>,
)
    requires
        principal.authority == (AuthorityView::Worker { worker_id: name, tenants }),
    ensures
        principal.owned_tenant() is None,
        principal.own_tenant() is None,
        !principal.may_use_grant(tenant, grant),
        principal.served_tenants(name) == Some(tenants),
        worker != name ==> principal.served_tenants(worker) is None,
        principal.may_serve(worker, tenant) <==> worker == name && tenants.contains(tenant),
{
}

/// A list of identifiers has up to 1024 of them, each canonical and no two the
/// same; and every such list is one.
pub proof fn identifier_lists_are_bounded(values: Seq<String>)
    ensures
        are_ids(values) <==> {
            &&& values.len() < 1025
            &&& forall|i: int| 0 <= i < values.len() ==> ids::is_canonical_id(#[trigger] values[i]@)
            &&& forall|i: int, j: int|
                0 <= i < values.len() && 0 <= j < values.len() && i != j ==> #[trigger] values[i]@
                    != #[trigger] values[j]@
        },
{
    if are_ids(values) {
        assert forall|i: int, j: int|
            0 <= i < values.len() && 0 <= j < values.len() && i != j implies #[trigger] values[i]@
            != #[trigger] values[j]@ by {
            if i < j {
                assert(values[i]@ != values[j]@);
            } else {
                assert(values[j]@ != values[i]@);
            }
        }
    }
}

/// A set of a list holds the identifier of each of its texts, and every
/// identifier it holds has its text in the list.
pub proof fn identifier_sets_are_of_their_list(
    set: Seq<Uuid>,
    values: Seq<String>,
    id: Uuid,
    i: int,
)
    requires
        holds_ids(set, values),
    ensures
        0 <= i < values.len() && values[i]@ == ids::hyphenated(id.value) ==> set.contains(id),
        set.contains(id) ==> exists|k: int|
            0 <= k < values.len() && #[trigger] values[k]@ == ids::hyphenated(id.value),
{
}

/// What the record of each role must and must not name; no other role has one.
pub proof fn records_name_what_their_role_needs(record: PrincipalRecord)
    ensures
        record.role@ == "owner"@ ==> (record.has_role() <==> {
            &&& record.tenant_id is Some && ids::is_canonical_id(record.tenant_id->0@)
            &&& record.worker_id is None
            &&& record.allowed_grants@.len() == 0
            &&& record.allowed_tenants@.len() == 0
        }),
        record.role@ == "invoker"@ ==> (record.has_role() <==> {
            &&& record.tenant_id is Some && ids::is_canonical_id(record.tenant_id->0@)
            &&& record.worker_id is None
            &&& are_ids(record.allowed_grants@)
            &&& record.allowed_tenants@.len() == 0
        }),
        record.role@ == "worker"@ ==> (record.has_role() <==> {
            &&& record.tenant_id is None
            &&& record.worker_id is Some && text::is_alias(record.worker_id->0@)
            &&& record.allowed_grants@.len() == 0
            &&& are_ids(record.allowed_tenants@) && record.allowed_tenants@.len() > 0
        }),
        record.has_role() ==> record.role@ == "owner"@ || record.role@ == "invoker"@
            || record.role@ == "worker"@,
        record.is_valid() <==> record.has_role() && text::is_alias(record.id@)
            && types::is_digest_text(record.token_sha256@),
{
    reveal_strlit("owner");
    reveal_strlit("invoker");
    reveal_strlit("worker");
    assert("owner"@.len() == 5 && "invoker"@.len() == 7 && "worker"@.len() == 6);
}

/// A record gives the authority of its own role and no other, over the tenant, the
/// grants or the tenants that it names.
pub proof fn records_give_what_they_name(record: PrincipalRecord, authority: AuthorityView)
    requires
        record.grants_authority(authority),
    ensures
        authority is Owner <==> record.role@ == "owner"@,
        authority is Invoker <==> record.role@ == "invoker"@,
        authority is Worker <==> record.role@ == "worker"@,
        authority is Owner ==> record.tenant_id is Some && record.tenant_id->0@ == ids::hyphenated(
            authority->Owner_tenant.value,
        ),
        authority is Invoker ==> record.tenant_id is Some && record.tenant_id->0@
            == ids::hyphenated(authority->Invoker_tenant.value),
        authority is Invoker ==> holds_ids(authority->grants, record.allowed_grants@),
        authority is Worker ==> record.worker_id is Some && record.worker_id->0@
            == authority->worker_id,
        authority is Worker ==> holds_ids(authority->tenants, record.allowed_tenants@),
{
    reveal_strlit("owner");
    reveal_strlit("invoker");
    reveal_strlit("worker");
    assert("owner"@.len() == 5 && "invoker"@.len() == 7 && "worker"@.len() == 6);
}

/// An entry has the name of its record, the credential's digest and the authority
/// that the record gives.
pub proof fn entries_are_of_their_record(record: PrincipalRecord, entry: EntryView)
    ensures
        describes(record, entry) <==> {
            &&& entry.principal.id == record.id@
            &&& types::hex_bytes(entry.digest) == text::utf8(record.token_sha256@)
            &&& record.grants_authority(entry.principal.authority)
        },
{
}

/// A file is valid exactly where it is of version one and has 1 to 1024 valid
/// records, of which no two share a name or a credential.
pub proof fn principal_files_are_valid_in_their_records(file: PrincipalFile)
    ensures
        file.is_valid() <==> {
            let records = file.principals@;
            &&& file.version == 1
            &&& 0 < records.len() < 1025
            &&& forall|i: int| 0 <= i < records.len() ==> (#[trigger] records[i]).is_valid()
            &&& forall|i: int, j: int|
                0 <= i < records.len() && 0 <= j < records.len() && i != j ==> (
                #[trigger] records[i]).id@ != (#[trigger] records[j]).id@
            &&& forall|i: int, j: int|
                0 <= i < records.len() && 0 <= j < records.len() && i != j ==> (
                #[trigger] records[i]).token_sha256@ != (#[trigger] records[j]).token_sha256@
        },
{
    let records = file.principals@;
    if file.is_valid() {
        assert forall|i: int, j: int|
            0 <= i < records.len() && 0 <= j < records.len() && i != j implies (
        #[trigger] records[i]).id@ != (#[trigger] records[j]).id@ && records[i].token_sha256@
            != records[j].token_sha256@ by {
            if i < j {
                assert(records[i].id@ != records[j].id@);
            } else {
                assert(records[j].id@ != records[i].id@);
            }
        }
    }
}

/// An authorization has a token exactly where it is the scheme's name, a space and
/// 32 to 256 bytes of visible ASCII; those are the token.
pub proof fn tokens_follow_their_scheme(authorization: Seq<char>, token: Seq<u8>)
    ensures
        bearer_token(authorization) == Some(token) <==> {
            &&& text::utf8(authorization) == text::utf8("Bearer "@) + token
            &&& 31 < token.len() < 257
            &&& forall|i: int| 0 <= i < token.len() ==> 0x21 <= #[trigger] token[i] <= 0x7e
        },
{
    reveal_strlit("Bearer ");
    vstd::utf8::is_ascii_chars_encode_utf8("Bearer "@);
    let bytes = text::utf8(authorization);
    let prefix = text::utf8("Bearer "@);
    assert(prefix.len() == 7);
    if bearer_token(authorization) == Some(token) {
        assert(bytes =~= bytes.take(7) + bytes.skip(7));
        assert forall|i: int| 0 <= i < token.len() implies 0x21 <= #[trigger] token[i] <= 0x7e by {
            assert(text::is_graphic(token[i]));
        }
    }
    if bytes == prefix + token {
        assert(bytes.take(7) =~= prefix);
        assert(bytes.skip(7) =~= token);
    }
}

} // verus!
