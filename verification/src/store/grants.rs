//! Grants in the store. Parent links are never updated; an ancestry is locked
//! from its root before anything is judged by it.
use vstd::prelude::*;

use crate::domain::grants;
use crate::domain::grants::{
    reservation_plan, validate_chain, validate_child, Authority, Grant, GrantError, MAX_CHAIN,
};
use crate::domain::hash;
use crate::encoding;
use crate::ids;
use crate::ids::{IdSet, Uuid};
use crate::names;
use crate::names::NameSet;
use crate::store::{ReservationKind, Store, StoreError};
use crate::text;

verus! {

/// A grant as it is stored.
#[derive(Debug)]
pub struct GrantRow {
    pub id: Uuid,
    pub parent_id: Option<Uuid>,
    pub depth: i32,
    pub actions: Vec<String>,
    pub destinations: Vec<String>,
    pub projects: Vec<String>,
    pub max_effects: i64,
    pub used_effects: i64,
    pub expires_at_ms: i64,
    pub revoked: bool,
}

/// The set holds the names of the list, and no others.
pub open spec fn is_set_of(set: NameSet, list: Seq<String>) -> bool {
    forall|name: Seq<char>| #[trigger] set@.contains(name) <==> names::texts(list).contains(name)
}

impl GrantRow {
    /// The numbers of the row are within their ranges.
    pub open spec fn is_readable(self) -> bool {
        &&& 0 <= self.depth <= u8::MAX
        &&& self.max_effects >= 0
        &&& self.used_effects >= 0
    }

    /// The row is a grant of the tenant, leaving out whether it is revoked.
    pub open spec fn reads_as(self, grant: Grant, tenant: Uuid) -> bool {
        &&& grant.id == self.id
        &&& grant.tenant_id == tenant
        &&& grant.parent_id == self.parent_id
        &&& grant.depth == self.depth
        &&& is_set_of(grant.authority.actions, self.actions@)
        &&& is_set_of(grant.authority.destinations, self.destinations@)
        &&& is_set_of(grant.authority.projects, self.projects@)
        &&& grant.authority.expires_at_ms == self.expires_at_ms
        &&& grant.authority.max_effects == self.max_effects
        &&& grant.used_effects == self.used_effects
    }

    /// The grant of a row, taken as not revoked.
    fn read(self, tenant: Uuid) -> (r: Option<Grant>)
        ensures
            match r {
                Some(grant) => self.is_readable() && self.reads_as(grant, tenant) && !grant.revoked,
                None => !self.is_readable(),
            },
    {
        if self.depth < 0 || self.depth > u8::MAX as i32 || self.max_effects < 0
            || self.used_effects < 0 {
            return None;
        }
        Some(
            Grant {
                id: self.id,
                tenant_id: tenant,
                parent_id: self.parent_id,
                depth: self.depth as u8,
                authority: Authority {
                    actions: NameSet::from_texts(self.actions),
                    destinations: NameSet::from_texts(self.destinations),
                    projects: NameSet::from_texts(self.projects),
                    expires_at_ms: self.expires_at_ms,
                    max_effects: self.max_effects as u64,
                },
                used_effects: self.used_effects as u64,
                revoked: false,
            },
        )
    }
}

/// Grants with the same place and authority, none of them revoked.
pub open spec fn unrevoked(chain: Seq<Grant>) -> Seq<Grant> {
    Seq::new(chain.len(), |i: int| Grant { revoked: false, ..chain[i] })
}

/// The grants are those of the rows.
pub open spec fn rows_read_as(
    rows: Seq<Option<GrantRow>>,
    chain: Seq<Grant>,
    tenant: Uuid,
) -> bool {
    &&& chain.len() == rows.len()
    &&& forall|i: int|
        0 <= i < rows.len() ==> {
            &&& #[trigger] rows[i] is Some
            &&& rows[i]->0.is_readable()
            &&& rows[i]->0.reads_as(chain[i], tenant)
        }
}

/// What is wrong with a row by itself.
pub open spec fn row_fault(row: Option<GrantRow>) -> Option<RowFault> {
    match row {
        None => Some(RowFault::Missing),
        Some(row) => if row.is_readable() {
            None
        } else {
            Some(RowFault::Unreadable)
        },
    }
}

/// What can be wrong with a row by itself.
pub enum RowFault {
    Missing,
    Unreadable,
}

impl StoreError {
    /// The error reports a row at fault.
    pub open spec fn reports_row(self, fault: RowFault) -> bool {
        match fault {
            RowFault::Missing => self is GrantNotFound,
            RowFault::Unreadable => self is CorruptGrant,
        }
    }

    /// The error reports a fault in a chain's structure.
    pub open spec fn reports_structure(self, error: GrantError) -> bool {
        if error is Inactive {
            self is CorruptGrant
        } else {
            self == StoreError::GrantValidation(error)
        }
    }
}

/// The ancestry that was read, from its root: a structurally valid chain,
/// whether or not its grants are expired or revoked.
pub fn load_grant_chain(tenant: Uuid, rows: Vec<Option<GrantRow>>) -> (r: Result<
    Vec<Grant>,
    StoreError,
>)
    ensures
        if !(1 <= rows@.len() <= MAX_CHAIN) {
            r is Err && r->Err_0 is GrantNotFound
        } else {
            match r {
                Ok(chain) => {
                    &&& rows_read_as(rows@, chain@, tenant)
                    &&& forall|i: int|
                        0 <= i < chain@.len() ==> (#[trigger] chain@[i]).revoked
                            == rows@[i]->0.revoked
                    &&& grants::is_chain(unrevoked(chain@), tenant, i64::MIN)
                },
                Err(error) => {
                    ||| exists|i: int|
                        {
                            &&& 0 <= i < rows@.len()
                            &&& row_fault(#[trigger] rows@[i]) is Some
                            &&& error.reports_row(row_fault(rows@[i])->0)
                            &&& forall|j: int|
                                0 <= j < i ==> row_fault(#[trigger] rows@[j]) is None
                        }
                    ||| exists|chain: Seq<Grant>, structure: GrantError|
                        {
                            &&& rows_read_as(rows@, chain, tenant)
                            &&& #[trigger] grants::is_chain_error(
                                chain,
                                tenant,
                                i64::MIN,
                                structure,
                            )
                            &&& chain == unrevoked(chain)
                            &&& error.reports_structure(structure)
                        }
                },
            }
        },
{
    if rows.len() == 0 || rows.len() > MAX_CHAIN {
        return Err(StoreError::GrantNotFound);
    }
    let ghost all = rows@;
    let mut chain: Vec<Grant> = Vec::new();
    let mut revoked: Vec<bool> = Vec::new();
    for row in iter: rows
        invariant
            all == rows@,
            iter.seq() == all,
            all.len() <= MAX_CHAIN,
            chain@.len() == iter.index(),
            revoked@.len() == iter.index(),
            forall|k: int|
                0 <= k < chain@.len() ==> {
                    &&& #[trigger] all[k] is Some
                    &&& all[k]->0.is_readable()
                    &&& all[k]->0.reads_as(chain@[k], tenant)
                    &&& !chain@[k].revoked
                    &&& revoked@[k] == all[k]->0.revoked
                },
    {
        let ghost at = chain@.len() as int;
        assert(row == all[at]);
        match row {
            None => {
                assert(row_fault(all[at]) is Some);
                return Err(StoreError::GrantNotFound);
            },
            Some(row) => {
                let was_revoked = row.revoked;
                match row.read(tenant) {
                    Some(grant) => {
                        chain.push(grant);
                        revoked.push(was_revoked);
                    },
                    None => {
                        assert(row_fault(all[at]) is Some);
                        return Err(StoreError::CorruptGrant);
                    },
                }
            },
        }
    }
    assert forall|k: int| 0 <= k < chain@.len() implies unrevoked(chain@)[k] == #[trigger] chain@[k] by {
        assert(all[k] is Some);
    }
    assert(unrevoked(chain@) =~= chain@);
    match validate_chain(chain.as_slice(), tenant, i64::MIN) {
        Ok(()) => {},
        Err(error) => {
            assert(rows_read_as(all, chain@, tenant));
            assert(grants::is_chain_error(chain@, tenant, i64::MIN, error));
            return Err(
                match error {
                    GrantError::Inactive => StoreError::CorruptGrant,
                    other => StoreError::GrantValidation(other),
                },
            );
        },
    }
    let ghost structural = chain@;
    let mut i: usize = 0;
    while i < chain.len()
        invariant
            i <= chain@.len(),
            chain@.len() == structural.len(),
            revoked@.len() == structural.len(),
            forall|k: int|
                0 <= k < structural.len() ==> (#[trigger] chain@[k]) == (Grant {
                    revoked: if k < i {
                        revoked@[k]
                    } else {
                        structural[k].revoked
                    },
                    ..structural[k]
                }),
        decreases chain@.len() - i,
    {
        chain[i].revoked = revoked[i];
        i = i + 1;
    }
    proof {
        assert forall|k: int| 0 <= k < all.len() implies {
            &&& #[trigger] all[k] is Some
            &&& all[k]->0.is_readable()
            &&& all[k]->0.reads_as(chain@[k], tenant)
        } by {
            assert(chain@[k].authority == structural[k].authority);
        }
        assert(unrevoked(chain@) =~= structural);
    }
    Ok(chain)
}

/// The identifiers of a chain, from its root.
pub open spec fn chain_ids(chain: Seq<Grant>) -> Seq<Uuid> {
    Seq::new(chain.len(), |i: int| chain[i].id)
}

/// The identifiers of a chain, from its root.
pub fn ancestry_ids(chain: &[Grant]) -> (r: Vec<Uuid>)
    ensures
        r@ == chain_ids(chain@),
{
    let mut out: Vec<Uuid> = Vec::new();
    let mut i: usize = 0;
    while i < chain.len()
        invariant
            i <= chain.len(),
            out@.len() == i,
            forall|k: int| 0 <= k < i ==> out@[k] == chain@[k].id,
        decreases chain.len() - i,
    {
        out.push(chain[i].id);
        i = i + 1;
    }
    assert(out@ =~= chain_ids(chain@));
    out
}

/// Who acts: a name of 1 to 64 bytes.
pub open spec fn is_actor(actor_id: Seq<char>) -> bool {
    1 <= text::utf8(actor_id).len() <= 64
}

/// The record of what an operator did to a grant.
#[derive(Debug)]
pub struct OperatorEvent {
    pub tenant: Uuid,
    pub actor_id: String,
    pub action: &'static str,
    pub object: Uuid,
    pub detail: [u8; 32],
}

impl OperatorEvent {
    /// The record says who did what to which grant, with the hash of a message.
    pub open spec fn says(
        self,
        tenant: Uuid,
        actor_id: Seq<char>,
        action: Seq<char>,
        object: Uuid,
        message: Seq<u8>,
    ) -> bool {
        &&& self.tenant == tenant
        &&& self.actor_id@ == actor_id
        &&& self.action@ == action
        &&& self.object == object
        &&& self.detail@ == encoding::sha256(message)
    }
}

/// A grant to be inserted, with the record of its creation.
#[derive(Debug)]
pub struct GrantPlan {
    pub tenant: Uuid,
    pub id: Uuid,
    pub parent_id: Option<Uuid>,
    pub depth: i32,
    pub actions: Vec<String>,
    pub destinations: Vec<String>,
    pub projects: Vec<String>,
    pub max_effects: i64,
    pub expires_at_ms: i64,
    pub event: OperatorEvent,
    /// The new grant's ancestry, itself last.
    pub ancestry: Vec<Uuid>,
}

/// How a grant is revoked.
#[derive(Debug)]
pub enum RevokePlan {
    /// It was revoked before, at this time.
    Already(String),
    /// It is to be revoked now, with this record.
    Revoke { event: OperatorEvent },
}

/// A reason: up to 256 characters and 1024 bytes, not empty.
pub open spec fn is_reason(reason: Seq<char>) -> bool {
    &&& 1 <= text::utf8(reason).len() <= 1024
    &&& reason.len() <= 256
}

/// An effect as it is stored.
#[derive(Debug)]
pub struct EffectRow {
    pub action: String,
    pub destination: String,
    pub project: String,
    pub state: String,
    /// Its reservation was charged.
    pub charged: bool,
}

/// How an effect is reserved.
#[derive(Debug)]
pub enum ReservePlan {
    /// It was before.
    Existing,
    /// Each grant is to be charged: its identifier and its use thereafter.
    Charge(Vec<(Uuid, i64)>),
}

impl ReservePlan {
    pub fn kind(&self) -> (r: ReservationKind)
        ensures
            r == (if self is Existing {
                ReservationKind::Existing
            } else {
                ReservationKind::Created
            }),
    {
        match self {
            ReservePlan::Existing => ReservationKind::Existing,
            ReservePlan::Charge(_) => ReservationKind::Created,
        }
    }
}

/// The list holds each grant of the chain once, in ascending order.
pub open spec fn lists_chain(list: Seq<Uuid>, chain: Seq<Grant>) -> bool {
    &&& ids::ascending(list)
    &&& forall|id: Uuid| #[trigger] list.contains(id) <==> chain_ids(chain).contains(id)
}

/// Two ascending lists of the same identifiers are the same list.
proof fn ascending_lists_are_equal(a: Seq<Uuid>, b: Seq<Uuid>)
    requires
        ids::ascending(a),
        ids::ascending(b),
        forall|id: Uuid| #[trigger] a.contains(id) <==> b.contains(id),
    ensures
        a == b,
    decreases a.len(),
{
    if a.len() == 0 {
        if b.len() > 0 {
            assert(b.contains(b[0]));
            assert(a.contains(b[0]));
        }
        assert(a =~= b);
    } else {
        assert(a.contains(a.last()));
        assert(b.len() > 0) by {
            assert(b.contains(a.last()));
        }
        assert(b.contains(b.last()));
        assert(a.contains(b.last()));
        let i = choose|i: int| 0 <= i < b.len() && b[i] == a.last();
        let j = choose|j: int| 0 <= j < a.len() && a[j] == b.last();
        assert(a.last().value == b.last().value);
        let x = a.drop_last();
        let y = b.drop_last();
        assert forall|id: Uuid| #[trigger] x.contains(id) <==> y.contains(id) by {
            if x.contains(id) {
                let k = choose|k: int| 0 <= k < x.len() && x[k] == id;
                assert(a[k] == id && id.value < a.last().value);
                assert(a.contains(id));
                let m = choose|m: int| 0 <= m < b.len() && b[m] == id;
                assert(y[m] == id);
            }
            if y.contains(id) {
                let k = choose|k: int| 0 <= k < y.len() && y[k] == id;
                assert(b[k] == id && id.value < b.last().value);
                assert(b.contains(id));
                assert(a.contains(id));
                let m = choose|m: int| 0 <= m < a.len() && a[m] == id;
                assert(x[m] == id);
            }
        }
        ascending_lists_are_equal(x, y);
        assert(a =~= x.push(a.last()));
        assert(b =~= y.push(b.last()));
    }
}

/// Whether a list holds each grant of a chain once, in ascending order.
fn is_chain_listed(list: &[Uuid], chain: &[Grant]) -> (r: bool)
    ensures
        r == lists_chain(list@, chain@),
{
    let mut set = IdSet::new();
    let mut i: usize = 0;
    while i < chain.len()
        invariant
            i <= chain.len(),
            forall|id: Uuid| #[trigger]
                set@.contains(id) <==> exists|k: int| 0 <= k < i && chain@[k].id == id,
        decreases chain.len() - i,
    {
        let _new = set.insert(chain[i].id);
        i = i + 1;
    }
    let expected = set.to_vec();
    proof {
        let all = chain_ids(chain@);
        assert forall|id: Uuid| #[trigger] expected@.contains(id) <==> all.contains(id) by {
            if expected@.contains(id) {
                let k = choose|k: int| 0 <= k < i && chain@[k].id == id;
                assert(all[k] == id);
            }
            if all.contains(id) {
                let k = choose|k: int| 0 <= k < all.len() && all[k] == id;
                assert(chain@[k].id == id);
            }
        }
        if lists_chain(list@, chain@) {
            ascending_lists_are_equal(list@, expected@);
        }
    }
    if list.len() != expected.len() {
        return false;
    }
    let mut i: usize = 0;
    while i < list.len()
        invariant
            i <= list.len(),
            list.len() == expected@.len(),
            lists_chain(list@, chain@) ==> list@ == expected@,
            forall|k: int| 0 <= k < i ==> list@[k] == expected@[k],
        decreases list.len() - i,
    {
        if list[i] != expected[i] {
            return false;
        }
        i = i + 1;
    }
    assert(list@ =~= expected@);
    true
}

/// Charges as they are stored, where each is within range.
fn stored_charges(plan: &[(Uuid, u64)]) -> (r: Option<Vec<(Uuid, i64)>>)
    ensures
        match r {
            Some(charges) => {
                &&& charges@.len() == plan@.len()
                &&& forall|i: int|
                    0 <= i < plan@.len() ==> (#[trigger] charges@[i]).0 == plan@[i].0
                        && charges@[i].1 == plan@[i].1
            },
            None => exists|i: int| 0 <= i < plan@.len() && (#[trigger] plan@[i]).1 > i64::MAX,
        },
{
    let mut charges: Vec<(Uuid, i64)> = Vec::new();
    let mut i: usize = 0;
    while i < plan.len()
        invariant
            i <= plan.len(),
            charges@.len() == i,
            forall|k: int|
                0 <= k < i ==> (#[trigger] charges@[k]).0 == plan@[k].0 && charges@[k].1
                    == plan@[k].1,
        decreases plan.len() - i,
    {
        let (grant, next): (Uuid, u64) = plan[i];
        if next > i64::MAX as u64 {
            assert(plan@[i as int].1 > i64::MAX);
            return None;
        }
        charges.push((grant, next as i64));
        i = i + 1;
    }
    Some(charges)
}

impl Store {
    /// Judge who creates a grant, before anything is read.
    pub fn check_actor(actor_id: &str) -> (r: Result<(), StoreError>)
        ensures
            match r {
                Ok(()) => is_actor(actor_id@),
                Err(error) => !is_actor(actor_id@) && error.refuses("invalid grant actor"@),
            },
    {
        let length: usize = text::byte_len(actor_id);
        if length == 0 || length > 64 {
            return Err(StoreError::Configuration("invalid grant actor"));
        }
        Ok(())
    }

    /// Judge who revokes a grant and why, before anything is read.
    pub fn check_revocation(actor_id: &str, reason: &str) -> (r: Result<(), StoreError>)
        ensures
            match r {
                Ok(()) => is_actor(actor_id@) && is_reason(reason@),
                Err(error) => {
                    &&& !is_actor(actor_id@) || !is_reason(reason@)
                    &&& error.refuses("invalid revocation metadata"@)
                },
            },
    {
        let actor_length: usize = text::byte_len(actor_id);
        let reason_length: usize = text::byte_len(reason);
        if actor_length == 0 || actor_length > 64 || reason_length == 0 || reason_length > 1024
            || reason.unicode_len() > 256 {
            return Err(StoreError::Configuration("invalid revocation metadata"));
        }
        Ok(())
    }

    /// Create a root, or a child below the ancestry of its parent. `ancestry`
    /// is empty for a root, or why it could not be loaded.
    pub fn create_grant(
        tenant: Uuid,
        parent: Option<Uuid>,
        actor_id: &str,
        authority: &Authority,
        ancestry: Result<Vec<Grant>, StoreError>,
        now_ms: i64,
        id: Uuid,
    ) -> (r: Result<GrantPlan, StoreError>)
        ensures
            if !is_actor(actor_id@) {
                r is Err && r->Err_0.refuses("invalid grant actor"@)
            } else {
                match ancestry {
                    Err(error) => r == Err::<GrantPlan, StoreError>(error),
                    Ok(above) => match r {
                        Ok(plan) => {
                            &&& above@.len() == 0 ==> authority.is_valid_at(now_ms)
                            &&& above@.len() > 0 ==> grants::is_child(
                                *authority,
                                above@,
                                tenant,
                                now_ms,
                            )
                            &&& plan.tenant == tenant
                            &&& plan.id == id
                            &&& plan.parent_id == parent
                            &&& plan.depth == above@.len()
                            &&& names::texts(plan.actions@) == authority.actions@
                            &&& names::texts(plan.destinations@) == authority.destinations@
                            &&& names::texts(plan.projects@) == authority.projects@
                            &&& plan.max_effects == authority.max_effects
                            &&& plan.expires_at_ms == authority.expires_at_ms
                            &&& plan.event.says(
                                tenant,
                                actor_id@,
                                "grant.created"@,
                                id,
                                hash::grant_message(parent, *authority),
                            )
                            &&& plan.ancestry@ == chain_ids(above@).push(id)
                        },
                        Err(StoreError::GrantValidation(error)) => if above@.len() == 0 {
                            error is Invalid && !authority.is_valid_at(now_ms)
                        } else {
                            &&& !grants::is_child(*authority, above@, tenant, now_ms)
                            &&& grants::is_child_error(*authority, above@, tenant, now_ms, error)
                        },
                        Err(_) => false,
                    },
                }
            },
    {
        match Store::check_actor(actor_id) {
            Ok(()) => {},
            Err(error) => return Err(error),
        }
        let above = match ancestry {
            Ok(above) => above,
            Err(error) => return Err(error),
        };
        if above.len() == 0 {
            match authority.validate(now_ms) {
                Ok(()) => {},
                Err(error) => return Err(StoreError::GrantValidation(error)),
            }
        } else {
            match validate_child(authority, above.as_slice(), tenant, now_ms) {
                Ok(()) => {},
                Err(error) => return Err(StoreError::GrantValidation(error)),
            }
        }
        let mut line = ancestry_ids(above.as_slice());
        line.push(id);
        Ok(
            GrantPlan {
                tenant,
                id,
                parent_id: parent,
                depth: above.len() as i32,
                actions: authority.actions.to_texts(),
                destinations: authority.destinations.to_texts(),
                projects: authority.projects.to_texts(),
                max_effects: authority.max_effects as i64,
                expires_at_ms: authority.expires_at_ms,
                event: OperatorEvent {
                    tenant,
                    actor_id: text::copy_text(actor_id),
                    action: "grant.created",
                    object: id,
                    detail: hash::grant(parent, authority),
                },
                ancestry: line,
            },
        )
    }

    /// Revoke a grant whose ancestry was loaded. Repeated revocation keeps the
    /// first time.
    pub fn revoke_grant(
        tenant: Uuid,
        id: Uuid,
        actor_id: &str,
        reason: &str,
        loaded: Result<(), StoreError>,
        existing: Option<String>,
    ) -> (r: Result<RevokePlan, StoreError>)
        ensures
            if !is_actor(actor_id@) || !is_reason(reason@) {
                r is Err && r->Err_0.refuses("invalid revocation metadata"@)
            } else {
                match (loaded, existing) {
                    (Err(error), _) => r == Err::<RevokePlan, StoreError>(error),
                    (Ok(()), Some(at)) => r == Ok::<RevokePlan, StoreError>(
                        RevokePlan::Already(at),
                    ),
                    (Ok(()), None) => r matches Ok(RevokePlan::Revoke { event }) && event.says(
                        tenant,
                        actor_id@,
                        "grant.revoked"@,
                        id,
                        hash::revocation_message(id, reason@),
                    ),
                }
            },
    {
        match Store::check_revocation(actor_id, reason) {
            Ok(()) => {},
            Err(error) => return Err(error),
        }
        match loaded {
            Ok(()) => {},
            Err(error) => return Err(error),
        }
        match existing {
            Some(at) => Ok(RevokePlan::Already(at)),
            None => Ok(
                RevokePlan::Revoke {
                    event: OperatorEvent {
                        tenant,
                        actor_id: text::copy_text(actor_id),
                        action: "grant.revoked",
                        object: id,
                        detail: hash::grant_revocation(id, reason),
                    },
                },
            ),
        }
    }

    /// Reserve an effect with every grant of its run's chain, once. A replay
    /// finds the reservation that was made; anything in between is corrupt.
    pub fn reserve_grant_chain(
        tenant: Uuid,
        run_found: bool,
        ancestry: Result<Vec<Grant>, StoreError>,
        effect: Option<EffectRow>,
        existing: Vec<Uuid>,
        now_ms: i64,
    ) -> (r: Result<ReservePlan, StoreError>)
        ensures
            if !run_found {
                r is Err && r->Err_0 is RunNotFound
            } else {
                match (ancestry, effect) {
                    (Err(error), _) => r == Err::<ReservePlan, StoreError>(error),
                    (Ok(_), None) => r is Err && r->Err_0 is EffectNotFound,
                    (Ok(chain), Some(effect)) => if existing@.len() > 0 {
                        if lists_chain(existing@, chain@) && effect.charged {
                            r == Ok::<ReservePlan, StoreError>(ReservePlan::Existing)
                        } else {
                            r is Err && r->Err_0 is CorruptGrant
                        }
                    } else if effect.charged || effect.state@ != "PREPARED"@ {
                        r is Err && r->Err_0 is CorruptGrant
                    } else {
                        match r {
                            Ok(ReservePlan::Charge(charges)) => {
                                &&& grants::is_chain(chain@, tenant, now_ms)
                                &&& grants::all_pay(
                                    chain@,
                                    effect.action@,
                                    effect.destination@,
                                    effect.project@,
                                )
                                &&& forall|i: int|
                                    0 <= i < chain@.len() ==> {
                                        let grant = #[trigger] chain@[i];
                                        &&& grant.authority.actions@.contains(effect.action@)
                                        &&& grant.authority.destinations@.contains(
                                            effect.destination@,
                                        )
                                        &&& grant.authority.projects@.contains(effect.project@)
                                        &&& grant.tenant_id == tenant
                                        &&& !grant.revoked
                                        &&& grant.authority.expires_at_ms > now_ms
                                        &&& grant.used_effects < grant.authority.max_effects
                                    }
                                &&& charges@.len() == chain@.len()
                                &&& forall|i: int|
                                    0 <= i < chain@.len() ==> (#[trigger] charges@[i]).0
                                        == chain@[i].id && charges@[i].1 == chain@[i].used_effects
                                        + 1
                            },
                            Ok(ReservePlan::Existing) => false,
                            Err(StoreError::GrantValidation(error)) => grants::is_charge_error(
                                chain@,
                                tenant,
                                now_ms,
                                effect.action@,
                                effect.destination@,
                                effect.project@,
                                error,
                            ),
                            Err(StoreError::CorruptGrant) => {
                                &&& grants::is_chain(chain@, tenant, now_ms)
                                &&& grants::all_pay(
                                    chain@,
                                    effect.action@,
                                    effect.destination@,
                                    effect.project@,
                                )
                                &&& exists|i: int|
                                    0 <= i < chain@.len() && (#[trigger] chain@[i]).used_effects
                                        >= i64::MAX
                            },
                            Err(_) => false,
                        }
                    },
                }
            },
    {
        if !run_found {
            return Err(StoreError::RunNotFound);
        }
        let chain = match ancestry {
            Ok(chain) => chain,
            Err(error) => return Err(error),
        };
        let effect = match effect {
            Some(effect) => effect,
            None => return Err(StoreError::EffectNotFound),
        };
        if existing.len() > 0 {
            if is_chain_listed(existing.as_slice(), chain.as_slice()) && effect.charged {
                return Ok(ReservePlan::Existing);
            }
            return Err(StoreError::CorruptGrant);
        }
        if effect.charged || !text::text_equal(effect.state.as_str(), "PREPARED") {
            return Err(StoreError::CorruptGrant);
        }
        let plan = match reservation_plan(
            chain.as_slice(),
            tenant,
            now_ms,
            effect.action.as_str(),
            effect.destination.as_str(),
            effect.project.as_str(),
        ) {
            Ok(plan) => plan,
            Err(error) => return Err(StoreError::GrantValidation(error)),
        };
        match stored_charges(plan.as_slice()) {
            Some(charges) => {
                assert forall|i: int| 0 <= i < chain@.len() implies (#[trigger] charges@[i]).0
                    == chain@[i].id && charges@[i].1 == chain@[i].used_effects + 1 by {
                    assert(plan@[i].0 == chain@[i].id);
                    assert(grants::charge_fault(
                        chain@[i],
                        effect.action@,
                        effect.destination@,
                        effect.project@,
                    ) is None);
                }
                Ok(ReservePlan::Charge(charges))
            },
            None => {
                proof {
                    let i = choose|i: int| 0 <= i < plan@.len() && (#[trigger] plan@[i]).1 > i64::MAX;
                    assert(grants::charge_fault(
                        chain@[i],
                        effect.action@,
                        effect.destination@,
                        effect.project@,
                    ) is None);
                    assert(chain@[i].used_effects >= i64::MAX);
                }
                Err(StoreError::CorruptGrant)
            },
        }
    }
}

/// A reservation is made once: where each grant of a chain was charged for an
/// effect, asking again finds the reservation, and nothing is charged twice.
pub proof fn reservation_is_made_once(
    chain: Seq<Grant>,
    charges: Seq<(Uuid, i64)>,
    reserved: Seq<Uuid>,
)
    requires
        charges.len() == chain.len(),
        forall|i: int| 0 <= i < chain.len() ==> (#[trigger] charges[i]).0 == chain[i].id,
        ids::ascending(reserved),
        forall|id: Uuid| #[trigger]
            reserved.contains(id) <==> exists|i: int| 0 <= i < charges.len() && charges[i].0 == id,
    ensures
        lists_chain(reserved, grants::charged(chain)),
{
    let all = chain_ids(grants::charged(chain));
    assert forall|id: Uuid| #[trigger] reserved.contains(id) <==> all.contains(id) by {
        if reserved.contains(id) {
            let i = choose|i: int| 0 <= i < charges.len() && charges[i].0 == id;
            assert(all[i] == id);
        }
        if all.contains(id) {
            let i = choose|i: int| 0 <= i < all.len() && all[i] == id;
            assert(charges[i].0 == id);
        }
    }
}

/// An actor has a name of 1 to 64 bytes, and a reason has 1 to 256 characters in
/// up to 1024 bytes; every such actor and reason is taken.
pub proof fn actors_and_reasons_are_bounded(actor_id: Seq<char>, reason: Seq<char>)
    ensures
        is_actor(actor_id) <==> 0 < text::utf8(actor_id).len() < 65,
        is_reason(reason) <==> 0 < text::utf8(reason).len() < 1025 && reason.len() < 257,
{
}

/// A stored grant is read with nothing changed: its place, its names, its end, its
/// budget and its use.
pub proof fn rows_are_read_unchanged(row: GrantRow, grant: Grant, tenant: Uuid, name: Seq<char>)
    requires
        row.reads_as(grant, tenant),
    ensures
        grant.id == row.id && grant.tenant_id == tenant && grant.parent_id == row.parent_id,
        grant.depth == row.depth,
        grant.used_effects == row.used_effects,
        grant.authority.max_effects == row.max_effects,
        grant.authority.expires_at_ms == row.expires_at_ms,
        grant.authority.actions@.contains(name) <==> names::texts(row.actions@).contains(name),
        grant.authority.destinations@.contains(name) <==> names::texts(
            row.destinations@,
        ).contains(name),
        grant.authority.projects@.contains(name) <==> names::texts(row.projects@).contains(name),
{
}

/// A row can be read exactly where its depth fits a byte and neither of its
/// numbers is negative; a row that is missing and one that cannot be read are
/// told apart.
pub proof fn rows_are_readable_where_not_negative(row: GrantRow, error: StoreError)
    ensures
        row.is_readable() <==> 0 <= row.depth < 256 && 0 <= row.max_effects && 0
            <= row.used_effects,
        row_fault(None) matches Some(fault) && (error.reports_row(fault)
            <==> error is GrantNotFound),
        row_fault(Some(row)) is None <==> row.is_readable(),
        !row.is_readable() ==> (row_fault(Some(row)) matches Some(fault) && (error.reports_row(
            fault,
        ) <==> error is CorruptGrant)),
{
}

/// A reservation is listed for a chain exactly where it holds every grant of the
/// chain, no other, and none twice.
pub proof fn reservations_list_the_chain(list: Seq<Uuid>, chain: Seq<Grant>, id: Uuid, i: int)
    requires
        lists_chain(list, chain),
    ensures
        0 <= i < chain.len() ==> list.contains(chain[i].id),
        list.contains(id) ==> exists|k: int| 0 <= k < chain.len() && (#[trigger] chain[k]).id == id,
        list.no_duplicates(),
{
    let all = chain_ids(chain);
    if 0 <= i < chain.len() {
        assert(all[i] == chain[i].id);
        assert(all.contains(chain[i].id));
    }
    if list.contains(id) {
        let k = choose|k: int| 0 <= k < all.len() && all[k] == id;
        assert(chain[k].id == id);
    }
    assert forall|j: int, k: int|
        0 <= j < list.len() && 0 <= k < list.len() && j != k implies list[j] != list[k] by {
        if j < k {
            assert(list[j].value < list[k].value);
        } else {
            assert(list[k].value < list[j].value);
        }
    }
}

/// The identifiers of a chain are those of its grants, in order, and leaving
/// revocations out of account changes nothing else of them.
pub proof fn chains_keep_their_order(chain: Seq<Grant>, i: int)
    requires
        0 <= i < chain.len(),
    ensures
        chain_ids(chain).len() == chain.len(),
        chain_ids(chain)[i] == chain[i].id,
        unrevoked(chain).len() == chain.len(),
        !unrevoked(chain)[i].revoked,
        unrevoked(chain)[i].id == chain[i].id,
        unrevoked(chain)[i].authority == chain[i].authority,
        unrevoked(chain)[i].used_effects == chain[i].used_effects,
        unrevoked(chain)[i].depth == chain[i].depth,
        unrevoked(chain)[i].parent_id == chain[i].parent_id,
        unrevoked(chain)[i].tenant_id == chain[i].tenant_id,
{
}

/// What an operator did is recorded with who did it, to which grant of which
/// tenant, and the hash of the details.
pub proof fn operator_events_say_who_did_what(
    event: OperatorEvent,
    tenant: Uuid,
    actor_id: Seq<char>,
    action: Seq<char>,
    object: Uuid,
    message: Seq<u8>,
)
    requires
        event.says(tenant, actor_id, action, object, message),
    ensures
        event.tenant == tenant && event.object == object,
        event.actor_id@ == actor_id,
        event.action@ == action,
        event.detail@ == encoding::sha256(message),
{
}

/// The grants of rows are as many as the rows, and each is read from the row at
/// its own place, which is there and can be read.
pub proof fn grants_are_read_from_their_rows(
    rows: Seq<Option<GrantRow>>,
    chain: Seq<Grant>,
    tenant: Uuid,
    i: int,
)
    requires
        rows_read_as(rows, chain, tenant),
        0 <= i < rows.len(),
    ensures
        chain.len() == rows.len(),
        rows[i] is Some,
        rows[i]->0.is_readable(),
        chain[i].id == rows[i]->0.id,
        chain[i].tenant_id == tenant,
        chain[i].parent_id == rows[i]->0.parent_id,
        chain[i].authority.expires_at_ms == rows[i]->0.expires_at_ms,
        chain[i].authority.max_effects == rows[i]->0.max_effects,
        chain[i].used_effects == rows[i]->0.used_effects,
{
    assert(rows[i] is Some);
}

/// A chain whose structure is at fault is reported with its fault, but for one
/// that is inactive, which no stored structure can be.
pub proof fn structures_are_reported_with_their_fault(failed: StoreError, error: GrantError)
    ensures
        error == GrantError::Inactive ==> (failed.reports_structure(error)
            <==> failed is CorruptGrant),
        error != GrantError::Inactive ==> (failed.reports_structure(error) <==> failed
            == StoreError::GrantValidation(error)),
{
}

} // verus!
