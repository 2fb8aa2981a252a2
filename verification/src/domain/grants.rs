//! Pure grant checks. Callers must lock the complete ancestry in the database
//! and use database time; this module is never an in-memory authorization cache.
use vstd::prelude::*;

use crate::domain::types::alias;
use crate::ids::Uuid;
use crate::names::NameSet;
use crate::text;

verus! {

/// The longest chain from a root to a leaf.
pub const MAX_CHAIN: usize = 5;

/// The longest life of a grant, in milliseconds.
pub const MAX_TTL_MS: i64 = 86_400_000;

/// What a grant allows.
#[derive(Debug)]
pub struct Authority {
    pub actions: NameSet,
    pub destinations: NameSet,
    pub projects: NameSet,
    pub expires_at_ms: i64,
    pub max_effects: u64,
}

impl Clone for Authority {
    fn clone(&self) -> (r: Authority)
        ensures
            r.same_as(*self),
    {
        Authority {
            actions: self.actions.clone(),
            destinations: self.destinations.clone(),
            projects: self.projects.clone(),
            expires_at_ms: self.expires_at_ms,
            max_effects: self.max_effects,
        }
    }
}

/// A grant with its place in the ancestry and its use so far.
#[derive(Debug)]
pub struct Grant {
    pub id: Uuid,
    pub tenant_id: Uuid,
    pub parent_id: Option<Uuid>,
    pub depth: u8,
    pub authority: Authority,
    pub used_effects: u64,
    pub revoked: bool,
}

impl Clone for Grant {
    fn clone(&self) -> (r: Grant)
        ensures
            r.id == self.id,
            r.tenant_id == self.tenant_id,
            r.parent_id == self.parent_id,
            r.depth == self.depth,
            r.authority.same_as(self.authority),
            r.used_effects == self.used_effects,
            r.revoked == self.revoked,
    {
        Grant {
            id: self.id,
            tenant_id: self.tenant_id,
            parent_id: self.parent_id,
            depth: self.depth,
            authority: self.authority.clone(),
            used_effects: self.used_effects,
            revoked: self.revoked,
        }
    }
}

#[derive(Clone, Copy, Debug, PartialEq, Eq, Structural)]
pub enum GrantError {
    Invalid,
    Escalation,
    Ancestry,
    Inactive,
    Exhausted,
    Denied,
}

/// A set of resources that a grant may name: 1 to 16 aliases.
pub open spec fn is_resource_set(set: Seq<Seq<char>>) -> bool {
    &&& 1 <= set.len() <= 16
    &&& forall|i: int| 0 <= i < set.len() ==> text::is_alias(#[trigger] set[i])
}

fn resource_set(set: &NameSet) -> (r: bool)
    ensures
        r == is_resource_set(set@),
{
    if set.is_empty() || set.len() > 16 {
        return false;
    }
    let mut i: usize = 0;
    while i < set.len()
        invariant
            i <= set@.len(),
            forall|k: int| 0 <= k < i ==> text::is_alias(#[trigger] set@[k]),
        decreases set@.len() - i,
    {
        if !alias(set.get(i)) {
            return false;
        }
        i = i + 1;
    }
    true
}

impl Authority {
    /// The same names, expiry and budget.
    pub open spec fn same_as(self, other: Authority) -> bool {
        &&& self.actions@ == other.actions@
        &&& self.destinations@ == other.destinations@
        &&& self.projects@ == other.projects@
        &&& self.expires_at_ms == other.expires_at_ms
        &&& self.max_effects == other.max_effects
    }

    /// A budget of 1 to 100 effects, ticket creation as the only action, and
    /// resources within bounds.
    pub open spec fn is_shaped(self) -> bool {
        &&& 1 <= self.max_effects <= 100
        &&& self.actions@.len() == 1
        &&& self.actions@.contains("ticket.create"@)
        &&& is_resource_set(self.destinations@)
        &&& is_resource_set(self.projects@)
    }

    /// Well shaped, and expiring within a day from now.
    pub open spec fn is_valid_at(self, now_ms: i64) -> bool {
        &&& self.is_shaped()
        &&& 0 < self.expires_at_ms - now_ms <= MAX_TTL_MS
    }

    /// Nothing is allowed that the parent does not allow.
    pub open spec fn attenuates_spec(self, parent: Authority) -> bool {
        &&& self.actions.subset_of(parent.actions)
        &&& self.destinations.subset_of(parent.destinations)
        &&& self.projects.subset_of(parent.projects)
        &&& self.expires_at_ms <= parent.expires_at_ms
        &&& self.max_effects <= parent.max_effects
    }

    /// The authority covers an action on a project at a destination.
    pub open spec fn covers(
        self,
        action: Seq<char>,
        destination: Seq<char>,
        project: Seq<char>,
    ) -> bool {
        &&& self.actions@.contains(action)
        &&& self.destinations@.contains(destination)
        &&& self.projects@.contains(project)
    }

    pub fn validate_shape(&self) -> (r: Result<(), GrantError>)
        ensures
            r == (if self.is_shaped() {
                Ok::<(), GrantError>(())
            } else {
                Err(GrantError::Invalid)
            }),
    {
        if self.max_effects < 1 || self.max_effects > 100 {
            return Err(GrantError::Invalid);
        }
        if self.actions.len() != 1 || !self.actions.contains("ticket.create") {
            return Err(GrantError::Invalid);
        }
        if !resource_set(&self.destinations) || !resource_set(&self.projects) {
            return Err(GrantError::Invalid);
        }
        Ok(())
    }

    pub fn validate(&self, now_ms: i64) -> (r: Result<(), GrantError>)
        ensures
            r == (if self.is_valid_at(now_ms) {
                Ok::<(), GrantError>(())
            } else {
                Err(GrantError::Invalid)
            }),
    {
        match self.validate_shape() {
            Ok(()) => {},
            Err(error) => return Err(error),
        }
        match self.expires_at_ms.checked_sub(now_ms) {
            None => Err(GrantError::Invalid),
            Some(ttl) => if ttl <= 0 || ttl > MAX_TTL_MS {
                Err(GrantError::Invalid)
            } else {
                Ok(())
            },
        }
    }

    pub fn attenuates(&self, parent: &Authority) -> (r: bool)
        ensures
            r == self.attenuates_spec(*parent),
    {
        self.actions.is_subset(&parent.actions) && self.destinations.is_subset(&parent.destinations)
            && self.projects.is_subset(&parent.projects) && self.expires_at_ms
            <= parent.expires_at_ms && self.max_effects <= parent.max_effects
    }
}

/// A grant stands in its place: in the tenant, at its depth, seen once, below its parent.
pub open spec fn is_placed(chain: Seq<Grant>, i: int, tenant: Uuid) -> bool {
    &&& chain[i].tenant_id == tenant
    &&& chain[i].depth == i
    &&& forall|j: int| 0 <= j < i ==> #[trigger] chain[j].id != chain[i].id
    &&& chain[i].parent_id == (if i == 0 {
        None
    } else {
        Some(chain[i - 1].id)
    })
}

/// What is wrong with a grant of a chain, taken by itself and with its parent.
pub open spec fn grant_fault(
    chain: Seq<Grant>,
    i: int,
    tenant: Uuid,
    now_ms: i64,
) -> Option<GrantError> {
    if !is_placed(chain, i, tenant) {
        Some(GrantError::Ancestry)
    } else if chain[i].revoked || chain[i].authority.expires_at_ms <= now_ms {
        Some(GrantError::Inactive)
    } else if chain[i].used_effects > chain[i].authority.max_effects {
        Some(GrantError::Invalid)
    } else if i > 0 && !chain[i].authority.attenuates_spec(chain[i - 1].authority) {
        Some(GrantError::Escalation)
    } else {
        None
    }
}

/// A chain of 1 to 5 grants, none of them at fault.
pub open spec fn is_chain(chain: Seq<Grant>, tenant: Uuid, now_ms: i64) -> bool {
    &&& 1 <= chain.len() <= MAX_CHAIN
    &&& forall|i: int|
        0 <= i < chain.len() ==> #[trigger] grant_fault(chain, i, tenant, now_ms) is None
}

/// The error of a chain that is none: that of its first grant at fault.
pub open spec fn is_chain_error(
    chain: Seq<Grant>,
    tenant: Uuid,
    now_ms: i64,
    error: GrantError,
) -> bool {
    if !(1 <= chain.len() <= MAX_CHAIN) {
        error is Ancestry
    } else {
        exists|i: int|
            {
                &&& 0 <= i < chain.len()
                &&& #[trigger] grant_fault(chain, i, tenant, now_ms) == Some(error)
                &&& forall|j: int|
                    0 <= j < i ==> #[trigger] grant_fault(chain, j, tenant, now_ms) is None
            }
    }
}

/// Validate structural identity and liveness, independently of remaining budget.
/// Exhausted ancestry may still be inspected or replay a committed effect.
pub fn validate_chain(chain: &[Grant], tenant: Uuid, now_ms: i64) -> (r: Result<(), GrantError>)
    ensures
        match r {
            Ok(()) => is_chain(chain@, tenant, now_ms),
            Err(error) => !is_chain(chain@, tenant, now_ms) && is_chain_error(
                chain@,
                tenant,
                now_ms,
                error,
            ),
        },
{
    if chain.len() == 0 || chain.len() > MAX_CHAIN {
        return Err(GrantError::Ancestry);
    }
    let mut index: usize = 0;
    while index < chain.len()
        invariant
            index <= chain.len(),
            1 <= chain.len() <= MAX_CHAIN,
            forall|j: int|
                0 <= j < index ==> #[trigger] grant_fault(chain@, j, tenant, now_ms) is None,
        decreases chain.len() - index,
    {
        let ghost fault = grant_fault(chain@, index as int, tenant, now_ms);
        let grant = &chain[index];
        let mut seen = false;
        let mut j: usize = 0;
        while j < index
            invariant
                j <= index,
                index < chain.len(),
                grant == chain@[index as int],
                seen == exists|k: int| 0 <= k < j && #[trigger] chain@[k].id == grant.id,
            decreases index - j,
        {
            if chain[j].id == grant.id {
                seen = true;
            }
            j = j + 1;
        }
        let parent = if index == 0 {
            None
        } else {
            Some(chain[index - 1].id)
        };
        let below_parent = match (grant.parent_id, parent) {
            (None, None) => true,
            (Some(a), Some(b)) => a == b,
            _ => false,
        };
        if grant.tenant_id != tenant || grant.depth as usize != index || seen || !below_parent {
            assert(fault == Some(GrantError::Ancestry));
            return Err(GrantError::Ancestry);
        }
        assert(is_placed(chain@, index as int, tenant));
        if grant.revoked || grant.authority.expires_at_ms <= now_ms {
            assert(fault == Some(GrantError::Inactive));
            return Err(GrantError::Inactive);
        }
        if grant.used_effects > grant.authority.max_effects {
            assert(fault == Some(GrantError::Invalid));
            return Err(GrantError::Invalid);
        }
        if index > 0 && !grant.authority.attenuates(&chain[index - 1].authority) {
            assert(fault == Some(GrantError::Escalation));
            return Err(GrantError::Escalation);
        }
        assert(fault is None);
        index = index + 1;
    }
    Ok(())
}

/// A child may be created below an ancestry.
pub open spec fn is_child(
    child: Authority,
    ancestry: Seq<Grant>,
    tenant: Uuid,
    now_ms: i64,
) -> bool {
    &&& child.is_valid_at(now_ms)
    &&& is_chain(ancestry, tenant, now_ms)
    &&& ancestry.len() < MAX_CHAIN
    &&& forall|i: int|
        0 <= i < ancestry.len() ==> child.attenuates_spec(#[trigger] ancestry[i].authority)
}

/// The error of a child that may not be created.
pub open spec fn is_child_error(
    child: Authority,
    ancestry: Seq<Grant>,
    tenant: Uuid,
    now_ms: i64,
    error: GrantError,
) -> bool {
    if !child.is_valid_at(now_ms) {
        error is Invalid
    } else if !is_chain(ancestry, tenant, now_ms) {
        is_chain_error(ancestry, tenant, now_ms, error)
    } else if ancestry.len() >= MAX_CHAIN {
        error is Ancestry
    } else {
        error is Escalation && !is_child(child, ancestry, tenant, now_ms)
    }
}

/// Validate a child below an ancestry: by itself, then the ancestry, then its
/// depth, then that it attenuates every ancestor.
pub fn validate_child(
    child: &Authority,
    ancestry: &[Grant],
    tenant: Uuid,
    now_ms: i64,
) -> (r: Result<(), GrantError>)
    ensures
        match r {
            Ok(()) => is_child(*child, ancestry@, tenant, now_ms),
            Err(error) => is_child_error(*child, ancestry@, tenant, now_ms, error),
        },
{
    match child.validate(now_ms) {
        Ok(()) => {},
        Err(error) => return Err(error),
    }
    match validate_chain(ancestry, tenant, now_ms) {
        Ok(()) => {},
        Err(error) => return Err(error),
    }
    if ancestry.len() >= MAX_CHAIN {
        return Err(GrantError::Ancestry);
    }
    let mut i: usize = 0;
    while i < ancestry.len()
        invariant
            i <= ancestry.len(),
            child.is_valid_at(now_ms),
            is_chain(ancestry@, tenant, now_ms),
            ancestry.len() < MAX_CHAIN,
            forall|k: int|
                0 <= k < i ==> child.attenuates_spec(#[trigger] ancestry@[k].authority),
        decreases ancestry.len() - i,
    {
        if !child.attenuates(&ancestry[i].authority) {
            assert(!child.attenuates_spec(ancestry@[i as int].authority));
            return Err(GrantError::Escalation);
        }
        i = i + 1;
    }
    Ok(())
}

/// Why a grant of a valid chain does not pay for an effect.
pub open spec fn charge_fault(
    grant: Grant,
    action: Seq<char>,
    destination: Seq<char>,
    project: Seq<char>,
) -> Option<GrantError> {
    if !grant.authority.covers(action, destination, project) {
        Some(GrantError::Denied)
    } else if grant.used_effects >= grant.authority.max_effects {
        Some(GrantError::Exhausted)
    } else {
        None
    }
}

/// The charge of each grant of a chain: its identifier and its use after one more effect.
pub open spec fn charges(chain: Seq<Grant>) -> Seq<(Uuid, u64)> {
    Seq::new(chain.len(), |i: int| (chain[i].id, (chain[i].used_effects + 1) as u64))
}

/// Every grant of the chain pays for the effect.
pub open spec fn all_pay(
    chain: Seq<Grant>,
    action: Seq<char>,
    destination: Seq<char>,
    project: Seq<char>,
) -> bool {
    forall|i: int|
        0 <= i < chain.len() ==> charge_fault(
            #[trigger] chain[i],
            action,
            destination,
            project,
        ) is None
}

/// The error of an effect that a chain does not pay for: that of the chain, or
/// that of its first grant that does not pay.
pub open spec fn is_charge_error(
    chain: Seq<Grant>,
    tenant: Uuid,
    now_ms: i64,
    action: Seq<char>,
    destination: Seq<char>,
    project: Seq<char>,
    error: GrantError,
) -> bool {
    if !is_chain(chain, tenant, now_ms) {
        is_chain_error(chain, tenant, now_ms, error)
    } else {
        exists|i: int|
            {
                &&& 0 <= i < chain.len()
                &&& charge_fault(#[trigger] chain[i], action, destination, project) == Some(error)
                &&& all_pay(chain.take(i), action, destination, project)
            }
    }
}

/// Return an all-ancestor reservation plan without mutating partial state.
/// The store applies this once per new logical effect inside its locked transaction;
/// replay and retry must instead use the existing reservation rows.
pub fn reservation_plan(
    chain: &[Grant],
    tenant: Uuid,
    now_ms: i64,
    action: &str,
    destination: &str,
    project: &str,
) -> (r: Result<Vec<(Uuid, u64)>, GrantError>)
    ensures
        match r {
            Ok(plan) => {
                &&& is_chain(chain@, tenant, now_ms)
                &&& all_pay(chain@, action@, destination@, project@)
                &&& plan@ == charges(chain@)
                &&& plan@.len() == chain@.len()
                &&& forall|i: int|
                    0 <= i < chain@.len() ==> {
                        let grant = #[trigger] chain@[i];
                        &&& grant.authority.actions@.contains(action@)
                        &&& grant.authority.destinations@.contains(destination@)
                        &&& grant.authority.projects@.contains(project@)
                        &&& grant.tenant_id == tenant
                        &&& !grant.revoked
                        &&& grant.authority.expires_at_ms > now_ms
                        &&& grant.used_effects < grant.authority.max_effects
                        &&& plan@[i].0 == grant.id
                        &&& plan@[i].1 == grant.used_effects + 1
                    }
            },
            Err(error) => is_charge_error(
                chain@,
                tenant,
                now_ms,
                action@,
                destination@,
                project@,
                error,
            ),
        },
{
    match validate_chain(chain, tenant, now_ms) {
        Ok(()) => {},
        Err(error) => return Err(error),
    }
    let mut plan: Vec<(Uuid, u64)> = Vec::with_capacity(chain.len());
    let mut i: usize = 0;
    while i < chain.len()
        invariant
            i <= chain.len(),
            is_chain(chain@, tenant, now_ms),
            forall|k: int|
                0 <= k < i ==> charge_fault(
                    #[trigger] chain@[k],
                    action@,
                    destination@,
                    project@,
                ) is None,
            plan@.len() == i,
            forall|k: int|
                0 <= k < i ==> #[trigger] plan@[k] == (
                    chain@[k].id,
                    (chain@[k].used_effects + 1) as u64,
                ),
        decreases chain.len() - i,
    {
        let grant = &chain[i];
        let authority = &grant.authority;
        if !authority.actions.contains(action) || !authority.destinations.contains(destination)
            || !authority.projects.contains(project) {
            assert(charge_fault(chain@[i as int], action@, destination@, project@) == Some(
                GrantError::Denied,
            ));
            return Err(GrantError::Denied);
        }
        if grant.used_effects >= authority.max_effects {
            assert(charge_fault(chain@[i as int], action@, destination@, project@) == Some(
                GrantError::Exhausted,
            ));
            return Err(GrantError::Exhausted);
        }
        plan.push((grant.id, grant.used_effects + 1));
        i = i + 1;
    }
    assert(plan@ =~= charges(chain@));
    assert forall|k: int| 0 <= k < chain@.len() implies {
        let grant = #[trigger] chain@[k];
        &&& grant.authority.actions@.contains(action@)
        &&& grant.authority.destinations@.contains(destination@)
        &&& grant.authority.projects@.contains(project@)
        &&& grant.tenant_id == tenant
        &&& !grant.revoked
        &&& grant.authority.expires_at_ms > now_ms
        &&& grant.used_effects < grant.authority.max_effects
        &&& plan@[k].0 == grant.id
        &&& plan@[k].1 == grant.used_effects + 1
    } by {
        assert(grant_fault(chain@, k, tenant, now_ms) is None);
        assert(charge_fault(chain@[k], action@, destination@, project@) is None);
    }
    Ok(plan)
}

/// Authority attenuates itself.
pub proof fn attenuation_is_reflexive(a: Authority)
    ensures
        a.attenuates_spec(a),
{
}

/// What attenuates an attenuation attenuates the original.
pub proof fn attenuation_is_transitive(a: Authority, b: Authority, c: Authority)
    requires
        a.attenuates_spec(b),
        b.attenuates_spec(c),
    ensures
        a.attenuates_spec(c),
{
    assert forall|name: Seq<char>| a.actions@.contains(name) implies #[trigger] c.actions@.contains(
        name,
    ) by {
        assert(b.actions@.contains(name));
    }
    assert forall|name: Seq<char>|
        a.destinations@.contains(name) implies #[trigger] c.destinations@.contains(name) by {
        assert(b.destinations@.contains(name));
    }
    assert forall|name: Seq<char>| a.projects@.contains(name) implies #[trigger] c.projects@.contains(
        name,
    ) by {
        assert(b.projects@.contains(name));
    }
}

/// Along a chain no grant allows what an ancestor, however far, does not.
pub proof fn chain_never_escalates(
    chain: Seq<Grant>,
    tenant: Uuid,
    now_ms: i64,
    ancestor: int,
    descendant: int,
)
    requires
        is_chain(chain, tenant, now_ms),
        0 <= ancestor <= descendant < chain.len(),
    ensures
        chain[descendant].authority.attenuates_spec(chain[ancestor].authority),
    decreases descendant - ancestor,
{
    if ancestor == descendant {
        attenuation_is_reflexive(chain[ancestor].authority);
    } else {
        chain_never_escalates(chain, tenant, now_ms, ancestor, descendant - 1);
        assert(grant_fault(chain, descendant, tenant, now_ms) is None);
        attenuation_is_transitive(
            chain[descendant].authority,
            chain[descendant - 1].authority,
            chain[ancestor].authority,
        );
    }
}

/// What the leaf of a chain covers, every ancestor covers.
pub proof fn leaf_coverage_reaches_the_root(
    chain: Seq<Grant>,
    tenant: Uuid,
    now_ms: i64,
    action: Seq<char>,
    destination: Seq<char>,
    project: Seq<char>,
    ancestor: int,
)
    requires
        is_chain(chain, tenant, now_ms),
        0 <= ancestor < chain.len(),
        chain.last().authority.covers(action, destination, project),
    ensures
        chain[ancestor].authority.covers(action, destination, project),
{
    chain_never_escalates(chain, tenant, now_ms, ancestor, chain.len() - 1);
}

/// A child below its parent, as it is stored when it is created.
pub open spec fn new_grant(
    id: Uuid,
    tenant: Uuid,
    ancestry: Seq<Grant>,
    authority: Authority,
) -> Grant {
    Grant {
        id,
        tenant_id: tenant,
        parent_id: if ancestry.len() == 0 {
            None
        } else {
            Some(ancestry.last().id)
        },
        depth: ancestry.len() as u8,
        authority,
        used_effects: 0,
        revoked: false,
    }
}

/// Creating an accepted child under a fresh identifier leaves a valid chain.
pub proof fn accepted_child_extends_the_chain(
    child: Authority,
    ancestry: Seq<Grant>,
    tenant: Uuid,
    now_ms: i64,
    id: Uuid,
)
    requires
        is_child(child, ancestry, tenant, now_ms),
        forall|i: int| 0 <= i < ancestry.len() ==> #[trigger] ancestry[i].id != id,
    ensures
        is_chain(ancestry.push(new_grant(id, tenant, ancestry, child)), tenant, now_ms),
{
    let chain = ancestry.push(new_grant(id, tenant, ancestry, child));
    assert forall|i: int| 0 <= i < chain.len() implies #[trigger] grant_fault(
        chain,
        i,
        tenant,
        now_ms,
    ) is None by {
        if i < ancestry.len() {
            assert(grant_fault(ancestry, i, tenant, now_ms) is None);
            assert(is_placed(ancestry, i, tenant));
            assert(chain[i] == ancestry[i]);
            if i > 0 {
                assert(chain[i - 1] == ancestry[i - 1]);
            }
            assert forall|j: int| 0 <= j < i implies #[trigger] chain[j].id != chain[i].id by {
                assert(ancestry[j].id != ancestry[i].id);
            }
            assert(is_placed(chain, i, tenant));
        } else {
            assert forall|j: int| 0 <= j < i implies #[trigger] chain[j].id != chain[i].id by {
                assert(ancestry[j].id != id);
            }
            assert(is_placed(chain, i, tenant));
            assert(child.attenuates_spec(ancestry[i - 1].authority));
        }
    }
}

/// A root accepted by itself is a valid chain of one.
pub proof fn accepted_root_is_a_chain(authority: Authority, tenant: Uuid, now_ms: i64, id: Uuid)
    requires
        authority.is_valid_at(now_ms),
    ensures
        is_chain(
            seq![new_grant(id, tenant, Seq::<Grant>::empty(), authority)],
            tenant,
            now_ms,
        ),
{
    let chain = seq![new_grant(id, tenant, Seq::<Grant>::empty(), authority)];
    assert(is_placed(chain, 0, tenant));
    assert(grant_fault(chain, 0, tenant, now_ms) is None);
}

/// The chain once a reservation has been charged to every grant.
pub open spec fn charged(chain: Seq<Grant>) -> Seq<Grant> {
    Seq::new(
        chain.len(),
        |i: int| Grant { used_effects: (chain[i].used_effects + 1) as u64, ..chain[i] },
    )
}

/// Charging a reservation keeps the chain valid: no grant is used beyond its budget.
pub proof fn reservation_keeps_the_chain(
    chain: Seq<Grant>,
    tenant: Uuid,
    now_ms: i64,
    action: Seq<char>,
    destination: Seq<char>,
    project: Seq<char>,
)
    requires
        is_chain(chain, tenant, now_ms),
        all_pay(chain, action, destination, project),
    ensures
        is_chain(charged(chain), tenant, now_ms),
        forall|i: int|
            0 <= i < chain.len() ==> (#[trigger] charged(chain)[i]).used_effects
                == chain[i].used_effects + 1,
{
    let after = charged(chain);
    assert forall|i: int| 0 <= i < chain.len() implies (#[trigger] after[i]).used_effects
        == chain[i].used_effects + 1 by {
        assert(charge_fault(chain[i], action, destination, project) is None);
    }
    assert forall|i: int| 0 <= i < after.len() implies #[trigger] grant_fault(
        after,
        i,
        tenant,
        now_ms,
    ) is None by {
        assert(grant_fault(chain, i, tenant, now_ms) is None);
        assert(is_placed(chain, i, tenant));
        assert(charge_fault(chain[i], action, destination, project) is None);
        assert(after[i].id == chain[i].id);
        assert forall|j: int| 0 <= j < i implies #[trigger] after[j].id != after[i].id by {
            assert(chain[j].id != chain[i].id);
        }
        if i > 0 {
            assert(after[i - 1].id == chain[i - 1].id);
            assert(after[i - 1].authority == chain[i - 1].authority);
        }
        assert(is_placed(after, i, tenant));
    }
}

/// An exhausted ancestor pays for no effect, whatever children hang below it.
pub proof fn exhausted_ancestor_bars_every_descendant(
    chain: Seq<Grant>,
    action: Seq<char>,
    destination: Seq<char>,
    project: Seq<char>,
    ancestor: int,
)
    requires
        0 <= ancestor < chain.len(),
        chain[ancestor].used_effects >= chain[ancestor].authority.max_effects,
    ensures
        !all_pay(chain, action, destination, project),
{
    assert(charge_fault(chain[ancestor], action, destination, project) is Some);
}

/// A revoked or expired grant anywhere in a chain leaves no chain.
pub proof fn inactive_ancestor_breaks_the_chain(
    chain: Seq<Grant>,
    tenant: Uuid,
    now_ms: i64,
    ancestor: int,
)
    requires
        0 <= ancestor < chain.len(),
        chain[ancestor].revoked || chain[ancestor].authority.expires_at_ms <= now_ms,
    ensures
        !is_chain(chain, tenant, now_ms),
{
    assert(grant_fault(chain, ancestor, tenant, now_ms) is Some);
}

/// An effect is paid for only where every grant of the chain, from the root to
/// the leaf, names its action, its destination and its project.
pub proof fn paid_effects_are_named_by_every_grant(
    chain: Seq<Grant>,
    action: Seq<char>,
    destination: Seq<char>,
    project: Seq<char>,
    i: int,
)
    requires
        all_pay(chain, action, destination, project),
        0 <= i < chain.len(),
    ensures
        chain[i].authority.actions@.contains(action),
        chain[i].authority.destinations@.contains(destination),
        chain[i].authority.projects@.contains(project),
        chain[i].used_effects + 1 <= chain[i].authority.max_effects,
{
    assert(charge_fault(chain[i], action, destination, project) is None);
}

/// An effect that every grant names, and that no budget is used up for, is paid
/// for by any valid chain: no error is left to refuse it with.
pub proof fn named_effects_are_paid_for(
    chain: Seq<Grant>,
    tenant: Uuid,
    now_ms: i64,
    action: Seq<char>,
    destination: Seq<char>,
    project: Seq<char>,
    error: GrantError,
)
    requires
        is_chain(chain, tenant, now_ms),
        forall|i: int|
            0 <= i < chain.len() ==> {
                &&& (#[trigger] chain[i]).authority.actions@.contains(action)
                &&& chain[i].authority.destinations@.contains(destination)
                &&& chain[i].authority.projects@.contains(project)
                &&& chain[i].used_effects < chain[i].authority.max_effects
            },
    ensures
        all_pay(chain, action, destination, project),
        !is_charge_error(chain, tenant, now_ms, action, destination, project, error),
{
    assert forall|i: int| 0 <= i < chain.len() implies charge_fault(
        #[trigger] chain[i],
        action,
        destination,
        project,
    ) is None by {
    }
}

/// A valid chain refuses an effect as denied where a grant does not name it, and
/// as exhausted where a grant that names it has no budget left; it is the first
/// such grant that decides.
pub proof fn refused_effects_are_refused_by_a_grant(
    chain: Seq<Grant>,
    tenant: Uuid,
    now_ms: i64,
    action: Seq<char>,
    destination: Seq<char>,
    project: Seq<char>,
    error: GrantError,
    first: int,
)
    requires
        is_chain(chain, tenant, now_ms),
        is_charge_error(chain, tenant, now_ms, action, destination, project, error),
        0 <= first < chain.len(),
        forall|i: int|
            0 <= i < first ==> {
                &&& (#[trigger] chain[i]).authority.actions@.contains(action)
                &&& chain[i].authority.destinations@.contains(destination)
                &&& chain[i].authority.projects@.contains(project)
                &&& chain[i].used_effects < chain[i].authority.max_effects
            },
    ensures
        !(chain[first].authority.actions@.contains(action)
            && chain[first].authority.destinations@.contains(destination)
            && chain[first].authority.projects@.contains(project)) ==> error is Denied,
        chain[first].authority.actions@.contains(action)
            && chain[first].authority.destinations@.contains(destination)
            && chain[first].authority.projects@.contains(project) && chain[first].used_effects
            >= chain[first].authority.max_effects ==> error is Exhausted,
        error is Denied || error is Exhausted,
{
    let k = choose|k: int|
        {
            &&& 0 <= k < chain.len()
            &&& charge_fault(#[trigger] chain[k], action, destination, project) == Some(error)
            &&& all_pay(chain.take(k), action, destination, project)
        };
    if k < first {
        assert(charge_fault(chain[k], action, destination, project) is None);
    }
    if first < k {
        assert(chain.take(k)[first] == chain[first]);
        assert(charge_fault(chain[first], action, destination, project) is None);
    }
}

/// Narrowing attenuates: authority over some of the parent's actions,
/// destinations and projects, that ends no later and pays for no more effects,
/// is allowed below the parent, however much less it is.
pub proof fn narrowing_attenuates(child: Authority, parent: Authority)
    requires
        forall|name: Seq<char>|
            child.actions@.contains(name) ==> #[trigger] parent.actions@.contains(name),
        forall|name: Seq<char>|
            child.destinations@.contains(name) ==> #[trigger] parent.destinations@.contains(name),
        forall|name: Seq<char>|
            child.projects@.contains(name) ==> #[trigger] parent.projects@.contains(name),
        child.expires_at_ms <= parent.expires_at_ms,
        child.max_effects <= parent.max_effects,
    ensures
        child.attenuates_spec(parent),
{
}

/// Attenuation is kept when the child is narrowed further and when the parent is
/// widened.
pub proof fn narrower_children_and_wider_parents_attenuate(
    child: Authority,
    parent: Authority,
    expires_at_ms: i64,
    max_effects: u64,
    later_ms: i64,
    more_effects: u64,
)
    requires
        child.attenuates_spec(parent),
        expires_at_ms <= child.expires_at_ms,
        max_effects <= child.max_effects,
        parent.expires_at_ms <= later_ms,
        parent.max_effects <= more_effects,
    ensures
        (Authority { expires_at_ms, max_effects, ..child }).attenuates_spec(
            Authority { expires_at_ms: later_ms, max_effects: more_effects, ..parent },
        ),
{
}

/// An attenuated child has nothing that its parent does not have.
pub proof fn attenuation_adds_nothing(child: Authority, parent: Authority, name: Seq<char>)
    requires
        child.attenuates_spec(parent),
    ensures
        child.actions@.contains(name) ==> parent.actions@.contains(name),
        child.destinations@.contains(name) ==> parent.destinations@.contains(name),
        child.projects@.contains(name) ==> parent.projects@.contains(name),
        child.expires_at_ms <= parent.expires_at_ms,
        child.max_effects <= parent.max_effects,
{
}

/// Authority is valid where it creates tickets alone, for 1 to 100 effects, at 1
/// to 16 destinations and for 1 to 16 projects with aliases for names, and ends
/// within a day from now but not yet; and nowhere else.
pub proof fn authority_is_valid_within_its_bounds(authority: Authority, now_ms: i64)
    ensures
        authority.is_valid_at(now_ms) <==> {
            &&& 0 < authority.max_effects < 101
            &&& authority.actions@ == seq!["ticket.create"@]
            &&& 0 < authority.destinations@.len() < 17
            &&& forall|i: int|
                0 <= i < authority.destinations@.len() ==> text::is_alias(
                    #[trigger] authority.destinations@[i],
                )
            &&& 0 < authority.projects@.len() < 17
            &&& forall|i: int|
                0 <= i < authority.projects@.len() ==> text::is_alias(
                    #[trigger] authority.projects@[i],
                )
            &&& now_ms + 1 <= authority.expires_at_ms <= now_ms + 86_400_000
        },
{
    let actions = authority.actions@;
    if actions.len() == 1 && actions.contains("ticket.create"@) {
        let k = choose|k: int| 0 <= k < actions.len() && actions[k] == "ticket.create"@;
        assert(actions =~= seq!["ticket.create"@]);
    }
    if actions == seq!["ticket.create"@] {
        assert(actions[0] == "ticket.create"@);
    }
}

/// A chain of up to five live grants of one tenant, each below the one before
/// it, none twice, none used beyond its budget, none wider than its parent, is
/// valid; and no other is.
pub proof fn chains_are_live_lines_of_one_tenant(chain: Seq<Grant>, tenant: Uuid, now_ms: i64)
    ensures
        is_chain(chain, tenant, now_ms) <==> {
            &&& 0 < chain.len() < 6
            &&& chain[0].parent_id is None
            &&& forall|i: int|
                0 <= i < chain.len() ==> {
                    &&& (#[trigger] chain[i]).tenant_id == tenant
                    &&& chain[i].depth == i
                    &&& !chain[i].revoked
                    &&& now_ms < chain[i].authority.expires_at_ms
                    &&& chain[i].used_effects <= chain[i].authority.max_effects
                }
            &&& forall|i: int, j: int|
                0 <= i < j < chain.len() ==> (#[trigger] chain[i]).id != (#[trigger] chain[j]).id
            &&& forall|i: int, j: int|
                0 <= i && j == i + 1 && j < chain.len() ==> {
                    &&& (#[trigger] chain[j]).parent_id == Some((#[trigger] chain[i]).id)
                    &&& chain[j].authority.attenuates_spec(chain[i].authority)
                }
        },
{
    if is_chain(chain, tenant, now_ms) {
        assert(grant_fault(chain, 0, tenant, now_ms) is None);
        assert forall|i: int| 0 <= i < chain.len() implies {
            &&& (#[trigger] chain[i]).tenant_id == tenant
            &&& chain[i].depth == i
            &&& !chain[i].revoked
            &&& now_ms < chain[i].authority.expires_at_ms
            &&& chain[i].used_effects <= chain[i].authority.max_effects
        } by {
            assert(grant_fault(chain, i, tenant, now_ms) is None);
        }
        assert forall|i: int, j: int| 0 <= i < j < chain.len() implies (#[trigger] chain[i]).id
            != (#[trigger] chain[j]).id by {
            assert(grant_fault(chain, j, tenant, now_ms) is None);
            assert(is_placed(chain, j, tenant));
        }
        assert forall|i: int, j: int| 0 <= i && j == i + 1 && j < chain.len() implies {
            &&& (#[trigger] chain[j]).parent_id == Some((#[trigger] chain[i]).id)
            &&& chain[j].authority.attenuates_spec(chain[i].authority)
        } by {
            assert(grant_fault(chain, j, tenant, now_ms) is None);
        }
    } else if 0 < chain.len() < 6 {
        let i = choose|i: int|
            0 <= i < chain.len() && #[trigger] grant_fault(chain, i, tenant, now_ms) is Some;
        let grant = chain[i];
        if i > 0 {
            let parent = chain[i - 1];
            assert(i == (i - 1) + 1);
        }
        if !is_placed(chain, i, tenant) {
            if exists|j: int| 0 <= j < i && #[trigger] chain[j].id == chain[i].id {
                let j = choose|j: int| 0 <= j < i && #[trigger] chain[j].id == chain[i].id;
                assert(chain[j].id == chain[i].id);
            }
        }
    }
}

/// What is reported of a chain is wrong with its first grant at fault: a place
/// that is not its own, a revocation or an end, a use beyond its budget, or more
/// than its parent has.
pub proof fn reported_fault_is_that_of_the_first_grant(
    chain: Seq<Grant>,
    tenant: Uuid,
    now_ms: i64,
    error: GrantError,
)
    requires
        is_chain_error(chain, tenant, now_ms, error),
        chain.len() == 1,
        chain[0].tenant_id == tenant,
        chain[0].depth == 0,
        chain[0].parent_id is None,
    ensures
        chain[0].revoked || chain[0].authority.expires_at_ms <= now_ms ==> error is Inactive,
        !chain[0].revoked && chain[0].authority.expires_at_ms > now_ms ==> error is Invalid
            && chain[0].used_effects > chain[0].authority.max_effects,
{
    assert(is_placed(chain, 0, tenant));
    let i = choose|i: int|
        {
            &&& 0 <= i < chain.len()
            &&& #[trigger] grant_fault(chain, i, tenant, now_ms) == Some(error)
            &&& forall|j: int|
                0 <= j < i ==> #[trigger] grant_fault(chain, j, tenant, now_ms) is None
        };
    assert(i == 0);
}

/// Each error of a chain says what is wrong with one of its grants.
pub proof fn chain_errors_name_a_fault(
    chain: Seq<Grant>,
    tenant: Uuid,
    now_ms: i64,
    error: GrantError,
)
    requires
        is_chain_error(chain, tenant, now_ms, error),
        1 <= chain.len() <= 5,
    ensures
        error is Inactive ==> exists|i: int|
            0 <= i < chain.len() && ((#[trigger] chain[i]).revoked
                || chain[i].authority.expires_at_ms <= now_ms),
        error is Invalid ==> exists|i: int|
            0 <= i < chain.len() && (#[trigger] chain[i]).used_effects
                > chain[i].authority.max_effects,
        error is Escalation ==> exists|i: int|
            0 < i < chain.len() && !(#[trigger] chain[i]).authority.attenuates_spec(
                chain[i - 1].authority,
            ),
        !(error is Exhausted) && !(error is Denied),
{
    let i = choose|i: int|
        {
            &&& 0 <= i < chain.len()
            &&& #[trigger] grant_fault(chain, i, tenant, now_ms) == Some(error)
            &&& forall|j: int|
                0 <= j < i ==> #[trigger] grant_fault(chain, j, tenant, now_ms) is None
        };
    let grant = chain[i];
}

/// A valid authority that is no wider than each grant of a valid chain of up to
/// four may be created below it, and no other: no error is left to refuse it
/// with.
pub proof fn narrow_children_of_short_chains_are_accepted(
    child: Authority,
    ancestry: Seq<Grant>,
    tenant: Uuid,
    now_ms: i64,
    error: GrantError,
)
    ensures
        is_child(child, ancestry, tenant, now_ms) <==> {
            &&& child.is_valid_at(now_ms)
            &&& is_chain(ancestry, tenant, now_ms)
            &&& ancestry.len() < 5
            &&& forall|i: int|
                0 <= i < ancestry.len() ==> child.attenuates_spec(
                    (#[trigger] ancestry[i]).authority,
                )
        },
        is_child(child, ancestry, tenant, now_ms) ==> !is_child_error(
            child,
            ancestry,
            tenant,
            now_ms,
            error,
        ),
        is_child_error(child, ancestry, tenant, now_ms, error) && is_chain(
            ancestry,
            tenant,
            now_ms,
        ) && child.is_valid_at(now_ms) ==> (error is Ancestry <==> ancestry.len() == 5) && (
        error is Escalation <==> ancestry.len() < 5),
        is_child_error(child, ancestry, tenant, now_ms, error) && !child.is_valid_at(now_ms)
            ==> error is Invalid,
{
}

/// A chain that is charged is charged by one for each grant, and changed in
/// nothing else.
pub proof fn charging_adds_one_to_every_use(chain: Seq<Grant>, i: int)
    requires
        0 <= i < chain.len(),
        chain[i].used_effects < u64::MAX,
    ensures
        charges(chain).len() == chain.len(),
        charges(chain)[i].0 == chain[i].id,
        charges(chain)[i].1 == chain[i].used_effects + 1,
        charged(chain).len() == chain.len(),
        charged(chain)[i].used_effects == chain[i].used_effects + 1,
        charged(chain)[i].id == chain[i].id,
        charged(chain)[i].authority == chain[i].authority,
        charged(chain)[i].revoked == chain[i].revoked,
{
}

/// Authorities are the same exactly where they name the same and allow as much for
/// as long.
pub proof fn same_authorities_agree_in_all(a: Authority, b: Authority)
    ensures
        a.same_as(b) <==> {
            &&& a.actions@ == b.actions@ && a.destinations@ == b.destinations@
            &&& a.projects@ == b.projects@
            &&& a.expires_at_ms == b.expires_at_ms && a.max_effects == b.max_effects
        },
        a.same_as(b) ==> b.same_as(a),
{
}

/// A grant of a chain is at fault for its place, for being no longer live, for its
/// use or for adding to its parent, and for the first of these; otherwise for
/// nothing.
pub proof fn grants_are_at_fault_for_the_first(
    chain: Seq<Grant>,
    i: int,
    tenant: Uuid,
    now_ms: i64,
)
    requires
        0 <= i < chain.len(),
    ensures
        is_placed(chain, i, tenant) ==> {
            &&& chain[i].tenant_id == tenant && chain[i].depth == i
            &&& i == 0 ==> chain[i].parent_id is None
            &&& i > 0 ==> chain[i].parent_id == Some(chain[i - 1].id)
        },
        grant_fault(chain, i, tenant, now_ms) is None ==> {
            &&& is_placed(chain, i, tenant)
            &&& !chain[i].revoked && now_ms < chain[i].authority.expires_at_ms
            &&& chain[i].used_effects <= chain[i].authority.max_effects
            &&& i > 0 ==> chain[i].authority.attenuates_spec(chain[i - 1].authority)
        },
        is_placed(chain, i, tenant) && !chain[i].revoked && now_ms
            < chain[i].authority.expires_at_ms && chain[i].used_effects
            <= chain[i].authority.max_effects && (i > 0
            ==> chain[i].authority.attenuates_spec(chain[i - 1].authority)) ==> grant_fault(
            chain,
            i,
            tenant,
            now_ms,
        ) is None,
        !is_placed(chain, i, tenant) <==> grant_fault(chain, i, tenant, now_ms) == Some(
            GrantError::Ancestry,
        ),
        is_placed(chain, i, tenant) && (chain[i].revoked || now_ms
            >= chain[i].authority.expires_at_ms) <==> grant_fault(chain, i, tenant, now_ms)
            == Some(GrantError::Inactive),
{
}

/// A grant pays for an effect exactly where each of its sets names the effect's
/// part and its budget is not used up; what it does not name it denies.
pub proof fn grants_pay_for_what_they_name(
    grant: Grant,
    action: Seq<char>,
    destination: Seq<char>,
    project: Seq<char>,
)
    ensures
        charge_fault(grant, action, destination, project) is None <==> {
            &&& grant.authority.actions@.contains(action)
            &&& grant.authority.destinations@.contains(destination)
            &&& grant.authority.projects@.contains(project)
            &&& grant.used_effects < grant.authority.max_effects
        },
        charge_fault(grant, action, destination, project) == Some(GrantError::Denied) <==> !(
        grant.authority.actions@.contains(action) && grant.authority.destinations@.contains(
            destination,
        ) && grant.authority.projects@.contains(project)),
        charge_fault(grant, action, destination, project) is Some ==> charge_fault(
            grant,
            action,
            destination,
            project,
        ) == Some(GrantError::Denied) || charge_fault(grant, action, destination, project) == Some(
            GrantError::Exhausted,
        ),
{
}

} // verus!
