//! What requests about grants are answered. The store supplies time and locks;
//! the operator's configuration supplies the bounds of every root.
use time::format_description::well_known::Rfc3339;
use time::OffsetDateTime;
use vstd::prelude::*;
use vstd::std_specs::convert::FromSpecImpl;

use crate::control::api;
use crate::control::api::{error, json_rejection, ApiError};
use crate::control::auth::{Principal, PrincipalView};
use crate::control::config::{AdapterEntry, Adapters};
use crate::domain::grants as domain;
use crate::domain::grants::{Authority, GrantError};
use crate::ids;
use crate::ids::{canonical_id, Uuid};
use crate::names;
use crate::names::NameSet;
use crate::store;
use crate::store::{GrantRecord, StoreError};
use crate::text;

verus! {

/// What may be done at one destination.
#[derive(Debug)]
pub struct Destination {
    pub alias: String,
    pub projects: NameSet,
}

/// What any grant may allow at most.
#[derive(Debug)]
pub struct Bounds {
    destinations: Vec<Destination>,
}

/// A destination and its projects.
pub struct DestinationView {
    pub alias: Seq<char>,
    pub projects: Seq<Seq<char>>,
}

impl View for Bounds {
    type V = Seq<DestinationView>;

    closed spec fn view(&self) -> Seq<DestinationView> {
        Seq::new(
            self.destinations@.len(),
            |i: int|
                DestinationView {
                    alias: self.destinations@[i].alias@,
                    projects: self.destinations@[i].projects@,
                },
        )
    }
}

/// Every name of the first list is one of the second.
pub open spec fn all_among(some: Seq<Seq<char>>, all: Seq<Seq<char>>) -> bool {
    forall|name: Seq<char>| some.contains(name) ==> #[trigger] all.contains(name)
}

/// The authority is within the bounds: ticket creation alone, and at each of
/// its destinations each of its projects.
pub open spec fn permitted(bounds: Seq<DestinationView>, authority: Authority) -> bool {
    &&& all_among(authority.actions@, seq!["ticket.create"@])
    &&& forall|i: int|
        0 <= i < authority.destinations@.len() ==> permitted_at(
            bounds,
            #[trigger] authority.destinations@[i],
            authority.projects@,
        )
}

/// All the projects are within the bounds at a destination.
pub open spec fn permitted_at(
    bounds: Seq<DestinationView>,
    alias: Seq<char>,
    projects: Seq<Seq<char>>,
) -> bool {
    exists|j: int|
        {
            &&& 0 <= j < bounds.len()
            &&& (#[trigger] bounds[j]).alias == alias
            &&& all_among(projects, bounds[j].projects)
        }
}

impl Bounds {
    /// The bounds are the aliases and the projects of the adapters.
    pub open spec fn bounds(self, adapters: Seq<AdapterEntry>) -> bool {
        &&& self@.len() == adapters.len()
        &&& forall|i: int|
            0 <= i < adapters.len() ==> {
                &&& (#[trigger] self@[i]).alias == adapters[i].alias@
                &&& forall|name: Seq<char>| #[trigger]
                    self@[i].projects.contains(name) <==> names::texts(
                        adapters[i].adapter.projects@,
                    ).contains(name)
            }
    }

    pub fn from_config(adapters: &Adapters) -> (r: Bounds)
        ensures
            r.bounds(adapters@),
    {
        let mut destinations: Vec<Destination> = Vec::new();
        let mut i: usize = 0;
        while i < adapters.len()
            invariant
                i <= adapters@.len(),
                destinations@.len() == i,
                forall|k: int|
                    0 <= k < i ==> {
                        &&& (#[trigger] destinations@[k]).alias@ == adapters@[k].alias@
                        &&& store::grants::is_set_of(
                            destinations@[k].projects,
                            adapters@[k].adapter.projects@,
                        )
                    },
            decreases adapters@.len() - i,
        {
            let entry = adapters.get(i);
            let projects = names::copy_texts(entry.adapter.projects.as_slice());
            let ghost copied = projects@;
            let set = NameSet::from_texts(projects);
            assert(store::grants::is_set_of(set, entry.adapter.projects@)) by {
                assert(names::texts(copied) == names::texts(entry.adapter.projects@));
            }
            destinations.push(
                Destination { alias: text::copy_text(entry.alias.as_str()), projects: set },
            );
            i = i + 1;
        }
        let r = Bounds { destinations };
        assert forall|k: int| 0 <= k < adapters@.len() implies {
            &&& (#[trigger] r@[k]).alias == adapters@[k].alias@
            &&& forall|name: Seq<char>| #[trigger]
                r@[k].projects.contains(name) <==> names::texts(
                    adapters@[k].adapter.projects@,
                ).contains(name)
        } by {
            assert(destinations@[k].alias@ == adapters@[k].alias@);
        }
        r
    }

    /// Whether one of the destinations is the alias and has all the projects.
    fn permits_at(&self, alias: &str, projects: &NameSet) -> (r: bool)
        ensures
            r == permitted_at(self@, alias@, projects@),
    {
        let mut j: usize = 0;
        while j < self.destinations.len()
            invariant
                j <= self.destinations.len(),
                forall|k: int|
                    0 <= k < j ==> !((#[trigger] self@[k]).alias == alias@ && all_among(
                        projects@,
                        self@[k].projects,
                    )),
            decreases self.destinations.len() - j,
        {
            let destination = &self.destinations[j];
            let ghost shown = self@[j as int];
            assert(shown.alias == destination.alias@ && shown.projects == destination.projects@);
            let among = projects.is_subset(&destination.projects);
            assert(among == all_among(projects@, shown.projects)) by {
                assert(projects.subset_of(destination.projects) == all_among(
                    projects@,
                    destination.projects@,
                ));
            }
            if text::text_equal(destination.alias.as_str(), alias) && among {
                assert(self@[j as int].alias == alias@);
                return true;
            }
            j = j + 1;
        }
        false
    }

    pub fn permits(&self, authority: &Authority) -> (r: bool)
        ensures
            r == permitted(self@, *authority),
    {
        let ghost known = seq!["ticket.create"@];
        let mut i: usize = 0;
        while i < authority.actions.len()
            invariant
                i <= authority.actions@.len(),
                known == seq!["ticket.create"@],
                forall|k: int| 0 <= k < i ==> (#[trigger] authority.actions@[k]) == "ticket.create"@,
            decreases authority.actions@.len() - i,
        {
            if !text::text_equal(authority.actions.get(i), "ticket.create") {
                assert(authority.actions@.contains(authority.actions@[i as int]));
                assert(!known.contains(authority.actions@[i as int]));
                return false;
            }
            i = i + 1;
        }
        assert(all_among(authority.actions@, known)) by {
            assert(known[0] == "ticket.create"@);
            assert forall|name: Seq<char>| authority.actions@.contains(
                name,
            ) implies #[trigger] known.contains(name) by {
                let k = choose|k: int|
                    0 <= k < authority.actions@.len() && authority.actions@[k] == name;
                assert(authority.actions@[k] == "ticket.create"@);
            }
        }
        let mut i: usize = 0;
        while i < authority.destinations.len()
            invariant
                i <= authority.destinations@.len(),
                all_among(authority.actions@, seq!["ticket.create"@]),
                forall|k: int|
                    0 <= k < i ==> permitted_at(
                        self@,
                        #[trigger] authority.destinations@[k],
                        authority.projects@,
                    ),
            decreases authority.destinations@.len() - i,
        {
            if !self.permits_at(authority.destinations.get(i), &authority.projects) {
                assert(!permitted_at(
                    self@,
                    authority.destinations@[i as int],
                    authority.projects@,
                ));
                return false;
            }
            i = i + 1;
        }
        true
    }
}

/// A grant as a caller asks for it.
#[derive(Debug)]
pub struct GrantCreate {
    pub actions: Vec<String>,
    pub destinations: Vec<String>,
    pub projects: Vec<String>,
    pub expires_at: String,
    pub max_effects: u64,
}

/// The time that an RFC 3339 text denotes, in nanoseconds from the Unix epoch.
pub uninterp spec fn rfc3339_nanos(text: Seq<char>) -> Option<i128>;

/// Calls `time::OffsetDateTime::parse` with `Rfc3339`, and
/// `unix_timestamp_nanos`. Claimed: the time is a function of the text.
#[verifier::external_body]
fn parse_rfc3339(text: &str) -> (r: Option<i128>)
    ensures
        r == rfc3339_nanos(text@),
{
    OffsetDateTime::parse(text, &Rfc3339).ok().map(|at| at.unix_timestamp_nanos())
}

/// Whole milliseconds of a time in nanoseconds, its sign aside.
pub open spec fn whole_ms(nanos: i128) -> int {
    if nanos >= 0 {
        nanos as int / 1_000_000
    } else {
        -((-nanos) / 1_000_000)
    }
}

/// The milliseconds of a time, where they are within range.
fn milliseconds(nanos: i128) -> (r: Option<i64>)
    ensures
        match r {
            Some(ms) => ms == whole_ms(nanos),
            None => !(i64::MIN <= whole_ms(nanos) <= i64::MAX),
        },
{
    if nanos >= 0 {
        let ms: u128 = nanos as u128 / 1_000_000;
        if ms > i64::MAX as u128 {
            return None;
        }
        return Some(ms as i64);
    }
    // The magnitude of a negative time is one more than that of its complement.
    let magnitude: u128 = (-(nanos + 1)) as u128 + 1;
    let ms: u128 = magnitude / 1_000_000;
    if ms > i64::MAX as u128 {
        if ms == i64::MAX as u128 + 1 {
            return Some(i64::MIN);
        }
        return None;
    }
    Some(-(ms as i64))
}

/// A list of names for a set: 1 to 16, none twice.
pub open spec fn is_name_list(list: Seq<String>) -> bool {
    &&& 1 <= list.len() <= 16
    &&& names::texts(list).no_duplicates()
}

fn name_list(list: &Vec<String>) -> (r: bool)
    ensures
        r == is_name_list(list@),
{
    list.len() >= 1 && list.len() <= 16 && names::are_distinct(list.as_slice())
}

impl GrantCreate {
    /// The authority is the one asked for, expiring at a time.
    pub open spec fn asks_for(self, authority: Authority, nanos: i128) -> bool {
        &&& store::grants::is_set_of(authority.actions, self.actions@)
        &&& store::grants::is_set_of(authority.destinations, self.destinations@)
        &&& store::grants::is_set_of(authority.projects, self.projects@)
        &&& authority.expires_at_ms == whole_ms(nanos)
        &&& authority.max_effects == self.max_effects
    }

    /// The lists are sets, and the expiry is a time within range.
    pub open spec fn is_readable(self, nanos: Option<i128>) -> bool {
        &&& is_name_list(self.actions@)
        &&& is_name_list(self.destinations@)
        &&& is_name_list(self.projects@)
        &&& nanos matches Some(nanos) && i64::MIN <= whole_ms(nanos) <= i64::MAX
    }

    /// Ticket creation as the only action, a budget of 1 to 100 effects, and
    /// aliases for destinations and projects.
    pub open spec fn is_shaped(self) -> bool {
        &&& 1 <= self.max_effects <= 100
        &&& self.actions@.len() == 1
        &&& self.actions@[0]@ == "ticket.create"@
        &&& are_aliases(self.destinations@)
        &&& are_aliases(self.projects@)
    }

    /// Each of the destinations has all of the projects within the bounds.
    pub open spec fn is_within(self, bounds: Seq<DestinationView>) -> bool {
        forall|i: int|
            0 <= i < self.destinations@.len() ==> permitted_at(
                bounds,
                (#[trigger] self.destinations@[i])@,
                names::texts(self.projects@),
            )
    }

    /// What normalizing comes to, given the time that the expiry was read as.
    pub open spec fn normalizes(
        self,
        bounds: Seq<DestinationView>,
        nanos: Option<i128>,
        r: Result<Authority, GrantError>,
    ) -> bool {
        if !self.is_readable(nanos) || !self.is_shaped() {
            r == Err::<Authority, GrantError>(GrantError::Invalid)
        } else if !self.is_within(bounds) {
            r == Err::<Authority, GrantError>(GrantError::Escalation)
        } else {
            r matches Ok(authority) && self.asks_for(authority, nanos->0)
        }
    }

    /// The authority asked for is well shaped, and within the bounds, as the
    /// request says.
    proof fn authority_says_the_same(self, authority: Authority, bounds: Seq<DestinationView>)
        requires
            is_name_list(self.actions@),
            is_name_list(self.destinations@),
            is_name_list(self.projects@),
            store::grants::is_set_of(authority.actions, self.actions@),
            store::grants::is_set_of(authority.destinations, self.destinations@),
            store::grants::is_set_of(authority.projects, self.projects@),
            authority.actions@.len() == self.actions@.len(),
            authority.destinations@.len() == self.destinations@.len(),
            authority.projects@.len() == self.projects@.len(),
            authority.max_effects == self.max_effects,
        ensures
            authority.is_shaped() == self.is_shaped(),
            self.is_shaped() ==> permitted(bounds, authority) == self.is_within(bounds),
    {
        let actions = names::texts(self.actions@);
        if actions.len() == 1 {
            assert(authority.actions@.contains("ticket.create"@) == (actions[0]
                == "ticket.create"@)) by {
                if actions[0] == "ticket.create"@ {
                    assert(actions.contains("ticket.create"@));
                }
                if actions.contains("ticket.create"@) {
                    let k = choose|k: int| 0 <= k < actions.len() && actions[k] == "ticket.create"@;
                    assert(k == 0);
                }
            }
        }
        same_aliases(authority.destinations@, self.destinations@);
        same_aliases(authority.projects@, self.projects@);
        if self.is_shaped() {
            let known = seq!["ticket.create"@];
            assert(known[0] == "ticket.create"@);
            assert(all_among(authority.actions@, known)) by {
                assert forall|name: Seq<char>| authority.actions@.contains(
                    name,
                ) implies #[trigger] known.contains(name) by {
                    let k = choose|k: int| 0 <= k < actions.len() && actions[k] == name;
                    assert(k == 0);
                }
            }
            assert forall|alias: Seq<char>| #[trigger]
                permitted_at(bounds, alias, authority.projects@) == permitted_at(
                    bounds,
                    alias,
                    names::texts(self.projects@),
                ) by {
                same_projects(bounds, alias, authority.projects@, names::texts(self.projects@));
                same_projects(bounds, alias, names::texts(self.projects@), authority.projects@);
            }
            let asked = names::texts(self.destinations@);
            if permitted(bounds, authority) {
                assert forall|i: int| 0 <= i < self.destinations@.len() implies permitted_at(
                    bounds,
                    (#[trigger] self.destinations@[i])@,
                    names::texts(self.projects@),
                ) by {
                    assert(asked[i] == self.destinations@[i]@);
                    assert(asked.contains(asked[i]));
                    let all = authority.destinations@;
                    assert(all.contains(asked[i]));
                    let k = choose|k: int| 0 <= k < all.len() && all[k] == asked[i];
                    assert(permitted_at(bounds, all[k], authority.projects@));
                }
            }
            if self.is_within(bounds) {
                let all = authority.destinations@;
                assert forall|i: int| 0 <= i < all.len() implies permitted_at(
                    bounds,
                    #[trigger] all[i],
                    authority.projects@,
                ) by {
                    assert(all.contains(all[i]));
                    assert(asked.contains(all[i]));
                    let k = choose|k: int| 0 <= k < asked.len() && asked[k] == all[i];
                    assert(self.destinations@[k]@ == all[i]);
                }
            }
        }
    }

    /// The authority asked for, given the time that its expiry was read as.
    pub fn normalize_parsed(self, bounds: &Bounds, nanos: Option<i128>) -> (r: Result<
        Authority,
        GrantError,
    >)
        ensures
            self.normalizes(bounds@, nanos, r),
            r matches Ok(authority) ==> authority.is_shaped() && permitted(bounds@, authority),
    {
        if !name_list(&self.actions) || !name_list(&self.destinations) || !name_list(
            &self.projects,
        ) {
            return Err(GrantError::Invalid);
        }
        let expires_at_ms: i64 = match nanos {
            Some(nanos) => match milliseconds(nanos) {
                Some(ms) => ms,
                None => return Err(GrantError::Invalid),
            },
            None => return Err(GrantError::Invalid),
        };
        let authority = Authority {
            actions: NameSet::from_texts(self.actions),
            destinations: NameSet::from_texts(self.destinations),
            projects: NameSet::from_texts(self.projects),
            expires_at_ms,
            max_effects: self.max_effects,
        };
        proof {
            self.authority_says_the_same(authority, bounds@);
        }
        match authority.validate_shape() {
            Ok(()) => {},
            Err(error) => return Err(error),
        }
        if !bounds.permits(&authority) {
            return Err(GrantError::Escalation);
        }
        Ok(authority)
    }

    /// The authority asked for, where it is well shaped and within the bounds.
    pub fn normalize(self, bounds: &Bounds) -> (r: Result<Authority, GrantError>)
        ensures
            self.normalizes(bounds@, rfc3339_nanos(self.expires_at@), r),
            r matches Ok(authority) ==> authority.is_shaped() && permitted(bounds@, authority),
    {
        let nanos = parse_rfc3339(self.expires_at.as_str());
        self.normalize_parsed(bounds, nanos)
    }
}

/// Every text of a list is an alias.
pub open spec fn are_aliases(list: Seq<String>) -> bool {
    forall|i: int| 0 <= i < list.len() ==> text::is_alias((#[trigger] list[i])@)
}

/// A set and a list with the same names are both made of aliases, or neither.
proof fn same_aliases(set: Seq<Seq<char>>, list: Seq<String>)
    requires
        is_name_list(list),
        set.len() == list.len(),
        forall|name: Seq<char>| #[trigger] set.contains(name) <==> names::texts(list).contains(name),
    ensures
        domain::is_resource_set(set) == are_aliases(list),
{
    let asked = names::texts(list);
    if are_aliases(list) {
        assert forall|i: int| 0 <= i < set.len() implies text::is_alias(#[trigger] set[i]) by {
            assert(set.contains(set[i]));
            assert(asked.contains(set[i]));
            let k = choose|k: int| 0 <= k < asked.len() && asked[k] == set[i];
            assert(list[k]@ == set[i]);
        }
    }
    if domain::is_resource_set(set) {
        assert forall|i: int| 0 <= i < list.len() implies text::is_alias((#[trigger] list[i])@) by {
            assert(asked[i] == list[i]@);
            assert(asked.contains(asked[i]));
            assert(set.contains(asked[i]));
            let k = choose|k: int| 0 <= k < set.len() && set[k] == asked[i];
            assert(text::is_alias(set[k]));
        }
    }
}

/// Where the same projects are asked for, the bounds allow the same.
proof fn same_projects(
    bounds: Seq<DestinationView>,
    alias: Seq<char>,
    some: Seq<Seq<char>>,
    others: Seq<Seq<char>>,
)
    requires
        forall|name: Seq<char>| some.contains(name) <==> others.contains(name),
    ensures
        permitted_at(bounds, alias, some) ==> permitted_at(bounds, alias, others),
{
    if permitted_at(bounds, alias, some) {
        let j = choose|j: int|
            {
                &&& 0 <= j < bounds.len()
                &&& (#[trigger] bounds[j]).alias == alias
                &&& all_among(some, bounds[j].projects)
            };
        assert(all_among(others, bounds[j].projects));
    }
}

/// A request to revoke a grant.
#[derive(Debug)]
pub struct Revoke {
    pub reason: String,
}

/// A grant as it is sent.
#[derive(Debug)]
pub struct GrantView {
    pub id: Uuid,
    pub parent_id: Option<Uuid>,
    pub depth: i32,
    pub actions: Vec<String>,
    pub destinations: Vec<String>,
    pub projects: Vec<String>,
    pub expires_at: String,
    pub max_effects: i64,
    pub used_effects: i64,
    pub remaining_effects: i64,
    pub revoked_at: Option<String>,
    pub ancestry: Vec<Uuid>,
}

/// What is left of a budget, held within range.
pub open spec fn remaining(max_effects: i64, used_effects: i64) -> i64 {
    if max_effects - used_effects > i64::MAX {
        i64::MAX
    } else if max_effects - used_effects < i64::MIN {
        i64::MIN
    } else {
        (max_effects - used_effects) as i64
    }
}

impl FromSpecImpl<GrantRecord> for GrantView {
    open spec fn obeys_from_spec() -> bool {
        true
    }

    open spec fn from_spec(record: GrantRecord) -> GrantView {
        GrantView {
            id: record.id,
            parent_id: record.parent_id,
            depth: record.depth,
            actions: record.actions,
            destinations: record.destinations,
            projects: record.projects,
            expires_at: record.expires_at,
            max_effects: record.max_effects,
            used_effects: record.used_effects,
            remaining_effects: remaining(record.max_effects, record.used_effects),
            revoked_at: record.revoked_at,
            ancestry: record.ancestry,
        }
    }
}

impl From<GrantRecord> for GrantView {
    fn from(record: GrantRecord) -> (r: GrantView) {
        let difference: i128 = record.max_effects as i128 - record.used_effects as i128;
        let remaining_effects: i64 = if difference > i64::MAX as i128 {
            i64::MAX
        } else if difference < i64::MIN as i128 {
            i64::MIN
        } else {
            difference as i64
        };
        GrantView {
            id: record.id,
            parent_id: record.parent_id,
            depth: record.depth,
            actions: record.actions,
            destinations: record.destinations,
            projects: record.projects,
            expires_at: record.expires_at,
            max_effects: record.max_effects,
            used_effects: record.used_effects,
            remaining_effects,
            revoked_at: record.revoked_at,
            ancestry: record.ancestry,
        }
    }
}

fn not_found() -> (r: ApiError)
    ensures
        r.says(404, "GRANT_NOT_FOUND"@, "Grant does not exist"@, false),
{
    error(404, "GRANT_NOT_FOUND", "Grant does not exist", false)
}

fn owner_required() -> (r: ApiError)
    ensures
        r.says(403, "FORBIDDEN"@, "Owner role is required"@, false),
{
    error(403, "FORBIDDEN", "Owner role is required", false)
}

fn invalid_grant() -> (r: ApiError)
    ensures
        r.says(422, "INVALID_GRANT"@, "Grant authority is invalid"@, false),
{
    error(422, "INVALID_GRANT", "Grant authority is invalid", false)
}

/// What an error of the store is answered.
pub fn store_error(failed: StoreError) -> (r: ApiError)
    ensures
        match failed {
            StoreError::GrantNotFound => r.says(404, "GRANT_NOT_FOUND"@, "Grant does not exist"@, false),
            StoreError::GrantValidation(_) => r.says(422, "INVALID_GRANT"@, "Grant authority is invalid"@, false),
            _ => r.says(503, "STORE_UNAVAILABLE"@, "Grant operation could not be completed"@, true),
        },
{
    match failed {
        StoreError::GrantNotFound => not_found(),
        StoreError::GrantValidation(_) => invalid_grant(),
        _ => error(503, "STORE_UNAVAILABLE", "Grant operation could not be completed", true),
    }
}

/// A grant that may be created.
#[derive(Debug)]
pub struct NewGrant {
    pub tenant: Uuid,
    pub parent: Option<Uuid>,
    pub authority: Authority,
}

/// Judge a request for a grant: by its role, its body and what it asks for.
fn create(
    principal: &Principal,
    parent: Option<Uuid>,
    body: Result<GrantCreate, u16>,
    bounds: &Bounds,
) -> (r: Result<NewGrant, ApiError>)
    ensures
        creation_is_judged(principal@, parent, body, bounds@, r),
{
    let tenant = match principal.owner_tenant() {
        Ok(tenant) => tenant,
        Err(_) => return Err(owner_required()),
    };
    let asked = match body {
        Ok(asked) => asked,
        Err(status) => return Err(json_rejection(status, "Grant body is invalid")),
    };
    match asked.normalize(bounds) {
        Ok(authority) => Ok(NewGrant { tenant, parent, authority }),
        Err(_) => Err(invalid_grant()),
    }
}

/// A request for a grant below a parent, if any, was judged: by its role, then
/// its body, then what it asks for.
pub open spec fn creation_is_judged(
    principal: PrincipalView,
    parent: Option<Uuid>,
    body: Result<GrantCreate, u16>,
    bounds: Seq<DestinationView>,
    r: Result<NewGrant, ApiError>,
) -> bool {
    if principal.owned_tenant() is None {
        r is Err && r->Err_0.says(403, "FORBIDDEN"@, "Owner role is required"@, false)
    } else {
        match body {
            Err(status) => r is Err && r->Err_0.says(status, api::rejection_code(status), "Grant body is invalid"@, false),
            Ok(asked) => {
                let nanos = rfc3339_nanos(asked.expires_at@);
                if asked.is_readable(nanos) && asked.is_shaped() && asked.is_within(bounds) {
                    r matches Ok(grant) && {
                        &&& principal.owned_tenant() == Some(grant.tenant)
                        &&& grant.parent == parent
                        &&& asked.asks_for(grant.authority, nanos->0)
                        &&& grant.authority.is_shaped()
                        &&& permitted(bounds, grant.authority)
                    }
                } else {
                    r is Err && r->Err_0.says(422, "INVALID_GRANT"@, "Grant authority is invalid"@, false)
                }
            },
        }
    }
}

/// Judge a request for a root.
pub fn create_root(
    principal: &Principal,
    body: Result<GrantCreate, u16>,
    bounds: &Bounds,
) -> (r: Result<NewGrant, ApiError>)
    ensures
        creation_is_judged(principal@, None, body, bounds@, r),
{
    create(principal, None, body, bounds)
}

/// Judge a request for a child of the grant with the given text.
pub fn create_child(
    principal: &Principal,
    id: &str,
    body: Result<GrantCreate, u16>,
    bounds: &Bounds,
) -> (r: Result<NewGrant, ApiError>)
    ensures
        if !ids::is_canonical_id(id@) {
            r is Err && r->Err_0.says(404, "GRANT_NOT_FOUND"@, "Grant does not exist"@, false)
        } else {
            exists|parent: Uuid|
                {
                    &&& id@ == #[trigger] ids::hyphenated(parent.value)
                    &&& creation_is_judged(principal@, Some(parent), body, bounds@, r)
                }
        },
{
    match canonical_id(id) {
        Some(parent) => {
            assert(id@ == ids::hyphenated(parent.value));
            create(principal, Some(parent), body, bounds)
        },
        None => Err(not_found()),
    }
}

/// Judge a request to see a grant: a grant that the caller may not use is not
/// there for it.
pub fn get(principal: &Principal, id: &str) -> (r: Result<(Uuid, Uuid), ApiError>)
    ensures
        match r {
            Ok((tenant, grant)) => {
                &&& id@ == ids::hyphenated(grant.value)
                &&& principal@.own_tenant() == Some(tenant)
                &&& principal@.may_use_grant(tenant, grant)
            },
            Err(refusal) => {
                &&& refusal.says(404, "GRANT_NOT_FOUND"@, "Grant does not exist"@, false)
                &&& !ids::is_canonical_id(id@) || principal@.own_tenant() is None || exists|
                    grant: Uuid,
                |
                    {
                        &&& id@ == #[trigger] ids::hyphenated(grant.value)
                        &&& !principal@.may_use_grant(principal@.own_tenant()->0, grant)
                    }
            },
        },
{
    let grant = match canonical_id(id) {
        Some(grant) => grant,
        None => return Err(not_found()),
    };
    assert(id@ == ids::hyphenated(grant.value));
    match principal.tenant() {
        Ok(tenant) => if principal.permits_grant(tenant, grant) {
            Ok((tenant, grant))
        } else {
            Err(not_found())
        },
        Err(_) => Err(not_found()),
    }
}

/// A grant that may be revoked.
#[derive(Debug)]
pub struct Revocation {
    pub tenant: Uuid,
    pub grant: Uuid,
    pub reason: String,
}

/// Judge a request to revoke a grant: by its path, its role and its body.
pub fn revoke(principal: &Principal, id: &str, body: Result<Revoke, u16>) -> (r: Result<
    Revocation,
    ApiError,
>)
    ensures
        if !ids::is_canonical_id(id@) {
            r is Err && r->Err_0.says(404, "GRANT_NOT_FOUND"@, "Grant does not exist"@, false)
        } else if principal@.owned_tenant() is None {
            r is Err && r->Err_0.says(403, "FORBIDDEN"@, "Owner role is required"@, false)
        } else {
            match body {
                Err(status) => r is Err && r->Err_0.says(status, api::rejection_code(status), "Revocation body is invalid"@, false),
                Ok(asked) => if store::grants::is_reason(asked.reason@) {
                    r matches Ok(revocation) && {
                        &&& principal@.owned_tenant() == Some(revocation.tenant)
                        &&& id@ == ids::hyphenated(revocation.grant.value)
                        &&& revocation.reason == asked.reason
                    }
                } else {
                    r is Err && r->Err_0.says(422, "INVALID_REASON"@, "Revocation reason is invalid"@, false)
                },
            }
        },
{
    let grant = match canonical_id(id) {
        Some(grant) => grant,
        None => return Err(not_found()),
    };
    assert(id@ == ids::hyphenated(grant.value));
    let tenant = match principal.owner_tenant() {
        Ok(tenant) => tenant,
        Err(_) => return Err(owner_required()),
    };
    match body {
        Ok(asked) => {
            let length: usize = text::byte_len(asked.reason.as_str());
            if length == 0 || length > 1024 || asked.reason.as_str().unicode_len() > 256 {
                return Err(error(422, "INVALID_REASON", "Revocation reason is invalid", false));
            }
            Ok(Revocation { tenant, grant, reason: asked.reason })
        },
        Err(status) => Err(json_rejection(status, "Revocation body is invalid")),
    }
}

/// Names are among others exactly where each of them is one of the others.
pub proof fn names_are_among_others(some: Seq<Seq<char>>, all: Seq<Seq<char>>)
    ensures
        all_among(some, all) <==> forall|i: int|
            0 <= i < some.len() ==> all.contains(#[trigger] some[i]),
{
    if all_among(some, all) {
        assert forall|i: int| 0 <= i < some.len() implies all.contains(#[trigger] some[i]) by {
            assert(some.contains(some[i]));
        }
    }
    if forall|i: int| 0 <= i < some.len() ==> all.contains(#[trigger] some[i]) {
        assert forall|name: Seq<char>| some.contains(name) implies #[trigger] all.contains(
            name,
        ) by {
            let i = choose|i: int| 0 <= i < some.len() && some[i] == name;
            assert(all.contains(some[i]));
        }
    }
}

/// An authority within bounds creates tickets and does nothing else, and each of
/// its projects is allowed at each of its destinations.
pub proof fn permitted_authority_is_within_bounds(
    bounds: Seq<DestinationView>,
    authority: Authority,
    action: Seq<char>,
    destination: Seq<char>,
    project: Seq<char>,
)
    requires
        permitted(bounds, authority),
    ensures
        authority.actions@.contains(action) ==> action == "ticket.create"@,
        authority.destinations@.contains(destination) ==> exists|j: int|
            0 <= j < bounds.len() && (#[trigger] bounds[j]).alias == destination,
        authority.destinations@.contains(destination) && authority.projects@.contains(project)
            ==> exists|j: int|
            0 <= j < bounds.len() && (#[trigger] bounds[j]).alias == destination
                && bounds[j].projects.contains(project),
{
    if authority.actions@.contains(action) {
        assert(seq!["ticket.create"@].contains(action));
    }
    if authority.destinations@.contains(destination) {
        let all = authority.destinations@;
        let k = choose|k: int| 0 <= k < all.len() && all[k] == destination;
        assert(permitted_at(bounds, all[k], authority.projects@));
        let j = choose|j: int|
            {
                &&& 0 <= j < bounds.len()
                &&& (#[trigger] bounds[j]).alias == destination
                &&& all_among(authority.projects@, bounds[j].projects)
            };
        if authority.projects@.contains(project) {
            assert(bounds[j].projects.contains(project));
        }
    }
}

/// An authority that creates tickets alone, at destinations of the bounds each of
/// which has all of its projects, is within them.
pub proof fn authority_within_bounds_is_permitted(bounds: Seq<DestinationView>, authority: Authority)
    requires
        forall|i: int|
            0 <= i < authority.actions@.len() ==> #[trigger] authority.actions@[i]
                == "ticket.create"@,
        forall|i: int|
            0 <= i < authority.destinations@.len() ==> exists|j: int|
                0 <= j < bounds.len() && (#[trigger] bounds[j]).alias
                    == #[trigger] authority.destinations@[i] && all_among(
                    authority.projects@,
                    bounds[j].projects,
                ),
    ensures
        permitted(bounds, authority),
{
    let known = seq!["ticket.create"@];
    assert(known[0] == "ticket.create"@);
    assert forall|i: int| 0 <= i < authority.actions@.len() implies known.contains(
        #[trigger] authority.actions@[i],
    ) by {
        assert(known.contains(known[0]));
    }
    names_are_among_others(authority.actions@, known);
}

/// What is within bounds stays so when it asks for fewer actions, destinations or
/// projects.
pub proof fn narrower_authority_stays_permitted(
    bounds: Seq<DestinationView>,
    authority: Authority,
    narrower: Authority,
)
    requires
        permitted(bounds, authority),
        all_among(narrower.actions@, authority.actions@),
        all_among(narrower.destinations@, authority.destinations@),
        all_among(narrower.projects@, authority.projects@),
    ensures
        permitted(bounds, narrower),
{
    assert forall|i: int| 0 <= i < narrower.destinations@.len() implies permitted_at(
        bounds,
        #[trigger] narrower.destinations@[i],
        narrower.projects@,
    ) by {
        let all = authority.destinations@;
        let destination = narrower.destinations@[i];
        assert(narrower.destinations@.contains(destination));
        assert(all.contains(destination));
        let k = choose|k: int| 0 <= k < all.len() && all[k] == destination;
        assert(permitted_at(bounds, all[k], authority.projects@));
        let j = choose|j: int|
            {
                &&& 0 <= j < bounds.len()
                &&& (#[trigger] bounds[j]).alias == destination
                &&& all_among(authority.projects@, bounds[j].projects)
            };
        assert forall|name: Seq<char>| narrower.projects@.contains(
            name,
        ) implies #[trigger] bounds[j].projects.contains(name) by {
            assert(authority.projects@.contains(name));
        }
        assert(bounds[j].alias == destination);
    }
    assert forall|name: Seq<char>| narrower.actions@.contains(name) implies #[trigger] seq![
        "ticket.create"@,
    ].contains(name) by {
        assert(authority.actions@.contains(name));
    }
}

/// The bounds of a configuration have one destination for each adapter, under its
/// alias and with its projects.
pub proof fn bounds_are_of_their_adapters(
    bounds: Bounds,
    adapters: Seq<AdapterEntry>,
    i: int,
    project: Seq<char>,
)
    requires
        bounds.bounds(adapters),
        0 <= i < adapters.len(),
    ensures
        bounds@.len() == adapters.len(),
        bounds@[i].alias == adapters[i].alias@,
        bounds@[i].projects.contains(project) <==> exists|k: int|
            0 <= k < adapters[i].adapter.projects@.len()
                && #[trigger] adapters[i].adapter.projects@[k]@ == project,
{
    let listed = names::texts(adapters[i].adapter.projects@);
    if listed.contains(project) {
        let k = choose|k: int| 0 <= k < listed.len() && listed[k] == project;
        assert(adapters[i].adapter.projects@[k]@ == project);
    }
    if exists|k: int|
        0 <= k < adapters[i].adapter.projects@.len()
            && #[trigger] adapters[i].adapter.projects@[k]@ == project {
        let k = choose|k: int|
            0 <= k < adapters[i].adapter.projects@.len()
                && #[trigger] adapters[i].adapter.projects@[k]@ == project;
        assert(listed[k] == project);
    }
}

/// A time has the milliseconds that have passed whole between it and the epoch,
/// and its own sign.
pub proof fn milliseconds_are_whole(nanos: i128)
    ensures
        nanos >= 0 ==> 0 <= nanos - whole_ms(nanos) * 1_000_000 < 1_000_000,
        nanos <= 0 ==> 0 <= whole_ms(nanos) * 1_000_000 - nanos < 1_000_000,
        nanos % 1_000_000 == 0 ==> whole_ms(nanos) * 1_000_000 == nanos,
        nanos >= 0 ==> whole_ms(nanos) >= 0,
        nanos <= 0 ==> whole_ms(nanos) <= 0,
{
}

/// What is asked for is read exactly where each of its lists has 1 to 16 names,
/// none twice, and its expiry is a time whose milliseconds are in range.
pub proof fn requests_are_read_on_their_terms(asked: GrantCreate, nanos: Option<i128>)
    ensures
        asked.is_readable(nanos) <==> {
            &&& 0 < asked.actions@.len() < 17 && names::texts(asked.actions@).no_duplicates()
            &&& 0 < asked.destinations@.len() < 17 && names::texts(
                asked.destinations@,
            ).no_duplicates()
            &&& 0 < asked.projects@.len() < 17 && names::texts(asked.projects@).no_duplicates()
            &&& nanos is Some
            &&& -9_223_372_036_854_775_808 <= whole_ms(nanos->0) <= 9_223_372_036_854_775_807
        },
        asked.is_shaped() <==> {
            &&& 0 < asked.max_effects < 101
            &&& asked.actions@.len() == 1 && asked.actions@[0]@ == "ticket.create"@
            &&& forall|i: int|
                0 <= i < asked.destinations@.len() ==> text::is_alias(
                    (#[trigger] asked.destinations@[i])@,
                )
            &&& forall|i: int|
                0 <= i < asked.projects@.len() ==> text::is_alias((#[trigger] asked.projects@[i])@)
        },
{
}

/// What is asked for within the bounds is asked for at destinations of theirs, each
/// of which has all of the projects.
pub proof fn requests_within_bounds_are_at_their_destinations(
    asked: GrantCreate,
    bounds: Seq<DestinationView>,
    i: int,
)
    requires
        asked.is_within(bounds),
        0 <= i < asked.destinations@.len(),
    ensures
        exists|j: int|
            {
                &&& 0 <= j < bounds.len()
                &&& (#[trigger] bounds[j]).alias == asked.destinations@[i]@
                &&& all_among(names::texts(asked.projects@), bounds[j].projects)
            },
{
    assert(permitted_at(bounds, asked.destinations@[i]@, names::texts(asked.projects@)));
}

/// What is asked for at destinations of the bounds, each of which has all of the
/// projects, is within the bounds.
pub proof fn requests_at_known_destinations_are_within_bounds(
    asked: GrantCreate,
    bounds: Seq<DestinationView>,
)
    requires
        forall|i: int|
            0 <= i < asked.destinations@.len() ==> exists|j: int|
                {
                    &&& 0 <= j < bounds.len()
                    &&& (#[trigger] bounds[j]).alias == (#[trigger] asked.destinations@[i])@
                    &&& all_among(names::texts(asked.projects@), bounds[j].projects)
                },
    ensures
        asked.is_within(bounds),
{
}

/// Where a request is normalized, the authority has its names, its expiry and its
/// budget, unchanged; where not, it could not be read, had no shape, or went
/// beyond the bounds, and only the last is an escalation.
pub proof fn normalized_requests_get_what_they_ask(
    asked: GrantCreate,
    bounds: Seq<DestinationView>,
    nanos: Option<i128>,
    r: Result<Authority, GrantError>,
    name: Seq<char>,
)
    requires
        asked.normalizes(bounds, nanos, r),
    ensures
        r is Ok <==> asked.is_readable(nanos) && asked.is_shaped() && asked.is_within(bounds),
        r is Ok ==> {
            let authority = r->Ok_0;
            &&& authority.actions@.contains(name) <==> names::texts(asked.actions@).contains(name)
            &&& authority.destinations@.contains(name) <==> names::texts(
                asked.destinations@,
            ).contains(name)
            &&& authority.projects@.contains(name) <==> names::texts(asked.projects@).contains(name)
            &&& authority.max_effects == asked.max_effects
            &&& nanos is Some && authority.expires_at_ms == whole_ms(nanos->0)
        },
        r is Err ==> (r->Err_0 == GrantError::Escalation <==> asked.is_readable(nanos)
            && asked.is_shaped()),
        r is Err ==> r->Err_0 == GrantError::Escalation || r->Err_0 == GrantError::Invalid,
{
}

/// What is left of a budget is what was not used, held within range.
pub proof fn budgets_are_left_over(max_effects: i64, used_effects: i64)
    ensures
        0 <= used_effects <= max_effects ==> remaining(max_effects, used_effects) + used_effects
            == max_effects,
        i64::MIN <= max_effects - used_effects <= i64::MAX ==> remaining(max_effects, used_effects)
            == max_effects - used_effects,
        max_effects - used_effects > i64::MAX ==> remaining(max_effects, used_effects)
            == 9_223_372_036_854_775_807,
        max_effects - used_effects < i64::MIN ==> remaining(max_effects, used_effects)
            == -9_223_372_036_854_775_808,
{
}

/// A grant is shown as it is stored, with what is left of its budget beside it.
pub proof fn grants_are_shown_as_stored(record: GrantRecord)
    ensures
        ({
            let shown = <GrantView as vstd::std_specs::convert::FromSpec<GrantRecord>>::from_spec(record);
            &&& shown.id == record.id && shown.parent_id == record.parent_id
            &&& shown.depth == record.depth && shown.ancestry == record.ancestry
            &&& shown.actions == record.actions && shown.destinations == record.destinations
            &&& shown.projects == record.projects
            &&& shown.expires_at == record.expires_at && shown.revoked_at == record.revoked_at
            &&& shown.max_effects == record.max_effects
            &&& shown.used_effects == record.used_effects
            &&& shown.remaining_effects == remaining(record.max_effects, record.used_effects)
        }),
{
}

/// A grant may be created exactly where an owner asks for it, in a body that can be
/// read, and what is asked for is well shaped and within the bounds; it is then of
/// the owner's tenant, below the parent named, and has what was asked for.
pub proof fn owners_create_what_is_within_bounds(
    principal: PrincipalView,
    parent: Option<Uuid>,
    body: Result<GrantCreate, u16>,
    bounds: Seq<DestinationView>,
    r: Result<NewGrant, ApiError>,
)
    requires
        creation_is_judged(principal, parent, body, bounds, r),
    ensures
        r is Ok <==> {
            &&& principal.owned_tenant() is Some
            &&& body is Ok
            &&& body->Ok_0.is_readable(rfc3339_nanos(body->Ok_0.expires_at@))
            &&& body->Ok_0.is_shaped()
            &&& body->Ok_0.is_within(bounds)
        },
        r is Ok ==> {
            &&& principal.authority is Owner && r->Ok_0.tenant == principal.authority->Owner_tenant
            &&& r->Ok_0.parent == parent
            &&& body->Ok_0.asks_for(
                r->Ok_0.authority,
                rfc3339_nanos(body->Ok_0.expires_at@)->0,
            )
            &&& permitted(bounds, r->Ok_0.authority)
        },
        r is Err ==> {
            &&& principal.owned_tenant() is None ==> r->Err_0.status == 403
            &&& principal.owned_tenant() is Some && body is Err ==> r->Err_0.status == body->Err_0
            &&& principal.owned_tenant() is Some && body is Ok ==> r->Err_0.status == 422
            &&& !r->Err_0.retryable && !r->Err_0.retry_after
        },
{
}

} // verus!
