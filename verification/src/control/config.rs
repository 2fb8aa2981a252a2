//! The operator's configuration, taken strictly. Secrets come from other files.
use axum::http::Uri;
use vstd::prelude::*;

use crate::names;
use crate::runtime::ipc;
use crate::text;

verus! {

/// The longest configuration, in bytes.
pub const CONFIG_BYTES: usize = 65_536;

/// A configuration that is not accepted.
#[derive(Clone, Copy, Debug, PartialEq, Eq, Structural)]
pub struct ConfigError;

/// The parts of an address.
#[derive(Debug)]
pub struct UriParts {
    pub scheme: Option<String>,
    pub authority: Option<String>,
    pub port: Option<u16>,
    pub path: String,
    pub query: Option<String>,
}

/// The parts of an address, as text.
pub struct UriView {
    pub scheme: Option<Seq<char>>,
    pub authority: Option<Seq<char>>,
    pub port: Option<u16>,
    pub path: Seq<char>,
    pub query: Option<Seq<char>>,
}

impl View for UriParts {
    type V = UriView;

    open spec fn view(&self) -> UriView {
        UriView {
            scheme: ipc::optional_text(self.scheme),
            authority: ipc::optional_text(self.authority),
            port: self.port,
            path: self.path@,
            query: ipc::optional_text(self.query),
        }
    }
}

/// The parts of the address that a text is, where it is one.
pub uninterp spec fn uri_parts(value: Seq<char>) -> Option<UriView>;

/// Calls `http::Uri`'s `FromStr`, re-exported by axum, and reads off its parts:
/// the scheme, the authority and its port, the path and the query. Claimed: the
/// parts are a function of the text.
#[verifier::external_body]
fn parse_uri(value: &str) -> (r: Option<UriParts>)
    ensures
        match r {
            Some(parts) => uri_parts(value@) == Some(parts@),
            None => uri_parts(value@) is None,
        },
{
    let uri = value.parse::<Uri>().ok()?;
    Some(UriParts {
        scheme: uri.scheme_str().map(str::to_owned),
        authority: uri.authority().map(|authority| authority.as_str().to_owned()),
        port: uri.authority().and_then(|authority| authority.port_u16()),
        path: uri.path().to_owned(),
        query: uri.query().map(str::to_owned),
    })
}

impl UriView {
    /// Plain HTTP to a port of this machine, or to the private fixture, with
    /// neither path nor query.
    pub open spec fn is_local_fixture(self) -> bool {
        &&& self.scheme == Some("http"@)
        &&& self.authority matches Some(authority) && self.port matches Some(port) && {
            ||| authority == "127.0.0.1:"@ + text::decimal_chars(port as nat) && port != 0
            ||| authority == "fixture:8790"@
        }
        &&& self.path == "/"@
        &&& self.query is None
    }
}

impl UriParts {
    /// Whether the address is that of a local fixture.
    pub fn is_local_fixture(&self) -> (r: bool)
        ensures
            r == self@.is_local_fixture(),
    {
        let (scheme, authority, port) = match (&self.scheme, &self.authority, self.port) {
            (Some(scheme), Some(authority), Some(port)) => (scheme, authority, port),
            _ => return false,
        };
        let mut loopback = text::copy_text("127.0.0.1:");
        let number = text::decimal_text(port as u64);
        loopback.append(number.as_str());
        let known = (text::text_equal(authority.as_str(), loopback.as_str()) && port != 0)
            || text::text_equal(authority.as_str(), "fixture:8790");
        text::text_equal(scheme.as_str(), "http") && known && text::text_equal(
            self.path.as_str(),
            "/",
        ) && self.query.is_none()
    }
}

/// The text is the address of a local fixture.
pub open spec fn is_fixture_url(value: Seq<char>) -> bool {
    uri_parts(value) matches Some(parts) && parts.is_local_fixture()
}

/// Whether a text is the address of a local fixture.
fn local_fixture_url(value: &str) -> (r: bool)
    ensures
        r == is_fixture_url(value@),
{
    match parse_uri(value) {
        Some(parts) => parts.is_local_fixture(),
        None => false,
    }
}

#[derive(Debug)]
pub struct Config {
    pub server: Server,
    pub limits: Limits,
    pub retention: Retention,
    pub adapters: Adapters,
}

#[derive(Debug)]
pub struct Server {
    /// The address to listen on, as the operator wrote it.
    pub bind: String,
    pub max_json_bytes: u64,
    pub max_module_bytes: u64,
}

#[derive(Clone, Copy, Debug, PartialEq, Eq, Structural)]
pub struct Limits {
    pub max_pending_global: u64,
    pub max_pending_per_tenant: u64,
    pub max_active_global: u64,
    pub max_active_per_tenant: u64,
    pub max_attempts: u64,
    pub lease_ms: u64,
    pub heartbeat_ms: u64,
    pub sweep_ms: u64,
    pub wall_ms: u64,
    pub memory_bytes: u64,
    pub fuel: u64,
    pub max_effects: u64,
    pub max_host_calls: u64,
    pub max_log_bytes: u64,
}

#[derive(Clone, Copy, Debug, PartialEq, Eq, Structural)]
pub struct Retention {
    pub payload_hours: u64,
    pub metadata_days: u64,
}

#[derive(Debug)]
pub struct Adapter {
    pub base_url: String,
    pub idempotency: bool,
    pub retention_seconds: u64,
    pub retry_horizon_seconds: u64,
    pub mode: String,
    pub projects: Vec<String>,
    pub namespace: Option<String>,
}

/// An adapter under its alias.
#[derive(Debug)]
pub struct AdapterEntry {
    pub alias: String,
    pub adapter: Adapter,
}

/// Adapters by their aliases, in ascending order: no alias occurs twice.
#[derive(Debug)]
pub struct Adapters {
    entries: Vec<AdapterEntry>,
}

/// The aliases of adapters.
pub open spec fn aliases(entries: Seq<AdapterEntry>) -> Seq<Seq<char>> {
    Seq::new(entries.len(), |i: int| entries[i].alias@)
}

impl View for Adapters {
    type V = Seq<AdapterEntry>;

    closed spec fn view(&self) -> Seq<AdapterEntry> {
        self.entries@
    }
}

impl Adapters {
    #[verifier::type_invariant]
    closed spec fn sorted(self) -> bool {
        names::ascending(aliases(self.entries@))
    }

    /// No adapters.
    pub fn new() -> (r: Adapters)
        ensures
            r@ == Seq::<AdapterEntry>::empty(),
    {
        Adapters { entries: Vec::new() }
    }

    /// How many adapters there are.
    pub fn len(&self) -> (r: usize)
        ensures
            r == self@.len(),
    {
        self.entries.len()
    }

    pub fn is_empty(&self) -> (r: bool)
        ensures
            r == (self@.len() == 0),
    {
        self.entries.len() == 0
    }

    /// The adapter at a position of the ascending order.
    pub fn get(&self, index: usize) -> (r: &AdapterEntry)
        requires
            index < self@.len(),
        ensures
            *r == self@[index as int],
    {
        &self.entries[index]
    }

    /// Add an adapter behind the others; `false` where its alias does not come
    /// after theirs.
    pub fn push(&mut self, entry: AdapterEntry) -> (r: bool)
        ensures
            r == (old(self)@.len() == 0 || text::text_less(
                old(self)@.last().alias@,
                entry.alias@,
            )),
            r ==> final(self)@ == old(self)@.push(entry),
            !r ==> final(self)@ == old(self)@,
    {
        proof {
            use_type_invariant(&*self);
        }
        let count: usize = self.entries.len();
        if count > 0 && !text::is_text_less(
            self.entries[count - 1].alias.as_str(),
            entry.alias.as_str(),
        ) {
            return false;
        }
        let ghost before = self@;
        let ghost added = entry;
        let mut entries: Vec<AdapterEntry> = Vec::new();
        std::mem::swap(&mut entries, &mut self.entries);
        entries.push(entry);
        proof {
            let all = aliases(entries@);
            assert forall|i: int, j: int| 0 <= i < j < all.len() implies text::text_less(
                all[i],
                all[j],
            ) by {
                assert(aliases(before)[i] == all[i]);
                if j < before.len() {
                    assert(aliases(before)[j] == all[j]);
                } else if i < before.len() - 1 {
                    let last = aliases(before)[before.len() - 1];
                    assert(text::text_less(all[i], last));
                    text::bytes_less_is_transitive(
                        text::utf8(all[i]),
                        text::utf8(last),
                        text::utf8(all[j]),
                    );
                }
            }
        }
        self.entries = entries;
        true
    }
}

/// Positive and no greater than the maximum.
pub open spec fn is_bounded(value: u64, maximum: u64) -> bool {
    1 <= value <= maximum
}

fn bounded(value: u64, maximum: u64) -> (r: bool)
    ensures
        r == is_bounded(value, maximum),
{
    value != 0 && value <= maximum
}

impl Server {
    pub open spec fn is_valid(self) -> bool {
        &&& is_bounded(self.max_json_bytes, 131_072)
        &&& is_bounded(self.max_module_bytes, 2_097_152)
    }
}

impl Limits {
    /// Every limit is positive and within its fixed cap, heartbeats come more
    /// often than leases end, and no tenant gets more than there is.
    pub open spec fn is_valid(self) -> bool {
        &&& is_bounded(self.max_pending_global, 1000)
        &&& is_bounded(self.max_pending_per_tenant, 100)
        &&& is_bounded(self.max_active_global, 4)
        &&& is_bounded(self.max_active_per_tenant, 1)
        &&& is_bounded(self.max_attempts, 3)
        &&& is_bounded(self.lease_ms, 6000)
        &&& is_bounded(self.heartbeat_ms, 2000)
        &&& is_bounded(self.sweep_ms, 1000)
        &&& is_bounded(self.memory_bytes, 67_108_864)
        &&& is_bounded(self.max_effects, 8)
        &&& is_bounded(self.max_host_calls, 64)
        &&& is_bounded(self.max_log_bytes, 16_384)
        &&& is_bounded(self.wall_ms, 60_000)
        &&& self.fuel > 0
        &&& self.heartbeat_ms < self.lease_ms
        &&& self.max_pending_per_tenant <= self.max_pending_global
        &&& self.max_active_per_tenant <= self.max_active_global
    }

    fn valid(&self) -> (r: bool)
        ensures
            r == self.is_valid(),
    {
        bounded(self.max_pending_global, 1000) && bounded(self.max_pending_per_tenant, 100)
            && bounded(self.max_active_global, 4) && bounded(self.max_active_per_tenant, 1)
            && bounded(self.max_attempts, 3) && bounded(self.lease_ms, 6000) && bounded(
            self.heartbeat_ms,
            2000,
        ) && bounded(self.sweep_ms, 1000) && bounded(self.memory_bytes, 67_108_864) && bounded(
            self.max_effects,
            8,
        ) && bounded(self.max_host_calls, 64) && bounded(self.max_log_bytes, 16_384) && bounded(
            self.wall_ms,
            60_000,
        ) && self.fuel != 0 && self.heartbeat_ms < self.lease_ms && self.max_pending_per_tenant
            <= self.max_pending_global && self.max_active_per_tenant <= self.max_active_global
    }
}

impl Retention {
    /// Payloads are kept a day, metadata thirty.
    pub open spec fn is_valid(self) -> bool {
        self.payload_hours == 24 && self.metadata_days == 30
    }
}

impl Adapter {
    /// Idempotent adapters may be tried again within their horizon, which ends
    /// before the provider forgets; others never.
    pub open spec fn retries_safely(self) -> bool {
        if self.idempotency {
            &&& self.mode@ == "idem"@
            &&& self.retry_horizon_seconds == 82_800
            &&& self.retention_seconds >= 86_400
        } else {
            &&& self.mode@ == "nonidem"@
            &&& self.retry_horizon_seconds == 0
            &&& self.retention_seconds == 0
        }
    }

    /// A local fixture with one to sixteen different projects.
    pub open spec fn is_valid(self) -> bool {
        &&& text::utf8(self.base_url@).len() <= 2048
        &&& is_fixture_url(self.base_url@)
        &&& 1 <= self.projects@.len() <= 16
        &&& forall|i: int| 0 <= i < self.projects@.len() ==> text::is_alias(#[trigger] self.projects@[i]@)
        &&& names::texts(self.projects@).no_duplicates()
        &&& self.namespace matches Some(namespace) ==> 1 <= text::utf8(namespace@).len() <= 64
        &&& self.retries_safely()
    }

    fn valid(&self) -> (r: bool)
        ensures
            r == self.is_valid(),
    {
        if text::byte_len(self.base_url.as_str()) > 2048 || !local_fixture_url(
            self.base_url.as_str(),
        ) || self.projects.len() == 0 || self.projects.len() > 16 {
            return false;
        }
        let mut i: usize = 0;
        while i < self.projects.len()
            invariant
                i <= self.projects.len(),
                forall|k: int| 0 <= k < i ==> text::is_alias(#[trigger] self.projects@[k]@),
            decreases self.projects.len() - i,
        {
            if !identifier(self.projects[i].as_str()) {
                assert(!text::is_alias(self.projects@[i as int]@));
                return false;
            }
            i = i + 1;
        }
        if !names::are_distinct(self.projects.as_slice()) {
            return false;
        }
        if let Some(namespace) = &self.namespace {
            let length: usize = text::byte_len(namespace.as_str());
            if length == 0 || length > 64 {
                return false;
            }
        }
        if self.idempotency {
            text::text_equal(self.mode.as_str(), "idem") && self.retry_horizon_seconds == 82_800
                && self.retention_seconds >= 86_400
        } else {
            text::text_equal(self.mode.as_str(), "nonidem") && self.retry_horizon_seconds == 0
                && self.retention_seconds == 0
        }
    }
}

/// An identifier: 1 to 64 ASCII letters, digits, `-` or `_`.
fn identifier(value: &str) -> (r: bool)
    ensures
        r == text::is_alias(value@),
{
    text::alias_text(value)
}

/// One to sixteen valid adapters under identifiers.
pub open spec fn are_adapters(entries: Seq<AdapterEntry>) -> bool {
    &&& 1 <= entries.len() <= 16
    &&& forall|i: int|
        0 <= i < entries.len() ==> text::is_alias((#[trigger] entries[i]).alias@)
            && entries[i].adapter.is_valid()
}

impl Config {
    pub open spec fn is_valid(self) -> bool {
        &&& self.server.is_valid()
        &&& self.limits.is_valid()
        &&& self.retention.is_valid()
        &&& are_adapters(self.adapters@)
    }

    /// Accept the configuration that `bytes` were decoded to, where they were.
    pub fn parse(bytes: &[u8], decoded: Option<Config>) -> (r: Result<Config, ConfigError>)
        ensures
            match r {
                Ok(config) => {
                    &&& bytes@.len() <= CONFIG_BYTES
                    &&& decoded == Some(config)
                    &&& config.is_valid()
                },
                Err(_) => {
                    ||| bytes@.len() > CONFIG_BYTES
                    ||| decoded is None
                    ||| !decoded->0.is_valid()
                },
            },
            r is Ok <==> bytes@.len() < 65_537 && decoded is Some && decoded->0.is_valid(),
    {
        if bytes.len() > CONFIG_BYTES {
            return Err(ConfigError);
        }
        let config = match decoded {
            Some(config) => config,
            None => return Err(ConfigError),
        };
        match config.validate() {
            Ok(()) => Ok(config),
            Err(error) => Err(error),
        }
    }

    /// This product sends only to the local or private-network fixture.
    pub fn validate(&self) -> (r: Result<(), ConfigError>)
        ensures
            r is Ok <==> self.is_valid(),
    {
        if !bounded(self.server.max_json_bytes, 131_072) || !bounded(
            self.server.max_module_bytes,
            2_097_152,
        ) || !self.limits.valid() || self.retention.payload_hours != 24
            || self.retention.metadata_days != 30 || self.adapters.is_empty()
            || self.adapters.len() > 16 {
            return Err(ConfigError);
        }
        let mut i: usize = 0;
        while i < self.adapters.len()
            invariant
                i <= self.adapters@.len(),
                forall|k: int|
                    0 <= k < i ==> text::is_alias((#[trigger] self.adapters@[k]).alias@)
                        && self.adapters@[k].adapter.is_valid(),
            decreases self.adapters@.len() - i,
        {
            let entry = self.adapters.get(i);
            if !identifier(entry.alias.as_str()) || !entry.adapter.valid() {
                assert(!(text::is_alias(self.adapters@[i as int].alias@)
                    && self.adapters@[i as int].adapter.is_valid()));
                return Err(ConfigError);
            }
            i = i + 1;
        }
        Ok(())
    }
}

/// What a valid configuration retries, it retries before the provider forgets:
/// the horizon ends an hour before the shortest retention.
pub proof fn retries_end_before_the_provider_forgets(adapter: Adapter)
    requires
        adapter.is_valid(),
        adapter.retry_horizon_seconds > 0,
    ensures
        adapter.idempotency,
        adapter.retry_horizon_seconds + 3600 <= adapter.retention_seconds,
{
}

/// The address of a local fixture is plain HTTP, without path or query, to a port
/// of this machine or to the private fixture.
pub proof fn fixtures_are_near(parts: UriView)
    requires
        parts.is_local_fixture(),
    ensures
        parts.scheme == Some("http"@),
        parts.path == "/"@,
        parts.query is None,
        parts.port is Some,
        parts.authority == Some("fixture:8790"@) || (parts.port->0 > 0 && parts.authority == Some(
            "127.0.0.1:"@ + text::decimal_chars(parts.port->0 as nat),
        )),
{
}

/// Every port of this machine but the zeroth may be that of a fixture, and the
/// private fixture is one.
pub proof fn near_addresses_are_fixtures(port: u16)
    ensures
        port > 0 ==> (UriView {
            scheme: Some("http"@),
            authority: Some("127.0.0.1:"@ + text::decimal_chars(port as nat)),
            port: Some(port),
            path: "/"@,
            query: None,
        }).is_local_fixture(),
        (UriView {
            scheme: Some("http"@),
            authority: Some("fixture:8790"@),
            port: Some(port),
            path: "/"@,
            query: None,
        }).is_local_fixture(),
{
}

/// Limits are valid exactly where each is positive and within its own cap,
/// heartbeats come more often than leases end, and no tenant gets more than
/// there is; fuel has no cap.
pub proof fn operator_limits_are_valid_within_caps(limits: Limits)
    ensures
        limits.is_valid() <==> {
            &&& 0 < limits.max_pending_per_tenant < 101
            &&& limits.max_pending_per_tenant <= limits.max_pending_global
            &&& limits.max_pending_global < 1001
            &&& limits.max_active_per_tenant == 1
            &&& 0 < limits.max_active_global < 5
            &&& 0 < limits.max_attempts < 4
            &&& 0 < limits.heartbeat_ms < 2001
            &&& limits.heartbeat_ms < limits.lease_ms
            &&& limits.lease_ms < 6001
            &&& 0 < limits.sweep_ms < 1001
            &&& 0 < limits.wall_ms < 60_001
            &&& 0 < limits.memory_bytes < 67_108_865
            &&& limits.fuel != 0
            &&& 0 < limits.max_effects < 9
            &&& 0 < limits.max_host_calls < 65
            &&& 0 < limits.max_log_bytes < 16_385
        },
{
}

/// A server takes JSON of up to 128 KiB and modules of up to 2 MiB, each of at
/// least one byte; payloads are kept a day and metadata thirty.
pub proof fn servers_and_retention_are_bounded(server: Server, retention: Retention)
    ensures
        server.is_valid() <==> 0 < server.max_json_bytes < 131_073 && 0 < server.max_module_bytes
            < 2_097_153,
        retention.is_valid() <==> retention.payload_hours == 24 && retention.metadata_days == 30,
{
}

/// An adapter is valid exactly where it is a fixture of an address that is not too
/// long, has 1 to 16 different aliases for projects, a namespace of 1 to 64
/// bytes if any, and retries only where the provider remembers.
pub proof fn adapters_are_valid_on_their_terms(adapter: Adapter)
    ensures
        adapter.is_valid() <==> {
            &&& is_fixture_url(adapter.base_url@)
            &&& text::utf8(adapter.base_url@).len() < 2049
            &&& 0 < adapter.projects@.len() < 17
            &&& forall|i: int|
                0 <= i < adapter.projects@.len() ==> text::is_alias(
                    #[trigger] adapter.projects@[i]@,
                )
            &&& names::texts(adapter.projects@).no_duplicates()
            &&& adapter.namespace is Some ==> 0 < text::utf8(adapter.namespace->0@).len() < 65
            &&& adapter.retries_safely()
        },
        is_fixture_url(adapter.base_url@) <==> uri_parts(adapter.base_url@) is Some && uri_parts(
            adapter.base_url@,
        )->0.is_local_fixture(),
{
}

/// An idempotent adapter has its mode, a horizon of 23 hours and any retention of
/// a day or longer; one that is not has its own mode and neither.
pub proof fn adapters_retry_by_their_mode(adapter: Adapter)
    ensures
        adapter.idempotency ==> (adapter.retries_safely() <==> adapter.mode@ == "idem"@
            && adapter.retry_horizon_seconds == 82_800 && adapter.retention_seconds > 86_399),
        !adapter.idempotency ==> (adapter.retries_safely() <==> adapter.mode@ == "nonidem"@
            && adapter.retry_horizon_seconds == 0 && adapter.retention_seconds == 0),
{
}

/// A configuration is valid exactly where its parts are, with 1 to 16 adapters,
/// each valid and under an alias.
pub proof fn configurations_are_valid_in_their_parts(config: Config)
    ensures
        config.is_valid() <==> {
            &&& config.server.is_valid()
            &&& config.limits.is_valid()
            &&& config.retention.is_valid()
            &&& 0 < config.adapters@.len() < 17
            &&& forall|i: int|
                0 <= i < config.adapters@.len() ==> (
                #[trigger] config.adapters@[i]).adapter.is_valid()
            &&& forall|i: int|
                0 <= i < config.adapters@.len() ==> text::is_alias(
                    (#[trigger] config.adapters@[i]).alias@,
                )
        },
{
}

} // verus!
