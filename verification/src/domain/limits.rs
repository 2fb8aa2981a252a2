//! Execution limits and the hosts that may execute.
use vstd::prelude::*;

use crate::text;

verus! {

pub const MODULE_BYTES: usize = 2 * 1024 * 1024;

pub const PAYLOAD_BYTES: usize = 64 * 1024;

pub const LOG_BYTES: usize = 16 * 1024;

pub const EFFECT_REQUEST_BYTES: usize = 16 * 1024;

pub const MAX_EFFECTS: u64 = 8;

/// No operator setting raises guest memory above this.
pub const MEMORY_BYTES: u64 = 64 * 1024 * 1024;

/// What one invocation may consume.
#[derive(Clone, Copy, Debug, PartialEq, Eq, Structural)]
pub struct Limits {
    pub fuel: u64,
    pub memory_bytes: u64,
    pub wall_ms: u64,
    pub max_effects: u64,
}

impl Default for Limits {
    fn default() -> (r: Limits)
        ensures
            r.fuel == 10_000_000,
            r.memory_bytes == MEMORY_BYTES,
            r.wall_ms == 2_000,
            r.max_effects == MAX_EFFECTS,
    {
        Limits {
            fuel: 10_000_000,
            memory_bytes: MEMORY_BYTES,
            wall_ms: 2_000,
            max_effects: MAX_EFFECTS,
        }
    }
}

/// A configuration that cannot be honoured.
#[derive(Clone, Copy, Debug, PartialEq, Eq)]
pub enum ConfigError {
    InvalidLimit(&'static str),
    UnsupportedHost,
}

impl ConfigError {
    /// What went wrong, in words.
    pub open spec fn words(self) -> Seq<char> {
        match self {
            ConfigError::InvalidLimit(name) => "limit "@ + name@
                + " must be positive and within operator caps"@,
            ConfigError::UnsupportedHost =>
                "EffectLatch execution requires Linux x86_64 or a verified Linux ARM64 host; use a Linux VM or Docker on Windows/macOS"@,
        }
    }

    /// What went wrong, in words.
    pub fn to_text(&self) -> (r: String)
        ensures
            r@ == self.words(),
    {
        match self {
            ConfigError::InvalidLimit(name) => {
                let mut out = text::copy_text("limit ");
                out.append(name);
                out.append(" must be positive and within operator caps");
                out
            },
            ConfigError::UnsupportedHost => text::copy_text(
                "EffectLatch execution requires Linux x86_64 or a verified Linux ARM64 host; use a Linux VM or Docker on Windows/macOS",
            ),
        }
    }
}

/// Positive and no greater than the cap.
pub open spec fn within(value: u64, cap: u64) -> bool {
    0 < value <= cap
}

/// The smaller of two numbers.
pub open spec fn smaller(a: u64, b: u64) -> u64 {
    if a <= b {
        a
    } else {
        b
    }
}

impl Limits {
    /// The name of the first limit that is zero or exceeds its cap. Memory and
    /// effects have a fixed cap besides the operator's.
    pub open spec fn first_violation(self, caps: Limits) -> Option<Seq<char>> {
        if !within(self.fuel, caps.fuel) {
            Some("fuel"@)
        } else if !within(self.memory_bytes, smaller(caps.memory_bytes, MEMORY_BYTES)) {
            Some("memory_bytes"@)
        } else if !within(self.wall_ms, caps.wall_ms) {
            Some("wall_ms"@)
        } else if !within(self.max_effects, smaller(caps.max_effects, MAX_EFFECTS)) {
            Some("max_effects"@)
        } else {
            None
        }
    }

    /// Validate caller limits against a trusted operator configuration.
    /// An operator may increase wall time, never the fixed effect cap.
    pub fn validate(self, caps: Limits) -> (r: Result<Limits, ConfigError>)
        ensures
            match r {
                Ok(limits) => limits == self && self.first_violation(caps) is None,
                Err(ConfigError::InvalidLimit(name)) => self.first_violation(caps) == Some(name@),
                Err(ConfigError::UnsupportedHost) => false,
            },
    {
        if self.fuel == 0 || self.fuel > caps.fuel {
            return Err(ConfigError::InvalidLimit("fuel"));
        }
        let memory_cap: u64 = if caps.memory_bytes <= MEMORY_BYTES {
            caps.memory_bytes
        } else {
            MEMORY_BYTES
        };
        if self.memory_bytes == 0 || self.memory_bytes > memory_cap {
            return Err(ConfigError::InvalidLimit("memory_bytes"));
        }
        if self.wall_ms == 0 || self.wall_ms > caps.wall_ms {
            return Err(ConfigError::InvalidLimit("wall_ms"));
        }
        let effect_cap: u64 = if caps.max_effects <= MAX_EFFECTS {
            caps.max_effects
        } else {
            MAX_EFFECTS
        };
        if self.max_effects == 0 || self.max_effects > effect_cap {
            return Err(ConfigError::InvalidLimit("max_effects"));
        }
        Ok(self)
    }
}

/// Whether guests may execute on a host: Linux on x86-64 or 64-bit ARM.
pub open spec fn is_execution_host(os: Seq<char>, arch: Seq<char>) -> bool {
    os == "linux"@ && (arch == "x86_64"@ || arch == "aarch64"@)
}

/// Capability diagnostic only; a supported architecture is not evidence of testing it.
pub fn require_execution_host(os: &str, arch: &str) -> (r: Result<(), ConfigError>)
    ensures
        r == (if is_execution_host(os@, arch@) {
            Ok::<(), ConfigError>(())
        } else {
            Err(ConfigError::UnsupportedHost)
        }),
{
    if text::text_equal(os, "linux") && (text::text_equal(arch, "x86_64") || text::text_equal(
        arch,
        "aarch64",
    )) {
        Ok(())
    } else {
        Err(ConfigError::UnsupportedHost)
    }
}

/// No caller disables a limit or raises it above the operator's caps and the fixed ones.
pub proof fn accepted_limits_stay_within_caps(limits: Limits, caps: Limits)
    requires
        limits.first_violation(caps) is None,
    ensures
        0 < limits.fuel <= caps.fuel,
        0 < limits.memory_bytes <= caps.memory_bytes,
        limits.memory_bytes <= MEMORY_BYTES,
        0 < limits.wall_ms <= caps.wall_ms,
        0 < limits.max_effects <= caps.max_effects,
        limits.max_effects <= MAX_EFFECTS,
{
}

/// Limits accepted once are accepted again, also against caps that they themselves are.
pub proof fn accepted_limits_stay_accepted(limits: Limits, caps: Limits)
    requires
        limits.first_violation(caps) is None,
    ensures
        limits.first_violation(limits) is None,
{
}

/// Every limit that is positive and within the operator's cap is accepted, up to
/// the fixed caps on memory and effects: nothing below a cap is refused.
pub proof fn limits_within_caps_are_accepted(limits: Limits, caps: Limits)
    requires
        1 <= limits.fuel <= caps.fuel,
        1 <= limits.memory_bytes <= caps.memory_bytes,
        limits.memory_bytes <= 67_108_864,
        1 <= limits.wall_ms <= caps.wall_ms,
        1 <= limits.max_effects <= caps.max_effects,
        limits.max_effects <= 8,
    ensures
        limits.first_violation(caps) is None,
{
}

/// Lower limits than accepted ones are accepted, as long as none is zero, and
/// higher caps accept what lower ones did.
pub proof fn lowering_limits_keeps_them_accepted(
    limits: Limits,
    caps: Limits,
    lower: Limits,
    higher: Limits,
)
    requires
        limits.first_violation(caps) is None,
        0 < lower.fuel <= limits.fuel,
        0 < lower.memory_bytes <= limits.memory_bytes,
        0 < lower.wall_ms <= limits.wall_ms,
        0 < lower.max_effects <= limits.max_effects,
        caps.fuel <= higher.fuel,
        caps.memory_bytes <= higher.memory_bytes,
        caps.wall_ms <= higher.wall_ms,
        caps.max_effects <= higher.max_effects,
    ensures
        lower.first_violation(higher) is None,
{
}

/// No limit is accepted above its cap, whatever the others are.
pub proof fn accepted_limits_break_no_cap(limits: Limits, caps: Limits)
    ensures
        limits.first_violation(caps) is None ==> {
            &&& 1 <= limits.fuel <= caps.fuel
            &&& 1 <= limits.memory_bytes <= caps.memory_bytes
            &&& limits.memory_bytes <= 67_108_864
            &&& 1 <= limits.wall_ms <= caps.wall_ms
            &&& 1 <= limits.max_effects <= caps.max_effects
            &&& limits.max_effects <= 8
        },
{
}

/// The limit that is blamed is broken, and those named before it are not.
pub proof fn blamed_limit_is_broken(limits: Limits, caps: Limits, name: Seq<char>)
    requires
        limits.first_violation(caps) == Some(name),
    ensures
        name == "fuel"@ || name == "memory_bytes"@ || name == "wall_ms"@ || name == "max_effects"@,
        name == "fuel"@ <==> limits.fuel == 0 || limits.fuel > caps.fuel,
        name == "memory_bytes"@ ==> limits.memory_bytes == 0 || limits.memory_bytes
            > caps.memory_bytes || limits.memory_bytes > 67_108_864,
        name == "wall_ms"@ ==> {
            &&& limits.wall_ms == 0 || limits.wall_ms > caps.wall_ms
            &&& 1 <= limits.memory_bytes <= caps.memory_bytes
            &&& limits.memory_bytes <= 67_108_864
        },
        name == "max_effects"@ ==> {
            &&& limits.max_effects == 0 || limits.max_effects > caps.max_effects
                || limits.max_effects > 8
            &&& 1 <= limits.memory_bytes <= caps.memory_bytes
            &&& limits.memory_bytes <= 67_108_864
            &&& 1 <= limits.wall_ms <= caps.wall_ms
        },
{
    reveal_strlit("fuel");
    reveal_strlit("memory_bytes");
    reveal_strlit("wall_ms");
    reveal_strlit("max_effects");
    assert("fuel"@.len() == 4 && "memory_bytes"@.len() == 12 && "wall_ms"@.len() == 7
        && "max_effects"@.len() == 11);
}

/// Guests execute on Linux alone, and there on two architectures.
pub proof fn execution_hosts_run_linux(os: Seq<char>, arch: Seq<char>)
    ensures
        is_execution_host(os, arch) ==> os == "linux"@ && (arch == "x86_64"@ || arch
            == "aarch64"@),
        is_execution_host("linux"@, "x86_64"@),
        is_execution_host("linux"@, "aarch64"@),
{
}

} // verus!
