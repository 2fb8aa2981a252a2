//! The bounded engine: how it is configured, what it compiles and what one
//! invocation may consume.
use vstd::prelude::*;
use wasmtime::{Engine, Module, StoreLimits};

use crate::domain::limits::{ConfigError, Limits};
use crate::runtime::validate;
use crate::runtime::validate::InvalidModule;
use crate::runtime::wasm;
use crate::runtime::wasm::{build_limiter, compile_module, new_engine, Compiled, ConfiguredEngine};

verus! {

/// The error of an input or output operation.
#[verifier::external_type_specification]
#[verifier::external_body]
pub struct ExIoError(std::io::Error);

#[derive(Debug)]
pub enum RuntimeError {
    Limits(ConfigError),
    InvalidModule(InvalidModule),
    Wasmtime(wasmtime::Error),
    Watchdog(std::io::Error),
    /// One engine cannot execute concurrent invocations.
    ConcurrentRun,
}

/// How an engine is configured.
#[derive(Clone, Copy, Debug, PartialEq, Eq, Structural)]
pub struct Settings {
    pub consume_fuel: bool,
    pub epoch_interruption: bool,
    pub memory64: bool,
    pub multi_memory: bool,
    pub relaxed_simd: bool,
    pub stack_bytes: usize,
}

impl Settings {
    /// Fuel and epochs on, every extension of the memory model off, and a
    /// stack of 512 KiB.
    pub open spec fn is_bounded(self) -> bool {
        &&& self.consume_fuel
        &&& self.epoch_interruption
        &&& !self.memory64
        &&& !self.multi_memory
        &&& !self.relaxed_simd
        &&& self.stack_bytes == 512 * 1024
    }

    pub fn bounded() -> (r: Settings)
        ensures
            r.is_bounded(),
    {
        Settings {
            consume_fuel: true,
            epoch_interruption: true,
            memory64: false,
            multi_memory: false,
            relaxed_simd: false,
            stack_bytes: 512 * 1024,
        }
    }
}

/// What one invocation hands to host functions: the caller's own state, beside
/// the limits that it cannot reach.
pub struct RuntimeStore<T> {
    host: T,
    limits: StoreLimits,
    fuel: u64,
    wall_ms: u64,
}

impl<T> RuntimeStore<T> {
    /// The caller's state.
    pub closed spec fn state(self) -> T {
        self.host
    }

    /// The fuel that the invocation may burn.
    pub closed spec fn fuel_limit(self) -> u64 {
        self.fuel
    }

    /// The wall time that the invocation may take, in milliseconds.
    pub closed spec fn wall_limit(self) -> u64 {
        self.wall_ms
    }

    /// The engine's limiter.
    pub closed spec fn limits(self) -> StoreLimits {
        self.limits
    }

    /// The store data of an invocation whose limits the operator's caps admit.
    /// Its limiter admits the requested memory, one instance with one memory,
    /// and no table.
    pub fn new(host: T, requested: Limits, operator_caps: Limits) -> (r: Result<
        RuntimeStore<T>,
        RuntimeError,
    >)
        ensures
            match r {
                Ok(store) => {
                    &&& requested.first_violation(operator_caps) is None
                    &&& store.state() == host
                    &&& store.fuel_limit() == requested.fuel
                    &&& store.wall_limit() == requested.wall_ms
                    &&& store.limits() == wasm::store_limits(
                        requested.memory_bytes as usize,
                        1,
                        1,
                        0,
                    )
                },
                Err(RuntimeError::Limits(ConfigError::InvalidLimit(name))) =>
                    requested.first_violation(operator_caps) == Some(name@),
                Err(_) => false,
            },
    {
        match requested.validate(operator_caps) {
            Ok(limits) => Ok(
                RuntimeStore {
                    host,
                    limits: build_limiter(limits.memory_bytes as usize, 1, 1, 0),
                    fuel: limits.fuel,
                    wall_ms: limits.wall_ms,
                },
            ),
            Err(error) => Err(RuntimeError::Limits(error)),
        }
    }

    pub fn host(&self) -> (r: &T)
        ensures
            *r == self.state(),
    {
        &self.host
    }

    pub fn host_mut(&mut self) -> (r: &mut T)
        ensures
            *r == old(self).state(),
            final(self).state() == *final(r),
            final(self).fuel_limit() == old(self).fuel_limit(),
            final(self).wall_limit() == old(self).wall_limit(),
            final(self).limits() == old(self).limits(),
    {
        &mut self.host
    }

    /// The engine's limiter.
    pub fn limits_mut(&mut self) -> (r: &mut StoreLimits)
        ensures
            *r == old(self).limits(),
            final(self).limits() == *final(r),
            final(self).state() == old(self).state(),
            final(self).fuel_limit() == old(self).fuel_limit(),
            final(self).wall_limit() == old(self).wall_limit(),
    {
        &mut self.limits
    }

    pub fn fuel(&self) -> (r: u64)
        ensures
            r == self.fuel_limit(),
    {
        self.fuel
    }

    pub fn wall_ms(&self) -> (r: u64)
        ensures
            r == self.wall_limit(),
    {
        self.wall_ms
    }
}

/// A compiled module whose bytes implement the interface. The module behind it
/// cannot be substituted: it was compiled from those bytes.
pub struct ValidatedModule {
    made: Compiled,
}

impl ValidatedModule {
    /// The bytes that were compiled.
    pub closed spec fn bytes(self) -> Seq<u8> {
        self.made.bytes()
    }

    /// The engine that compiled them.
    pub closed spec fn engine(self) -> Engine {
        self.made.compiler()
    }

    #[verifier::type_invariant]
    closed spec fn implements_the_interface(self) -> bool {
        validate::is_abi_module(self.made.bytes())
    }

    /// What the bytes were compiled to.
    pub closed spec fn compiled(self) -> Module {
        self.made.inner()
    }

    /// The compiled module; its bytes implement the interface.
    pub fn module(&self) -> (r: &Module)
        ensures
            *r == self.compiled(),
            validate::is_abi_module(self.bytes()),
    {
        proof {
            use_type_invariant(self);
        }
        self.made.module()
    }
}

/// An engine with the bounded settings.
pub struct BoundedEngine {
    made: ConfiguredEngine,
}

impl BoundedEngine {
    /// An engine that meters fuel, can be interrupted and has a bounded stack.
    /// Where the machine offers none, the engine's own error is handed on.
    pub fn new() -> (r: Result<BoundedEngine, RuntimeError>)
        ensures
            match r {
                Ok(bounded) => bounded.settings().is_bounded(),
                Err(error) => error is Wasmtime,
            },
    {
        match new_engine(Settings::bounded()) {
            Ok(made) => Ok(BoundedEngine { made }),
            Err(error) => Err(RuntimeError::Wasmtime(error)),
        }
    }

    /// The settings that the engine was made with.
    pub closed spec fn settings(self) -> Settings {
        self.made.made_with()
    }

    /// The engine itself.
    pub closed spec fn inner(self) -> Engine {
        self.made.inner()
    }

    pub fn engine(&self) -> (r: &Engine)
        ensures
            *r == self.inner(),
    {
        self.made.engine()
    }

    /// Validate again before compiling, even where the same bytes were
    /// validated at upload.
    pub fn compile(&self, bytes: &[u8]) -> (r: Result<ValidatedModule, RuntimeError>)
        ensures
            match r {
                Ok(module) => {
                    &&& validate::is_abi_module(bytes@)
                    &&& module.bytes() == bytes@
                    &&& module.engine() == self.inner()
                },
                Err(RuntimeError::InvalidModule(_)) => !validate::is_abi_module(bytes@),
                Err(RuntimeError::Wasmtime(_)) => validate::is_abi_module(bytes@),
                Err(_) => false,
            },
    {
        match validate::validate(bytes) {
            Ok(()) => match compile_module(self.made.engine(), bytes) {
                Ok(made) => Ok(ValidatedModule { made }),
                Err(error) => Err(RuntimeError::Wasmtime(error)),
            },
            Err(error) => Err(RuntimeError::InvalidModule(error)),
        }
    }
}

/// Bounded settings meter fuel, can be interrupted, extend the memory model in
/// nothing, and give a stack of 512 KiB.
pub proof fn bounded_settings_meter_and_interrupt(settings: Settings)
    ensures
        settings.is_bounded() <==> settings == (Settings {
            consume_fuel: true,
            epoch_interruption: true,
            memory64: false,
            multi_memory: false,
            relaxed_simd: false,
            stack_bytes: 524_288,
        }),
{
}

} // verus!
