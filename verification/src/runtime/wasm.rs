//! What the WebAssembly engine makes, each beside what it was made from. The
//! fields are private, and only the calls below make such a value.
use vstd::prelude::*;
use wasmtime::{Config, Engine, Module, StoreLimits, StoreLimitsBuilder};

use crate::runtime::engine::Settings;
use crate::runtime::validate;

verus! {

/// The error of the WebAssembly engine.
#[verifier::external_type_specification]
#[verifier::external_body]
pub struct ExEngineError(wasmtime::Error);

/// The WebAssembly engine.
#[verifier::external_type_specification]
#[verifier::external_body]
pub struct ExEngine(wasmtime::Engine);

/// A compiled module.
#[verifier::external_type_specification]
#[verifier::external_body]
pub struct ExModule(wasmtime::Module);

/// The resource limiter of a store.
#[verifier::external_type_specification]
#[verifier::external_body]
pub struct ExStoreLimits(wasmtime::StoreLimits);

/// An engine, beside the settings that it was made with.
pub struct ConfiguredEngine {
    engine: Engine,
    settings: Ghost<Settings>,
}

impl ConfiguredEngine {
    /// The engine itself.
    pub closed spec fn inner(self) -> Engine {
        self.engine
    }

    /// The settings that the engine was made with.
    pub closed spec fn made_with(self) -> Settings {
        self.settings@
    }

    pub(crate) fn engine(&self) -> (r: &Engine)
        ensures
            *r == self.inner(),
    {
        &self.engine
    }
}

/// Calls `wasmtime::Engine::new` on a `wasmtime::Config` with the given
/// settings. Claimed: the settings kept beside the engine are those that it was
/// made with. Whether there is an engine depends on the machine.
#[verifier::external_body]
pub(crate) fn new_engine(settings: Settings) -> (r: Result<ConfiguredEngine, wasmtime::Error>)
    requires
        settings.is_bounded(),
    ensures
        r matches Ok(made) ==> made.made_with() == settings,
{
    let mut config = Config::new();
    config
        .consume_fuel(settings.consume_fuel)
        .epoch_interruption(settings.epoch_interruption)
        .wasm_memory64(settings.memory64)
        .wasm_multi_memory(settings.multi_memory)
        .wasm_relaxed_simd(settings.relaxed_simd)
        .max_wasm_stack(settings.stack_bytes);
    Ok(ConfiguredEngine { engine: Engine::new(&config)?, settings: Ghost(settings) })
}

/// A compiled module, beside its bytes and the engine that compiled them.
pub struct Compiled {
    module: Module,
    source: Ghost<Seq<u8>>,
    engine: Ghost<Engine>,
}

impl Compiled {
    /// What the bytes were compiled to.
    pub closed spec fn inner(self) -> Module {
        self.module
    }

    /// The bytes that were compiled.
    pub closed spec fn bytes(self) -> Seq<u8> {
        self.source@
    }

    /// The engine that compiled them.
    pub closed spec fn compiler(self) -> Engine {
        self.engine@
    }

    pub(crate) fn module(&self) -> (r: &Module)
        ensures
            *r == self.inner(),
    {
        &self.module
    }
}

/// Calls `wasmtime::Module::new`, for bytes that implement the interface.
/// Claimed: the bytes and the engine kept beside the module are those that it
/// was made from. Whether there is a module depends on the machine.
#[verifier::external_body]
pub(crate) fn compile_module(engine: &Engine, bytes: &[u8]) -> (r: Result<
    Compiled,
    wasmtime::Error,
>)
    requires
        validate::is_abi_module(bytes@),
    ensures
        r matches Ok(made) ==> made.bytes() == bytes@ && made.compiler() == *engine,
{
    let module = Module::new(engine, bytes)?;
    Ok(Compiled { module, source: Ghost(bytes@), engine: Ghost(*engine) })
}

/// The limiter with the given caps.
pub uninterp spec fn store_limits(
    memory_bytes: usize,
    instances: usize,
    memories: usize,
    tables: usize,
) -> StoreLimits;

/// Calls `wasmtime::StoreLimitsBuilder` with the given caps. Claimed: the
/// limiter is a function of the caps.
#[verifier::external_body]
pub(crate) fn build_limiter(
    memory_bytes: usize,
    instances: usize,
    memories: usize,
    tables: usize,
) -> (r: StoreLimits)
    ensures
        r == store_limits(memory_bytes, instances, memories, tables),
{
    StoreLimitsBuilder::new()
        .memory_size(memory_bytes)
        .instances(instances)
        .memories(memories)
        .tables(tables)
        .build()
}

} // verus!
