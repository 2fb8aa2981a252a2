//! The bounded module format: core WebAssembly with five imports, one memory
//! and one entry point.
use std::ops::Range;
use vstd::prelude::*;
use vstd::slice::slice_subrange;
use wasmparser::CompositeInnerType::{Array, Cont, Func, Struct};
use wasmparser::Payload::{
    CodeSectionEntry, CodeSectionStart, DataCountSection, DataSection, End, Version,
};
use wasmparser::{
    BinaryReader, BinaryReaderError, Encoding, ExportSectionReader, ExternalKind,
    FunctionSectionReader, GlobalSectionReader, ImportSectionReader, MemorySectionReader, Parser,
    RecGroup, TypeRef, TypeSectionReader, Validator, WasmFeatures,
};

use crate::domain::limits::{MEMORY_BYTES, MODULE_BYTES};
use crate::names;
use crate::runtime::validate::Section::{
    Body, Code, ComponentHeader, Data, DataCount, Finish, ModuleHeader, Part,
};
use crate::text;

verus! {

/// The module that imports come from.
pub const IMPORT_MODULE: &'static str = "effectlatch_v1";

/// A module that does not implement the interface.
#[derive(Clone, Copy, Debug, PartialEq, Eq, Structural)]
pub struct InvalidModule;

impl InvalidModule {
    /// What the error says.
    pub fn to_text(&self) -> (r: String)
        ensures
            r@ == "module does not implement the EffectLatch ABI v1"@,
    {
        text::copy_text("module does not implement the EffectLatch ABI v1")
    }
}

/// The number of a custom section.
pub const CUSTOM: u8 = 0;

/// The number of the type section.
pub const TYPES: u8 = 1;

/// The number of the import section.
pub const IMPORTS: u8 = 2;

/// The number of the function section.
pub const FUNCTIONS: u8 = 3;

/// The number of the memory section.
pub const MEMORIES: u8 = 5;

/// The number of the global section.
pub const GLOBALS: u8 = 6;

/// The number of the export section.
pub const EXPORTS: u8 = 7;

/// One part of a module, in the order of the file.
#[derive(Debug)]
pub enum Section {
    ModuleHeader,
    ComponentHeader,
    /// The code section, with the number of bodies it announces.
    Code(u32),
    Body,
    /// The data section, with the number of its segments.
    Data(u32),
    DataCount(u32),
    /// The end of the module.
    Finish,
    /// Any other section: its number, and the range of its contents within the
    /// file. None for a part that is no section.
    Part(Option<(u8, Range<usize>)>),
}

/// A function type, each value type by its name.
#[derive(Debug)]
pub struct Signature {
    pub params: Vec<String>,
    pub results: Vec<String>,
}

/// What a function type says.
pub struct SignatureView {
    pub params: Seq<Seq<char>>,
    pub results: Seq<Seq<char>>,
}

impl View for Signature {
    type V = SignatureView;

    open spec fn view(&self) -> SignatureView {
        SignatureView { params: names::texts(self.params@), results: names::texts(self.results@) }
    }
}

/// A type of a type section.
#[derive(Debug)]
pub enum Defined {
    Function(Signature),
    Array,
    Struct,
    Continuation,
}

/// What a type says.
pub enum DefinedView {
    Function(SignatureView),
    Array,
    Struct,
    Continuation,
}

impl View for Defined {
    type V = DefinedView;

    open spec fn view(&self) -> DefinedView {
        match self {
            Defined::Function(signature) => DefinedView::Function(signature@),
            Defined::Array => DefinedView::Array,
            Defined::Struct => DefinedView::Struct,
            Defined::Continuation => DefinedView::Continuation,
        }
    }
}

/// What is imported: a function with its type index, or something else.
#[derive(Clone, Copy, Debug, PartialEq, Eq, Structural)]
pub enum Imported {
    Func(u32),
    Table,
    Memory,
    Global,
    Tag,
}

#[derive(Debug)]
pub struct Import {
    pub module: String,
    pub name: String,
    pub kind: Imported,
}

/// What an import says.
pub struct ImportView {
    pub module: Seq<char>,
    pub name: Seq<char>,
    pub kind: Imported,
}

impl View for Import {
    type V = ImportView;

    open spec fn view(&self) -> ImportView {
        ImportView { module: self.module@, name: self.name@, kind: self.kind }
    }
}

/// A memory, in pages.
#[derive(Clone, Copy, Debug)]
pub struct Memory {
    pub memory64: bool,
    pub shared: bool,
    pub page_size_log2: Option<u32>,
    pub initial: u64,
    pub maximum: Option<u64>,
}

/// What kind of thing is exported.
#[derive(Clone, Copy, Debug, PartialEq, Eq, Structural)]
pub enum Kind {
    Func,
    Table,
    Memory,
    Global,
    Tag,
}

#[derive(Debug)]
pub struct Export {
    pub name: String,
    pub kind: Kind,
    pub index: u32,
}

/// What an export says.
pub struct ExportView {
    pub name: Seq<char>,
    pub kind: Kind,
    pub index: u32,
}

impl View for Export {
    type V = ExportView;

    open spec fn view(&self) -> ExportView {
        ExportView { name: self.name@, kind: self.kind, index: self.index }
    }
}

/// The views of types.
pub open spec fn type_views(items: Seq<Defined>) -> Seq<DefinedView> {
    Seq::new(items.len(), |i: int| items[i]@)
}

/// The views of imports.
pub open spec fn import_views(items: Seq<Import>) -> Seq<ImportView> {
    Seq::new(items.len(), |i: int| items[i]@)
}

/// The views of exports.
pub open spec fn export_views(items: Seq<Export>) -> Seq<ExportView> {
    Seq::new(items.len(), |i: int| items[i]@)
}

/// Whether a byte string is a valid core WebAssembly 2.0 module.
pub uninterp spec fn wasm2_valid(bytes: Seq<u8>) -> bool;

/// The parts of a module; none where the bytes do not parse.
pub uninterp spec fn wasm_sections(bytes: Seq<u8>) -> Option<Seq<Section>>;

/// The types of a type section.
pub uninterp spec fn section_types(section: Seq<u8>) -> Option<Seq<DefinedView>>;

/// The imports of an import section.
pub uninterp spec fn section_imports(section: Seq<u8>) -> Option<Seq<ImportView>>;

/// The type indices of a function section.
pub uninterp spec fn section_functions(section: Seq<u8>) -> Option<Seq<u32>>;

/// The memories of a memory section.
pub uninterp spec fn section_memories(section: Seq<u8>) -> Option<Seq<Memory>>;

/// The names of the value types of a global section's globals.
pub uninterp spec fn section_globals(section: Seq<u8>) -> Option<Seq<Seq<char>>>;

/// The exports of an export section.
pub uninterp spec fn section_exports(section: Seq<u8>) -> Option<Seq<ExportView>>;

/// Calls `wasmparser::Validator::validate_all` with the WebAssembly 2.0
/// features. Claimed: the verdict is a function of the bytes.
#[verifier::external_body]
fn is_valid_wasm2(bytes: &[u8]) -> (r: bool)
    ensures
        r == wasm2_valid(bytes@),
{
    Validator::new_with_features(WasmFeatures::WASM2).validate_all(bytes).is_ok()
}

/// Calls `wasmparser::Parser::parse_all`, and of each payload that needs no
/// variant of its own `wasmparser::Payload::as_section`. Claimed: the parts are
/// a function of the bytes.
#[verifier::external_body]
fn read_sections(bytes: &[u8]) -> (r: Option<Vec<Section>>)
    ensures
        match r {
            Some(sections) => wasm_sections(bytes@) == Some(sections@),
            None => wasm_sections(bytes@) is None,
        },
{
    Parser::new(0).parse_all(bytes).map(|payload| Some(match payload.ok()? {
        Version { encoding: Encoding::Module, .. } => ModuleHeader,
        Version { encoding: Encoding::Component, .. } => ComponentHeader,
        CodeSectionStart { count, .. } => Code(count),
        CodeSectionEntry(_) => Body,
        DataSection(part) => Data(part.count()),
        DataCountSection { count, .. } => DataCount(count),
        End(_) => Finish,
        part => Part(part.as_section()),
    })).collect()
}

/// Calls `wasmparser::TypeSectionReader::new` and its iterator, and
/// `wasmparser::ValType`'s `Display`. Claimed: the types are a function of the
/// section's bytes.
#[verifier::external_body]
fn read_types(section: &[u8]) -> (r: Option<Vec<Defined>>)
    ensures
        match r {
            Some(items) => section_types(section@) == Some(type_views(items@)),
            None => section_types(section@) is None,
        },
{
    let groups = TypeSectionReader::new(BinaryReader::new(section, 0)).ok()?.into_iter();
    let groups = groups.collect::<Result<Vec<RecGroup>, BinaryReaderError>>().ok()?;
    Some(groups.into_iter().flat_map(|group| group.into_types()).map(|item| {
        match item.composite_type.inner {
            Func(function) => Defined::Function(Signature {
                params: function.params().iter().map(ToString::to_string).collect(),
                results: function.results().iter().map(ToString::to_string).collect(),
            }),
            Array(_) => Defined::Array,
            Struct(_) => Defined::Struct,
            Cont(_) => Defined::Continuation,
        }
    }).collect())
}

/// Calls `wasmparser::ImportSectionReader::new` and its iterator. Claimed: the
/// imports are a function of the section's bytes.
#[verifier::external_body]
fn read_imports(section: &[u8]) -> (r: Option<Vec<Import>>)
    ensures
        match r {
            Some(items) => section_imports(section@) == Some(import_views(items@)),
            None => section_imports(section@) is None,
        },
{
    let items = ImportSectionReader::new(BinaryReader::new(section, 0)).ok()?;
    items.into_iter().map(|item| {
        let item = item.ok()?;
        let kind = match item.ty {
            TypeRef::Func(index) => Imported::Func(index),
            TypeRef::Table(_) => Imported::Table,
            TypeRef::Memory(_) => Imported::Memory,
            TypeRef::Global(_) => Imported::Global,
            TypeRef::Tag(_) => Imported::Tag,
        };
        Some(Import { module: item.module.to_string(), name: item.name.to_string(), kind })
    }).collect()
}

/// Calls `wasmparser::FunctionSectionReader::new` and its iterator. Claimed:
/// the indices are a function of the section's bytes.
#[verifier::external_body]
fn read_functions(section: &[u8]) -> (r: Option<Vec<u32>>)
    ensures
        match r {
            Some(items) => section_functions(section@) == Some(items@),
            None => section_functions(section@) is None,
        },
{
    let items = FunctionSectionReader::new(BinaryReader::new(section, 0)).ok()?;
    items.into_iter().collect::<Result<Vec<u32>, BinaryReaderError>>().ok()
}

/// Calls `wasmparser::MemorySectionReader::new` and its iterator. Claimed: the
/// memories are a function of the section's bytes.
#[verifier::external_body]
fn read_memories(section: &[u8]) -> (r: Option<Vec<Memory>>)
    ensures
        match r {
            Some(items) => section_memories(section@) == Some(items@),
            None => section_memories(section@) is None,
        },
{
    let items = MemorySectionReader::new(BinaryReader::new(section, 0)).ok()?;
    items.into_iter().map(|item| item.ok().map(|memory| Memory {
        memory64: memory.memory64,
        shared: memory.shared,
        page_size_log2: memory.page_size_log2,
        initial: memory.initial,
        maximum: memory.maximum,
    })).collect()
}

/// Calls `wasmparser::GlobalSectionReader::new` and its iterator, and
/// `wasmparser::ValType`'s `Display`. Claimed: the names are a function of the
/// section's bytes.
#[verifier::external_body]
fn read_globals(section: &[u8]) -> (r: Option<Vec<String>>)
    ensures
        match r {
            Some(items) => section_globals(section@) == Some(names::texts(items@)),
            None => section_globals(section@) is None,
        },
{
    let items = GlobalSectionReader::new(BinaryReader::new(section, 0)).ok()?;
    items.into_iter().map(|item| Some(item.ok()?.ty.content_type.to_string())).collect()
}

/// Calls `wasmparser::ExportSectionReader::new` and its iterator. Claimed: the
/// exports are a function of the section's bytes.
#[verifier::external_body]
fn read_exports(section: &[u8]) -> (r: Option<Vec<Export>>)
    ensures
        match r {
            Some(items) => section_exports(section@) == Some(export_views(items@)),
            None => section_exports(section@) is None,
        },
{
    let items = ExportSectionReader::new(BinaryReader::new(section, 0)).ok()?;
    items.into_iter().map(|item| {
        let item = item.ok()?;
        let kind = match item.kind {
            ExternalKind::Func => Kind::Func,
            ExternalKind::Table => Kind::Table,
            ExternalKind::Memory => Kind::Memory,
            ExternalKind::Global => Kind::Global,
            ExternalKind::Tag => Kind::Tag,
        };
        Some(Export { name: item.name.to_string(), kind, index: item.index })
    }).collect()
}

/// All that the rules read of a module.
#[derive(Debug)]
pub struct Surface {
    pub types: Vec<Defined>,
    pub imports: Vec<Import>,
    pub functions: Vec<u32>,
    pub memories: Vec<Memory>,
    pub globals: Vec<String>,
    pub exports: Vec<Export>,
    /// The numbers of bodies that code sections announce.
    pub code_counts: Vec<u32>,
    /// The numbers of segments that data sections hold or announce.
    pub data_counts: Vec<u32>,
    /// How many function bodies there are.
    pub bodies: usize,
}

/// What the rules read of a module.
#[verifier::ext_equal]
pub struct SurfaceView {
    pub types: Seq<DefinedView>,
    pub imports: Seq<ImportView>,
    pub functions: Seq<u32>,
    pub memories: Seq<Memory>,
    pub globals: Seq<Seq<char>>,
    pub exports: Seq<ExportView>,
    pub code_counts: Seq<u32>,
    pub data_counts: Seq<u32>,
    pub bodies: nat,
}

impl View for Surface {
    type V = SurfaceView;

    open spec fn view(&self) -> SurfaceView {
        SurfaceView {
            types: type_views(self.types@),
            imports: import_views(self.imports@),
            functions: self.functions@,
            memories: self.memories@,
            globals: names::texts(self.globals@),
            exports: export_views(self.exports@),
            code_counts: self.code_counts@,
            data_counts: self.data_counts@,
            bodies: self.bodies as nat,
        }
    }
}

/// So many value types, each `i32`.
pub open spec fn i32s(count: nat) -> Seq<Seq<char>> {
    Seq::new(count, |i: int| "i32"@)
}

/// How many parameters the host function of a name takes; none for another name.
pub open spec fn arity(name: Seq<char>) -> Option<nat> {
    if name == "input_len"@ {
        Some(0)
    } else if name == "input_read"@ || name == "output_write"@ || name == "log"@ {
        Some(2)
    } else if name == "effect_call"@ {
        Some(4)
    } else {
        None
    }
}

impl Memory {
    /// An ordinary 32-bit memory that starts and stays within 1024 pages.
    pub open spec fn is_bounded(self) -> bool {
        &&& !self.memory64
        &&& !self.shared
        &&& self.page_size_log2 is None
        &&& self.initial <= 1024
        &&& self.maximum matches Some(pages) && pages <= 1024
    }

    fn bounded(&self) -> (r: bool)
        ensures
            r == self.is_bounded(),
    {
        let maximum_ok = match self.maximum {
            Some(pages) => pages <= 1024,
            None => false,
        };
        let default_pages = match self.page_size_log2 {
            Some(_) => false,
            None => true,
        };
        !self.memory64 && !self.shared && default_pages && self.initial <= 1024 && maximum_ok
    }
}

impl SurfaceView {
    pub open spec fn empty() -> SurfaceView {
        SurfaceView {
            types: seq![],
            imports: seq![],
            functions: seq![],
            memories: seq![],
            globals: seq![],
            exports: seq![],
            code_counts: seq![],
            data_counts: seq![],
            bodies: 0,
        }
    }

    /// The type at an index takes and returns so many `i32` and nothing else.
    pub open spec fn has_signature(self, index: u32, params: nat, results: nat) -> bool {
        &&& index < self.types.len()
        &&& self.types[index as int] matches DefinedView::Function(signature) && signature.params
            == i32s(params) && signature.results == i32s(results)
    }

    /// The import is a host function under its own signature.
    pub open spec fn imports_host_function(self, import: ImportView) -> bool {
        &&& import.module == IMPORT_MODULE@
        &&& arity(import.name) is Some
        &&& import.kind matches Imported::Func(index) && self.has_signature(
            index,
            arity(import.name)->0,
            1,
        )
    }

    /// The module is within the format's bounds, but for what it imports and exports.
    pub open spec fn is_bounded(self) -> bool {
        &&& self.types.len() <= 1024
        &&& forall|i: int| 0 <= i < self.types.len() ==> self.types[i] is Function
        &&& self.functions.len() <= 1024
        &&& self.memories.len() == 1
        &&& self.memories[0].is_bounded()
        &&& self.globals.len() <= 32
        &&& forall|i: int|
            0 <= i < self.globals.len() ==> self.globals[i] == "i32"@ || self.globals[i] == "i64"@
        &&& forall|i: int| 0 <= i < self.code_counts.len() ==> self.code_counts[i] <= 1024
        &&& self.bodies <= 1024
        &&& forall|i: int| 0 <= i < self.data_counts.len() ==> self.data_counts[i] <= 256
    }

    /// The module imports each of the five host functions once, and nothing else.
    pub open spec fn imports_the_host(self) -> bool {
        &&& self.imports.len() == 5
        &&& forall|i: int|
            0 <= i < self.imports.len() ==> self.imports_host_function(#[trigger] self.imports[i])
        &&& forall|i: int, j: int|
            0 <= i < j < self.imports.len() ==> self.imports[i].name != self.imports[j].name
    }

    /// The export is the entry point: a local function from nothing to `i32`.
    pub open spec fn is_entry(self, export: ExportView) -> bool {
        &&& export.name == "run"@
        &&& export.kind == Kind::Func
        &&& self.imports.len() <= export.index < self.imports.len() + self.functions.len()
        &&& self.has_signature(self.functions[export.index - self.imports.len()], 0, 1)
    }

    /// The export is the memory.
    pub open spec fn is_memory(self, export: ExportView) -> bool {
        &&& export.name == "memory"@
        &&& export.kind == Kind::Memory
        &&& export.index == 0
    }

    /// The module implements the interface.
    pub open spec fn conforms(self) -> bool {
        &&& self.is_bounded()
        &&& self.imports_the_host()
        &&& self.exports.len() == 2
        &&& (self.is_entry(self.exports[0]) && self.is_memory(self.exports[1])) || (self.is_memory(
            self.exports[0],
        ) && self.is_entry(self.exports[1]))
    }

    /// The surface with one more section, by its number: a custom section says
    /// nothing, and sections of no other number than these are admitted. None
    /// where the section is not admitted or does not parse.
    pub open spec fn with_section(self, bytes: Seq<u8>, number: u8, range: Range<usize>) -> Option<
        SurfaceView,
    > {
        if number == CUSTOM {
            Some(self)
        } else if number == TYPES {
            match section_types(contents(bytes, range)) {
                Some(items) if within(bytes, range) => Some(
                    SurfaceView { types: self.types + items, ..self },
                ),
                _ => None,
            }
        } else if number == IMPORTS {
            match section_imports(contents(bytes, range)) {
                Some(items) if within(bytes, range) => Some(
                    SurfaceView { imports: self.imports + items, ..self },
                ),
                _ => None,
            }
        } else if number == FUNCTIONS {
            match section_functions(contents(bytes, range)) {
                Some(items) if within(bytes, range) => Some(
                    SurfaceView { functions: self.functions + items, ..self },
                ),
                _ => None,
            }
        } else if number == MEMORIES {
            match section_memories(contents(bytes, range)) {
                Some(items) if within(bytes, range) => Some(
                    SurfaceView { memories: self.memories + items, ..self },
                ),
                _ => None,
            }
        } else if number == GLOBALS {
            match section_globals(contents(bytes, range)) {
                Some(items) if within(bytes, range) => Some(
                    SurfaceView { globals: self.globals + items, ..self },
                ),
                _ => None,
            }
        } else if number == EXPORTS {
            match section_exports(contents(bytes, range)) {
                Some(items) if within(bytes, range) => Some(
                    SurfaceView { exports: self.exports + items, ..self },
                ),
                _ => None,
            }
        } else {
            None
        }
    }

    /// The surface with one more part of the module; none where the part is
    /// not admitted or does not parse.
    pub open spec fn extended(self, bytes: Seq<u8>, section: Section) -> Option<SurfaceView> {
        match section {
            Section::ModuleHeader | Section::Finish => Some(self),
            Section::ComponentHeader => None,
            Section::Code(count) => Some(
                SurfaceView { code_counts: self.code_counts.push(count), ..self },
            ),
            Section::Body => Some(SurfaceView { bodies: self.bodies + 1, ..self }),
            Section::Data(count) | Section::DataCount(count) => Some(
                SurfaceView { data_counts: self.data_counts.push(count), ..self },
            ),
            Section::Part(Some((number, range))) => self.with_section(bytes, number, range),
            Section::Part(None) => None,
        }
    }
}

/// The range lies within the bytes.
pub open spec fn within(bytes: Seq<u8>, range: Range<usize>) -> bool {
    range.start <= range.end <= bytes.len()
}

/// The bytes of a range.
pub open spec fn contents(bytes: Seq<u8>, range: Range<usize>) -> Seq<u8> {
    bytes.subrange(range.start as int, range.end as int)
}

/// What the rules read of a module with the given parts; none where a part is
/// not admitted or does not parse.
pub open spec fn surface_of(bytes: Seq<u8>, sections: Seq<Section>) -> Option<SurfaceView>
    decreases sections.len(),
{
    if sections.len() == 0 {
        Some(SurfaceView::empty())
    } else {
        match surface_of(bytes, sections.drop_last()) {
            Some(surface) => surface.extended(bytes, sections.last()),
            None => None,
        }
    }
}

/// A module within the size limit that is valid core WebAssembly and
/// implements the interface.
pub open spec fn is_abi_module(bytes: Seq<u8>) -> bool {
    &&& 0 < bytes.len() <= MODULE_BYTES
    &&& wasm2_valid(bytes)
    &&& wasm_sections(bytes) matches Some(sections) && surface_of(bytes, sections) matches Some(
        surface,
    ) && surface.conforms()
}

/// Whether a list of value types is so many `i32`.
fn all_i32(kinds: &Vec<String>, count: usize) -> (r: bool)
    ensures
        r == (names::texts(kinds@) == i32s(count as nat)),
{
    if kinds.len() != count {
        assert(names::texts(kinds@).len() != i32s(count as nat).len());
        return false;
    }
    let mut i: usize = 0;
    while i < kinds.len()
        invariant
            i <= kinds.len(),
            kinds.len() == count,
            forall|k: int| 0 <= k < i ==> kinds@[k]@ == "i32"@,
        decreases kinds.len() - i,
    {
        if !text::text_equal(kinds[i].as_str(), "i32") {
            assert(names::texts(kinds@)[i as int] != i32s(count as nat)[i as int]);
            return false;
        }
        i = i + 1;
    }
    assert(names::texts(kinds@) =~= i32s(count as nat));
    true
}

/// How many parameters the host function of a name takes; none for another name.
fn expected(name: &str) -> (r: Option<usize>)
    ensures
        match r {
            Some(count) => arity(name@) == Some(count as nat),
            None => arity(name@) is None,
        },
{
    if text::text_equal(name, "input_len") {
        Some(0)
    } else if text::text_equal(name, "input_read") || text::text_equal(name, "output_write")
        || text::text_equal(name, "log") {
        Some(2)
    } else if text::text_equal(name, "effect_call") {
        Some(4)
    } else {
        None
    }
}

impl Surface {
    fn new() -> (r: Surface)
        ensures
            r@ == SurfaceView::empty(),
    {
        let r = Surface {
            types: Vec::new(),
            imports: Vec::new(),
            functions: Vec::new(),
            memories: Vec::new(),
            globals: Vec::new(),
            exports: Vec::new(),
            code_counts: Vec::new(),
            data_counts: Vec::new(),
            bodies: 0,
        };
        assert(r@ =~= SurfaceView::empty());
        r
    }

    /// Take in one more section; `false` where it is not admitted.
    fn extend_section(&mut self, bytes: &[u8], number: u8, range: &Range<usize>) -> (r: bool)
        ensures
            r == (old(self)@.with_section(bytes@, number, *range) is Some),
            r ==> Some(final(self)@) == old(self)@.with_section(bytes@, number, *range),
            final(self).bodies == old(self).bodies,
    {
        if number == CUSTOM {
            return true;
        }
        if range.start > range.end || range.end > bytes.len() {
            return false;
        }
        let ghost before = self@;
        let section = slice_subrange(bytes, range.start, range.end);
        if number == TYPES {
            match read_types(section) {
                Some(mut items) => {
                    let ghost read = items@;
                    self.types.append(&mut items);
                    assert(self@.types =~= before.types + type_views(read));
                    true
                },
                None => false,
            }
        } else if number == IMPORTS {
            match read_imports(section) {
                Some(mut items) => {
                    let ghost read = items@;
                    self.imports.append(&mut items);
                    assert(self@.imports =~= before.imports + import_views(read));
                    true
                },
                None => false,
            }
        } else if number == FUNCTIONS {
            match read_functions(section) {
                Some(mut items) => {
                    self.functions.append(&mut items);
                    true
                },
                None => false,
            }
        } else if number == MEMORIES {
            match read_memories(section) {
                Some(mut items) => {
                    self.memories.append(&mut items);
                    true
                },
                None => false,
            }
        } else if number == GLOBALS {
            match read_globals(section) {
                Some(mut items) => {
                    let ghost read = items@;
                    self.globals.append(&mut items);
                    assert(self@.globals =~= before.globals + names::texts(read));
                    true
                },
                None => false,
            }
        } else if number == EXPORTS {
            match read_exports(section) {
                Some(mut items) => {
                    let ghost read = items@;
                    self.exports.append(&mut items);
                    assert(self@.exports =~= before.exports + export_views(read));
                    true
                },
                None => false,
            }
        } else {
            false
        }
    }

    /// Take in one more part of the module; `false` where it is not admitted.
    fn extend(&mut self, bytes: &[u8], section: &Section) -> (r: bool)
        requires
            old(self).bodies < usize::MAX,
        ensures
            r == (old(self)@.extended(bytes@, *section) is Some),
            r ==> Some(final(self)@) == old(self)@.extended(bytes@, *section),
            r ==> final(self).bodies <= old(self).bodies + 1,
    {
        match section {
            Section::ModuleHeader | Section::Finish => true,
            Section::ComponentHeader => false,
            Section::Code(count) => {
                self.code_counts.push(*count);
                true
            },
            Section::Body => {
                self.bodies = self.bodies + 1;
                true
            },
            Section::Data(count) | Section::DataCount(count) => {
                self.data_counts.push(*count);
                true
            },
            Section::Part(Some((number, range))) => self.extend_section(bytes, *number, range),
            Section::Part(None) => false,
        }
    }

    /// What the rules read of a module with the given parts.
    pub fn gather(bytes: &[u8], sections: &[Section]) -> (r: Option<Surface>)
        ensures
            match r {
                Some(surface) => surface_of(bytes@, sections@) == Some(surface@),
                None => surface_of(bytes@, sections@) is None,
            },
    {
        let mut surface = Surface::new();
        let mut i: usize = 0;
        assert(sections@.take(0) =~= Seq::<Section>::empty());
        while i < sections.len()
            invariant
                i <= sections.len(),
                surface.bodies <= i,
                surface_of(bytes@, sections@.take(i as int)) == Some(surface@),
            decreases sections.len() - i,
        {
            assert(sections@.take(i + 1).drop_last() =~= sections@.take(i as int));
            if !surface.extend(bytes, &sections[i]) {
                proof {
                    rejected_part_rejects_module(bytes@, sections@, i + 1);
                }
                return None;
            }
            i = i + 1;
        }
        assert(sections@.take(i as int) =~= sections@);
        Some(surface)
    }

    /// Whether the type at an index takes and returns so many `i32` and nothing else.
    fn signature(&self, index: u32, params: usize, results: usize) -> (r: bool)
        ensures
            r == self@.has_signature(index, params as nat, results as nat),
    {
        if index as usize >= self.types.len() {
            return false;
        }
        assert(self@.types[index as int] == self.types@[index as int]@);
        match &self.types[index as usize] {
            Defined::Function(signature) => all_i32(&signature.params, params) && all_i32(
                &signature.results,
                results,
            ),
            _ => false,
        }
    }

    /// Whether the import at a position is a host function under its own signature.
    fn host_function(&self, at: usize) -> (r: bool)
        requires
            at < self.imports@.len(),
        ensures
            r == self@.imports_host_function(self@.imports[at as int]),
    {
        let import = &self.imports[at];
        assert(self@.imports[at as int] == import@);
        match (expected(import.name.as_str()), import.kind) {
            (Some(params), Imported::Func(index)) => text::text_equal(import.module.as_str(), IMPORT_MODULE)
                && self.signature(index, params, 1),
            _ => false,
        }
    }

    fn bounded(&self) -> (r: bool)
        ensures
            r == self@.is_bounded(),
    {
        if self.types.len() > 1024 || self.functions.len() > 1024 || self.memories.len() != 1
            || self.globals.len() > 32 || self.bodies > 1024 {
            return false;
        }
        if !self.memories[0].bounded() {
            return false;
        }
        let mut i: usize = 0;
        while i < self.types.len()
            invariant
                i <= self.types.len(),
                forall|k: int| 0 <= k < i ==> self@.types[k] is Function,
            decreases self.types.len() - i,
        {
            assert(self@.types[i as int] == self.types@[i as int]@);
            match &self.types[i] {
                Defined::Function(_) => {},
                _ => return false,
            }
            i = i + 1;
        }
        let mut i: usize = 0;
        while i < self.globals.len()
            invariant
                i <= self.globals.len(),
                forall|k: int|
                    0 <= k < i ==> self@.globals[k] == "i32"@ || self@.globals[k] == "i64"@,
            decreases self.globals.len() - i,
        {
            let name = self.globals[i].as_str();
            assert(self@.globals[i as int] == name@);
            if !text::text_equal(name, "i32") && !text::text_equal(name, "i64") {
                return false;
            }
            i = i + 1;
        }
        let mut i: usize = 0;
        while i < self.code_counts.len()
            invariant
                i <= self.code_counts.len(),
                forall|k: int| 0 <= k < i ==> self@.code_counts[k] <= 1024,
            decreases self.code_counts.len() - i,
        {
            if self.code_counts[i] > 1024 {
                assert(self@.code_counts[i as int] > 1024);
                return false;
            }
            i = i + 1;
        }
        let mut i: usize = 0;
        while i < self.data_counts.len()
            invariant
                i <= self.data_counts.len(),
                forall|k: int| 0 <= k < i ==> self@.data_counts[k] <= 256,
            decreases self.data_counts.len() - i,
        {
            if self.data_counts[i] > 256 {
                assert(self@.data_counts[i as int] > 256);
                return false;
            }
            i = i + 1;
        }
        true
    }

    /// Whether each of the five host functions is imported once, and nothing else.
    fn host_imported(&self) -> (r: bool)
        ensures
            r == self@.imports_the_host(),
    {
        if self.imports.len() != 5 {
            return false;
        }
        let mut i: usize = 0;
        while i < 5
            invariant
                i <= 5,
                self.imports.len() == 5,
                forall|k: int|
                    0 <= k < i ==> self@.imports_host_function(#[trigger] self@.imports[k]),
                forall|j: int, k: int|
                    0 <= j < k < i ==> self@.imports[j].name != self@.imports[k].name,
            decreases 5 - i,
        {
            if !self.host_function(i) {
                assert(!self@.imports_host_function(self@.imports[i as int]));
                return false;
            }
            let mut j: usize = 0;
            while j < i
                invariant
                    j <= i < 5,
                    self.imports.len() == 5,
                    forall|k: int| 0 <= k < j ==> self@.imports[k].name != self@.imports[i as int].name,
                decreases i - j,
            {
                if text::text_equal(self.imports[j].name.as_str(), self.imports[i].name.as_str()) {
                    assert(self@.imports[j as int].name == self@.imports[i as int].name);
                    return false;
                }
                j = j + 1;
            }
            i = i + 1;
        }
        true
    }

    /// Whether the export at a position is the entry point.
    fn entry(&self, at: usize) -> (r: bool)
        requires
            at < self.exports@.len(),
            self.imports@.len() == 5,
        ensures
            r == self@.is_entry(self@.exports[at as int]),
    {
        let export = &self.exports[at];
        assert(self@.exports[at as int] == export@);
        if !text::text_equal(export.name.as_str(), "run") || export.kind != Kind::Func
            || export.index < 5 {
            return false;
        }
        let local: u32 = export.index - 5;
        if local as usize >= self.functions.len() {
            return false;
        }
        self.signature(self.functions[local as usize], 0, 1)
    }

    /// Whether the export at a position is the memory.
    fn memory(&self, at: usize) -> (r: bool)
        requires
            at < self.exports@.len(),
        ensures
            r == self@.is_memory(self@.exports[at as int]),
    {
        let export = &self.exports[at];
        assert(self@.exports[at as int] == export@);
        text::text_equal(export.name.as_str(), "memory") && export.kind == Kind::Memory
            && export.index == 0
    }

    /// The verdict on what was read of a module.
    pub fn judge(&self) -> (r: Result<(), InvalidModule>)
        ensures
            r is Ok <==> self@.conforms(),
    {
        if !self.bounded() || !self.host_imported() || self.exports.len() != 2 {
            return Err(InvalidModule);
        }
        if (self.entry(0) && self.memory(1)) || (self.memory(0) && self.entry(1)) {
            Ok(())
        } else {
            Err(InvalidModule)
        }
    }
}

/// Once a part is not admitted, the module is not, whatever follows.
proof fn rejected_part_rejects_module(bytes: Seq<u8>, sections: Seq<Section>, n: int)
    requires
        0 <= n <= sections.len(),
        surface_of(bytes, sections.take(n)) is None,
    ensures
        surface_of(bytes, sections) is None,
    decreases sections.len() - n,
{
    if n < sections.len() {
        assert(sections.take(n + 1).drop_last() =~= sections.take(n));
        rejected_part_rejects_module(bytes, sections, n + 1);
    } else {
        assert(sections.take(n) =~= sections);
    }
}

/// Accept a module exactly where it is valid core WebAssembly within the size
/// limit that implements the interface.
pub fn validate(bytes: &[u8]) -> (r: Result<(), InvalidModule>)
    ensures
        r is Ok <==> is_abi_module(bytes@),
{
    if bytes.len() == 0 || bytes.len() > MODULE_BYTES {
        return Err(InvalidModule);
    }
    if !is_valid_wasm2(bytes) {
        return Err(InvalidModule);
    }
    let sections = match read_sections(bytes) {
        Some(sections) => sections,
        None => return Err(InvalidModule),
    };
    match Surface::gather(bytes, sections.as_slice()) {
        Some(surface) => surface.judge(),
        None => Err(InvalidModule),
    }
}

/// The memory of an accepted module can never grow past the runtime's cap.
pub proof fn accepted_memory_stays_within_the_cap(surface: SurfaceView)
    requires
        surface.conforms(),
    ensures
        surface.memories.len() == 1,
        surface.memories[0].initial * 65536 <= MEMORY_BYTES,
        surface.memories[0].maximum matches Some(pages) && pages * 65536 <= MEMORY_BYTES,
{
}

/// An accepted module is no component, and has no section but those of types,
/// imports, functions, memories, globals, exports, code and data, and custom
/// ones: no table, no element, no start function and no tag.
pub proof fn accepted_module_has_no_other_section(
    bytes: Seq<u8>,
    sections: Seq<Section>,
    i: int,
)
    requires
        is_abi_module(bytes),
        wasm_sections(bytes) == Some(sections),
        0 <= i < sections.len(),
    ensures
        sections[i] !is ComponentHeader,
        sections[i] matches Section::Part(part) ==> {
            &&& part matches Some((number, _)) && (number == CUSTOM || number == TYPES || number
                == IMPORTS || number == FUNCTIONS || number == MEMORIES || number == GLOBALS
                || number == EXPORTS)
        },
{
    assert(sections.take(i + 1).drop_last() =~= sections.take(i));
    if surface_of(bytes, sections.take(i + 1)) is None {
        rejected_part_rejects_module(bytes, sections, i + 1);
    }
}

/// An accepted module imports every host function.
pub proof fn accepted_module_imports_every_host_function(surface: SurfaceView, name: Seq<char>)
    requires
        surface.conforms(),
        arity(name) is Some,
    ensures
        exists|i: int| 0 <= i < 5 && #[trigger] surface.imports[i].name == name,
{
    let names = Seq::new(5, |i: int| surface.imports[i].name);
    let host = seq!["input_len"@, "input_read"@, "output_write"@, "log"@, "effect_call"@];
    assert forall|i: int| 0 <= i < 5 implies host.contains(#[trigger] names[i]) by {
        assert(surface.imports_host_function(surface.imports[i]));
        assert(host[0] == "input_len"@ && host[1] == "input_read"@ && host[2] == "output_write"@
            && host[3] == "log"@ && host[4] == "effect_call"@);
    }
    if !names.contains(name) {
        let rest = host.to_set().remove(name);
        assert(host.contains(name)) by {
            assert(host[0] == "input_len"@ && host[1] == "input_read"@ && host[2]
                == "output_write"@ && host[3] == "log"@ && host[4] == "effect_call"@);
        }
        host.lemma_cardinality_of_set();
        assert(names.no_duplicates());
        names.unique_seq_to_set();
        assert forall|other: Seq<char>| names.to_set().contains(other) implies rest.contains(
            other,
        ) by {
            assert(names.contains(other));
        }
        vstd::set_lib::lemma_len_subset(names.to_set(), rest);
        assert(false);
    }
    let i = choose|i: int| 0 <= i < names.len() && names[i] == name;
    assert(surface.imports[i].name == name);
}

/// An unshared 32-bit memory with pages of the usual size is within bounds where
/// it starts with up to 1024 pages and declares a maximum of any number of pages
/// up to 1024; and no other is.
pub proof fn memories_up_to_1024_pages_are_within_bounds(memory: Memory)
    ensures
        memory.is_bounded() <==> {
            &&& !memory.memory64 && !memory.shared
            &&& memory.page_size_log2 is None
            &&& memory.initial < 1025
            &&& memory.maximum is Some && memory.maximum->0 < 1025
        },
{
}

/// A module that conforms still does when its memory starts smaller and may grow
/// less.
pub proof fn less_memory_keeps_a_module_conforming(
    surface: SurfaceView,
    initial: u64,
    maximum: u64,
)
    requires
        surface.conforms(),
        initial <= surface.memories[0].initial,
        maximum <= surface.memories[0].maximum->0,
    ensures
        (SurfaceView {
            memories: seq![
                Memory { initial, maximum: Some(maximum), ..surface.memories[0] },
            ],
            ..surface
        }).conforms(),
{
    let smaller = SurfaceView {
        memories: seq![Memory { initial, maximum: Some(maximum), ..surface.memories[0] }],
        ..surface
    };
    assert(smaller.imports_the_host()) by {
        assert forall|i: int| 0 <= i < smaller.imports.len() implies smaller.imports_host_function(
            #[trigger] smaller.imports[i],
        ) by {
            assert(surface.imports_host_function(surface.imports[i]));
        }
    }
}

/// A module that conforms has 1 to 1024 types of functions alone, up to 1024
/// functions and bodies, one memory, up to 32 globals of integers, and up to 256
/// segments of data; a module within all of these is within bounds.
pub proof fn modules_are_within_bounds(surface: SurfaceView)
    ensures
        surface.is_bounded() <==> {
            &&& surface.types.len() < 1025
            &&& forall|i: int| 0 <= i < surface.types.len() ==> #[trigger] surface.types[i] is Function
            &&& surface.functions.len() < 1025 && surface.bodies < 1025
            &&& surface.memories.len() == 1 && surface.memories[0].is_bounded()
            &&& surface.globals.len() < 33
            &&& forall|i: int|
                0 <= i < surface.globals.len() ==> (#[trigger] surface.globals[i] == "i32"@
                    || surface.globals[i] == "i64"@)
            &&& forall|i: int|
                0 <= i < surface.code_counts.len() ==> #[trigger] surface.code_counts[i] < 1025
            &&& forall|i: int|
                0 <= i < surface.data_counts.len() ==> #[trigger] surface.data_counts[i] < 257
        },
{
}

/// A signature of so many parameters and results is a function's, and each of
/// them is a 32-bit integer.
pub proof fn signatures_are_of_small_integers(
    surface: SurfaceView,
    index: u32,
    params: nat,
    results: nat,
    k: int,
)
    requires
        surface.has_signature(index, params, results),
    ensures
        index < surface.types.len(),
        surface.types[index as int] is Function,
        ({
            let signature = surface.types[index as int]->Function_0;
            &&& signature.params.len() == params && signature.results.len() == results
            &&& 0 <= k < params ==> signature.params[k] == "i32"@
            &&& 0 <= k < results ==> signature.results[k] == "i32"@
        }),
{
}

/// A function type of integers alone has the signature of their numbers.
pub proof fn functions_of_small_integers_have_a_signature(surface: SurfaceView, index: u32)
    requires
        index < surface.types.len(),
        surface.types[index as int] is Function,
        forall|k: int|
            0 <= k < surface.types[index as int]->Function_0.params.len()
                ==> #[trigger] surface.types[index as int]->Function_0.params[k] == "i32"@,
        forall|k: int|
            0 <= k < surface.types[index as int]->Function_0.results.len()
                ==> #[trigger] surface.types[index as int]->Function_0.results[k] == "i32"@,
    ensures
        surface.has_signature(
            index,
            surface.types[index as int]->Function_0.params.len(),
            surface.types[index as int]->Function_0.results.len(),
        ),
{
    let signature = surface.types[index as int]->Function_0;
    assert(signature.params =~= i32s(signature.params.len()));
    assert(signature.results =~= i32s(signature.results.len()));
}

/// The host offers five functions: the length of the input takes nothing, reading
/// the input, writing the output and logging take a place and a length, and an
/// effect takes two of each.
pub proof fn the_host_offers_five_functions(name: Seq<char>)
    ensures
        arity("input_len"@) == Some(0nat),
        arity("input_read"@) == Some(2nat),
        arity("output_write"@) == Some(2nat),
        arity("log"@) == Some(2nat),
        arity("effect_call"@) == Some(4nat),
        arity(name) is Some ==> name == "input_len"@ || name == "input_read"@ || name
            == "output_write"@ || name == "log"@ || name == "effect_call"@,
{
    reveal_strlit("input_len");
    reveal_strlit("input_read");
    reveal_strlit("output_write");
    reveal_strlit("log");
    reveal_strlit("effect_call");
    assert("input_len"@.len() == 9 && "input_read"@.len() == 10 && "output_write"@.len() == 12
        && "log"@.len() == 3 && "effect_call"@.len() == 11);
}

/// An import is a host function exactly where it comes from the host's module, has
/// the name of one of its functions, and is a function with that one's
/// parameters and one result.
pub proof fn imports_are_host_functions(surface: SurfaceView, import: ImportView)
    ensures
        surface.imports_host_function(import) <==> {
            &&& import.module == "effectlatch_v1"@
            &&& arity(import.name) is Some
            &&& import.kind is Func
            &&& surface.has_signature(import.kind->Func_0, arity(import.name)->0, 1)
        },
{
}

/// A module imports the host exactly where it has five imports, all of them host
/// functions and none twice; in which order does not matter.
pub proof fn five_different_host_functions_are_the_host(surface: SurfaceView)
    ensures
        surface.imports_the_host() <==> {
            &&& surface.imports.len() == 5
            &&& forall|i: int|
                0 <= i < 5 ==> surface.imports_host_function(#[trigger] surface.imports[i])
            &&& forall|i: int, j: int|
                0 <= i < 5 && 0 <= j < 5 && i != j ==> (#[trigger] surface.imports[i]).name != (
                #[trigger] surface.imports[j]).name
        },
{
    if surface.imports_the_host() {
        assert forall|i: int, j: int| 0 <= i < 5 && 0 <= j < 5 && i != j implies (
        #[trigger] surface.imports[i]).name != (#[trigger] surface.imports[j]).name by {
            if i < j {
                assert(surface.imports[i].name != surface.imports[j].name);
            } else {
                assert(surface.imports[j].name != surface.imports[i].name);
            }
        }
    }
}

/// The entry point is a function of the module's own, under its name, that takes
/// nothing and gives a 32-bit integer; the memory is the first, under its name.
pub proof fn entry_and_memory_are_exported_by_name(surface: SurfaceView, export: ExportView)
    ensures
        surface.is_entry(export) ==> {
            &&& export.name == "run"@
            &&& export.kind is Func
            &&& export.index >= surface.imports.len()
            &&& export.index - surface.imports.len() < surface.functions.len()
            &&& surface.has_signature(
                surface.functions[export.index - surface.imports.len()],
                0,
                1,
            )
        },
        export.name == "run"@ && export.kind is Func && surface.imports.len() <= export.index
            < surface.imports.len() + surface.functions.len() && surface.has_signature(
            surface.functions[export.index - surface.imports.len()],
            0,
            1,
        ) ==> surface.is_entry(export),
        surface.is_memory(export) <==> export.name == "memory"@ && export.kind is Memory
            && export.index == 0,
{
}

/// A module that conforms exports its entry point and its memory, in either order,
/// and nothing else.
pub proof fn two_exports_in_either_order_conform(surface: SurfaceView)
    ensures
        surface.conforms() ==> {
            &&& surface.is_bounded() && surface.imports_the_host()
            &&& surface.exports.len() == 2
            &&& surface.is_entry(surface.exports[0]) || surface.is_entry(surface.exports[1])
            &&& surface.is_memory(surface.exports[0]) || surface.is_memory(surface.exports[1])
        },
        surface.is_bounded() && surface.imports_the_host() && surface.exports.len() == 2
            && surface.is_entry(surface.exports[0]) && surface.is_memory(surface.exports[1]) ==> {
            &&& surface.conforms()
            &&& (SurfaceView {
                exports: seq![surface.exports[1], surface.exports[0]],
                ..surface
            }).conforms()
        },
{
    if surface.is_bounded() && surface.imports_the_host() && surface.exports.len() == 2 {
        let swapped = SurfaceView {
            exports: seq![surface.exports[1], surface.exports[0]],
            ..surface
        };
        assert(swapped.imports_the_host()) by {
            assert forall|i: int|
                0 <= i < swapped.imports.len() implies swapped.imports_host_function(
                #[trigger] swapped.imports[i],
            ) by {
                assert(surface.imports_host_function(surface.imports[i]));
            }
        }
    }
}

/// Each part of a module adds what it holds to what is known of the module, and
/// nothing else: headers, ends and custom sections add nothing, and a section
/// adds its items behind those of earlier ones.
pub proof fn parts_add_what_they_hold(
    surface: SurfaceView,
    bytes: Seq<u8>,
    count: u32,
    range: Range<usize>,
)
    requires
        range.start <= range.end <= bytes.len(),
    ensures
        surface.extended(bytes, Section::ModuleHeader) == Some(surface),
        surface.extended(bytes, Section::Finish) == Some(surface),
        surface.extended(bytes, Section::ComponentHeader) is None,
        surface.extended(bytes, Section::Part(None)) is None,
        surface.extended(bytes, Section::Part(Some((0u8, range)))) == Some(surface),
        surface.extended(bytes, Section::Code(count)) == Some(
            SurfaceView { code_counts: surface.code_counts.push(count), ..surface },
        ),
        surface.extended(bytes, Section::Data(count)) == Some(
            SurfaceView { data_counts: surface.data_counts.push(count), ..surface },
        ),
        surface.extended(bytes, Section::DataCount(count)) == surface.extended(
            bytes,
            Section::Data(count),
        ),
        surface.extended(bytes, Section::Body) == Some(
            SurfaceView { bodies: surface.bodies + 1, ..surface },
        ),
        ({
            let held = bytes.subrange(range.start as int, range.end as int);
            &&& section_types(held) matches Some(items) ==> surface.extended(
                bytes,
                Section::Part(Some((1u8, range))),
            ) == Some(SurfaceView { types: surface.types + items, ..surface })
            &&& section_imports(held) matches Some(items) ==> surface.extended(
                bytes,
                Section::Part(Some((2u8, range))),
            ) == Some(SurfaceView { imports: surface.imports + items, ..surface })
            &&& section_functions(held) matches Some(items) ==> surface.extended(
                bytes,
                Section::Part(Some((3u8, range))),
            ) == Some(SurfaceView { functions: surface.functions + items, ..surface })
            &&& section_memories(held) matches Some(items) ==> surface.extended(
                bytes,
                Section::Part(Some((5u8, range))),
            ) == Some(SurfaceView { memories: surface.memories + items, ..surface })
            &&& section_globals(held) matches Some(items) ==> surface.extended(
                bytes,
                Section::Part(Some((6u8, range))),
            ) == Some(SurfaceView { globals: surface.globals + items, ..surface })
            &&& section_exports(held) matches Some(items) ==> surface.extended(
                bytes,
                Section::Part(Some((7u8, range))),
            ) == Some(SurfaceView { exports: surface.exports + items, ..surface })
        }),
{
}

/// A section of a number that modules may not have is refused wherever it stands,
/// and so is one that does not parse.
pub proof fn other_sections_are_refused(
    surface: SurfaceView,
    bytes: Seq<u8>,
    number: u8,
    range: Range<usize>,
)
    ensures
        number == 4 || number > 7 ==> surface.extended(
            bytes,
            Section::Part(Some((number, range))),
        ) is None,
        number == 1 && section_types(contents(bytes, range)) is None ==> surface.extended(
            bytes,
            Section::Part(Some((number, range))),
        ) is None,
        number != 0 && range.end > bytes.len() ==> surface.extended(
            bytes,
            Section::Part(Some((number, range))),
        ) is None,
{
}

/// What is known of a module before its first part is nothing, and each part
/// counts in its turn.
pub proof fn modules_are_read_part_by_part(bytes: Seq<u8>, sections: Seq<Section>, next: Section)
    ensures
        ({
            let nothing = surface_of(bytes, Seq::<Section>::empty());
            &&& nothing is Some
            &&& nothing->0.types.len() == 0 && nothing->0.imports.len() == 0
            &&& nothing->0.functions.len() == 0 && nothing->0.memories.len() == 0
            &&& nothing->0.globals.len() == 0 && nothing->0.exports.len() == 0
            &&& nothing->0.code_counts.len() == 0 && nothing->0.data_counts.len() == 0
            &&& nothing->0.bodies == 0
        }),
        surface_of(bytes, sections.push(next)) == (match surface_of(bytes, sections) {
            Some(surface) => surface.extended(bytes, next),
            None => None,
        }),
{
    assert(sections.push(next).drop_last() =~= sections);
}

/// A module has at least one byte and at most 2 MiB, is valid WebAssembly, and
/// conforms in what its parts hold; and each that does is accepted.
pub proof fn accepted_modules_conform(bytes: Seq<u8>)
    ensures
        is_abi_module(bytes) ==> 1 <= bytes.len() <= 2_097_152 && wasm2_valid(bytes)
            && wasm_sections(bytes) is Some && surface_of(bytes, wasm_sections(bytes)->0) is Some
            && surface_of(bytes, wasm_sections(bytes)->0)->0.conforms(),
        1 <= bytes.len() <= 2_097_152 && wasm2_valid(bytes) && wasm_sections(bytes) is Some
            && surface_of(bytes, wasm_sections(bytes)->0) is Some && surface_of(
            bytes,
            wasm_sections(bytes)->0,
        )->0.conforms() ==> is_abi_module(bytes),
{
}

} // verus!
