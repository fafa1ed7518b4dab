//! Reading a module from its binary: `wasmparser` splits the binary into
//! payloads and reads the items of each section; this module decides what
//! each payload contributes to the module.
use vstd::prelude::*;

use super::components::{
    Data, DataKind, DataView, Element, ElementItems, ElementKind, ElementKindView,
    ElementView, Export, ExternalKind, FuncDecl, FuncDeclView, FuncType, FuncTypeView, GlobalDecl,
    GlobalDeclView, GlobalType, Import, ImportSet, ImportSetView, ImportView, MemoryType, TableType,
    TypeRef,
};
use super::insts::{spec_decode_code, InstView, Instruction};
use super::reader::{read_valtype_at, read_var_u32_at, spec_read_var_u32, wasm_read_valtype, DecodeError};
use super::value_type::ValType;
use super::wasm_module::{empty_module, ExportView, ModuleView, WasmModule};
use wasmparser as wp;
use wasmparser::TypeRef as WasmTypeRef;

verus! {

/// Why a module could not be read.
#[derive(Debug, Clone, Copy, PartialEq, Eq, Structural)]
pub enum ParseError {
    /// `wasmparser` rejected the binary, or a section lies outside it.
    Malformed,
    /// A construct the reader does not implement: an explicit recursion
    /// group, a type that is not a function type, or an import that is not a
    /// function, table, memory or global.
    Unsupported,
    /// An import or a function refers to a signature that does not exist.
    SignatureNotFound,
    /// A function section does not follow exactly the imports.
    MalformedFuncImports,
    /// More than one memory is declared.
    MultipleMemories,
    /// The data section does not hold as many segments as the data count says.
    DataCountMismatch,
    /// A function body has no declared function.
    FunctionNotFound,
    /// The number of function bodies read differs from the code section's count.
    FunctionCountMismatch,
    /// A section whose id the parser does not know.
    UnknownSection,
    /// A function declares more than 2^32 - 1 locals.
    TooManyLocals,
    /// An import count does not fit in 32 bits.
    TooManyImports,
    /// A function body's instructions could not be decoded.
    Decode(DecodeError),
}

/// One payload of a binary as the parser reports it.
#[derive(Debug, Clone, Copy, PartialEq, Eq, Structural)]
pub enum Payload {
    /// The header of a module (`component` false) or of a component.
    Version { component: bool },
    /// A section with its id and the byte range of its contents.
    Section { id: u8, start: usize, end: usize },
    /// A section with an id the parser does not know.
    Unknown { id: u8 },
    /// The end of a module or a component.
    End,
    /// A payload with nothing to read here: a single function body, which
    /// is read with the code section.
    Other,
}

// ---------------------------------------------------------------------------
// What `wasmparser` reads: names for its results.

/// The payloads `Parser::parse_all` yields for a binary; `None` when it
/// reports an error.
pub uninterp spec fn wasm_payloads(bytes: Seq<u8>) -> Option<Seq<Payload>>;

/// For each recursion group of a type section: whether it is an explicit
/// group, and the textual names of the parameter and result types of its
/// first type where that is a function type (`None` otherwise).
pub uninterp spec fn wasm_func_types(bytes: Seq<u8>, start: nat, end: nat) -> Option<
    Seq<(bool, Option<(Seq<Seq<char>>, Seq<Seq<char>>)>)>,
>;

/// The imports of an import section, compact groups flattened.
pub uninterp spec fn wasm_imports(bytes: Seq<u8>, start: nat, end: nat) -> Option<Seq<ImportView>>;

/// The signature indices of a function section.
pub uninterp spec fn wasm_func_indices(bytes: Seq<u8>, start: nat, end: nat) -> Option<Seq<u32>>;

/// The limits of the tables of a table section.
pub uninterp spec fn wasm_tables(bytes: Seq<u8>, start: nat, end: nat) -> Option<Seq<TableType>>;

/// The limits of the memories of a memory section.
pub uninterp spec fn wasm_memories(bytes: Seq<u8>, start: nat, end: nat) -> Option<Seq<MemoryType>>;

/// For each global of a global section: the textual name of its value type,
/// its mutability and the bytes of its initializer.
pub uninterp spec fn wasm_globals(bytes: Seq<u8>, start: nat, end: nat) -> Option<
    Seq<(Seq<char>, bool, Seq<u8>)>,
>;

/// The exports of an export section.
pub uninterp spec fn wasm_exports(bytes: Seq<u8>, start: nat, end: nat) -> Option<Seq<ExportView>>;

/// The kind of each segment of an element section.
pub uninterp spec fn wasm_element_kinds(bytes: Seq<u8>, start: nat, end: nat) -> Option<Seq<ElementKindView>>;

/// The function indices of each segment of an element section; `None` for a
/// segment of expressions.
pub uninterp spec fn wasm_element_funcs(bytes: Seq<u8>, start: nat, end: nat) -> Option<Seq<Option<Seq<u32>>>>;

/// The segments of a data section.
pub uninterp spec fn wasm_datas(bytes: Seq<u8>, start: nat, end: nat) -> Option<Seq<DataView>>;

/// The bytes of each function body of a code section: its local
/// declarations followed by its instructions.
pub uninterp spec fn wasm_code_bodies(bytes: Seq<u8>, start: nat, end: nat) -> Option<Seq<Seq<u8>>>;

/// The views of a list of strings.
pub open spec fn strings_view(v: Seq<String>) -> Seq<Seq<char>> {
    v.map_values(|s: String| s@)
}

/// The views of the function types read from a type section.
pub open spec fn func_types_view(v: Seq<(bool, Option<(Vec<String>, Vec<String>)>)>) -> Seq<
    (bool, Option<(Seq<Seq<char>>, Seq<Seq<char>>)>),
> {
    v.map_values(
        |o: (bool, Option<(Vec<String>, Vec<String>)>)|
            (
                o.0,
                match o.1 {
                    Some((p, r)) => Some((strings_view(p@), strings_view(r@))),
                    None => None,
                },
            ),
    )
}

/// The views of the globals read from a global section.
pub open spec fn globals_read_view(v: Seq<(String, bool, Vec<u8>)>) -> Seq<(Seq<char>, bool, Seq<u8>)> {
    v.map_values(|g: (String, bool, Vec<u8>)| (g.0@, g.1, g.2@))
}

/// The view of an element segment's kind.
pub open spec fn element_kind_view(k: ElementKind) -> ElementKindView {
    match k {
        ElementKind::Passive => ElementKindView::Passive,
        ElementKind::Active { table_index, offset_expr } => ElementKindView::Active {
            table_index,
            offset_expr: offset_expr@,
        },
        ElementKind::Declared => ElementKindView::Declared,
    }
}

/// The views of element segment kinds.
pub open spec fn element_kinds_view(v: Seq<ElementKind>) -> Seq<ElementKindView> {
    v.map_values(|k: ElementKind| element_kind_view(k))
}

/// The views of the function lists of element segments.
pub open spec fn element_funcs_view(v: Seq<Option<Vec<u32>>>) -> Seq<Option<Seq<u32>>> {
    v.map_values(
        |o: Option<Vec<u32>>|
            match o {
                Some(f) => Some(f@),
                None => None,
            },
    )
}

/// The views of a list of byte vectors.
pub open spec fn bytes_view(v: Seq<Vec<u8>>) -> Seq<Seq<u8>> {
    v.map_values(|b: Vec<u8>| b@)
}

// ---------------------------------------------------------------------------
// What each payload contributes to the module.

/// The value type whose `Display` text is `n`: the five numeric types by
/// their names, a reference type for any other text.
pub open spec fn valtype_named(n: Seq<char>) -> ValType {
    if n == seq!['i', '3', '2'] {
        ValType::I32
    } else if n == seq!['i', '6', '4'] {
        ValType::I64
    } else if n == seq!['f', '3', '2'] {
        ValType::F32
    } else if n == seq!['f', '6', '4'] {
        ValType::F64
    } else if n == seq!['v', '1', '2', '8'] {
        ValType::V128
    } else {
        ValType::Ref
    }
}

/// The value types named by a list of texts.
pub open spec fn valtypes_named(v: Seq<Seq<char>>) -> Seq<ValType> {
    v.map_values(|n: Seq<char>| valtype_named(n))
}

/// The signatures of a type section; an entry that is not a plain function
/// type is not supported.
pub open spec fn spec_type_section(g: Seq<(bool, Option<(Seq<Seq<char>>, Seq<Seq<char>>)>)>) -> Result<Seq<FuncTypeView>, ParseError>
    decreases g.len(),
{
    if g.len() == 0 {
        Ok(Seq::empty())
    } else {
        match spec_type_section(g.drop_last()) {
            Ok(sigs) => match g.last() {
                (false, Some((p, r))) => Ok(sigs.push(FuncTypeView { params: valtypes_named(p), results: valtypes_named(r) })),
                _ => Err(ParseError::Unsupported),
            },
            Err(e) => Err(e),
        }
    }
}

/// The import set of the imports `items`, counting each kind; tags and
/// exact function imports are not supported, and no count may pass 2^32 - 1.
pub open spec fn spec_import_set(items: Seq<ImportView>) -> Result<ImportSetView, ParseError>
    decreases items.len(),
{
    if items.len() == 0 {
        Ok(ImportSetView { imports: Seq::empty(), num_funcs: 0, num_tables: 0, num_mems: 0, num_globals: 0 })
    } else {
        match spec_import_set(items.drop_last()) {
            Ok(s) => {
                let i = items.last();
                let s2 = ImportSetView { imports: s.imports.push(i), ..s };
                match i.ty {
                    TypeRef::Func(_) => if s.num_funcs == u32::MAX {
                        Err(ParseError::TooManyImports)
                    } else {
                        Ok(ImportSetView { num_funcs: (s.num_funcs + 1) as u32, ..s2 })
                    },
                    TypeRef::Table => if s.num_tables == u32::MAX {
                        Err(ParseError::TooManyImports)
                    } else {
                        Ok(ImportSetView { num_tables: (s.num_tables + 1) as u32, ..s2 })
                    },
                    TypeRef::Memory => if s.num_mems == u32::MAX {
                        Err(ParseError::TooManyImports)
                    } else {
                        Ok(ImportSetView { num_mems: (s.num_mems + 1) as u32, ..s2 })
                    },
                    TypeRef::Global => if s.num_globals == u32::MAX {
                        Err(ParseError::TooManyImports)
                    } else {
                        Ok(ImportSetView { num_globals: (s.num_globals + 1) as u32, ..s2 })
                    },
                    _ => Err(ParseError::Unsupported),
                }
            },
            Err(e) => Err(e),
        }
    }
}

/// A declared function of signature `sig`, without locals or body yet.
pub open spec fn declared(sig: FuncTypeView) -> FuncDeclView {
    FuncDeclView { sig, pure_locals: Seq::empty(), insts: Seq::empty() }
}

/// The functions declared with the signature indices `ix`.
pub open spec fn spec_declare(ix: Seq<u32>, sigs: Seq<FuncTypeView>) -> Result<Seq<FuncDeclView>, ParseError>
    decreases ix.len(),
{
    if ix.len() == 0 {
        Ok(Seq::empty())
    } else {
        match spec_declare(ix.drop_last(), sigs) {
            Ok(fs) => if ix.last() < sigs.len() {
                Ok(fs.push(declared(sigs[ix.last() as int])))
            } else {
                Err(ParseError::SignatureNotFound)
            },
            Err(e) => Err(e),
        }
    }
}

/// The functions the imports `items` declare; only function imports are supported.
pub open spec fn spec_import_funcs(items: Seq<ImportView>, sigs: Seq<FuncTypeView>) -> Result<Seq<FuncDeclView>, ParseError>
    decreases items.len(),
{
    if items.len() == 0 {
        Ok(Seq::empty())
    } else {
        match spec_import_funcs(items.drop_last(), sigs) {
            Ok(fs) => match items.last().ty {
                TypeRef::Func(ix) => if ix < sigs.len() {
                    Ok(fs.push(declared(sigs[ix as int])))
                } else {
                    Err(ParseError::SignatureNotFound)
                },
                _ => Err(ParseError::Unsupported),
            },
            Err(e) => Err(e),
        }
    }
}

/// The globals of a global section.
pub open spec fn spec_globals(gs: Seq<(Seq<char>, bool, Seq<u8>)>) -> Seq<GlobalDeclView> {
    gs.map_values(
        |g: (Seq<char>, bool, Seq<u8>)|
            GlobalDeclView { ty: GlobalType { content_type: valtype_named(g.0), mutable: g.1 }, init_expr: g.2 },
    )
}

/// The element segments made of their kinds and their function lists.
pub open spec fn spec_elements(kinds: Seq<ElementKindView>, funcs: Seq<Option<Seq<u32>>>) -> Result<Seq<ElementView>, ParseError> {
    if kinds.len() != funcs.len() {
        Err(ParseError::Malformed)
    } else {
        Ok(Seq::new(kinds.len(), |i: int| ElementView { kind: kinds[i], funcs: funcs[i] }))
    }
}

/// The local declarations of a function body from position `pos` on: `k`
/// more pairs of a count and a value type, with `total` locals declared
/// before them. Gives the declarations and the position after them.
pub open spec fn spec_read_locals(body: Seq<u8>, pos: nat, k: nat, total: nat) -> Result<(Seq<(u32, ValType)>, nat), ParseError>
    decreases k,
{
    if k == 0 {
        Ok((Seq::empty(), pos))
    } else {
        match spec_read_var_u32(body.skip(pos as int)) {
            Some((n, l1)) => if total + n > u32::MAX {
                Err(ParseError::TooManyLocals)
            } else {
                match wasm_read_valtype(body.skip((pos + l1) as int)) {
                    Some((t, l2)) => match spec_read_locals(body, pos + l1 + l2, (k - 1) as nat, (total + n) as nat) {
                        Ok((rest, p)) => Ok((seq![(n, t)] + rest, p)),
                        Err(e) => Err(e),
                    },
                    None => Err(ParseError::Malformed),
                }
            },
            None => Err(ParseError::Malformed),
        }
    }
}

/// A function body: its local declarations and its decoded instructions.
pub open spec fn spec_code_body(body: Seq<u8>) -> Result<(Seq<(u32, ValType)>, Seq<InstView>), ParseError> {
    match spec_read_var_u32(body) {
        Some((count, l0)) => match spec_read_locals(body, l0, count as nat, 0) {
            Ok((locals, p)) => if p <= body.len() {
                match spec_decode_code(body.skip(p as int)) {
                    Ok(insts) => Ok((locals, insts)),
                    Err(d) => Err(ParseError::Decode(d)),
                }
            } else {
                Err(ParseError::Malformed)
            },
            Err(e) => Err(e),
        },
        None => Err(ParseError::Malformed),
    }
}

/// What reading a binary has built so far.
pub struct ParseState {
    pub module: ModuleView,
    /// The function count the last code section announced.
    pub tot_func: nat,
    /// The number of function bodies read.
    pub n_func: nat,
    /// For each module or component being read, innermost last: whether it
    /// is a component.
    pub nesting: Seq<bool>,
}

/// The state before the first payload.
pub open spec fn initial_state() -> ParseState {
    ParseState { module: empty_module(), tot_func: 0, n_func: 0, nesting: Seq::empty() }
}

/// The first 32-bit count of a section's contents.
pub open spec fn section_count(bytes: Seq<u8>, start: nat, end: nat) -> Option<u32> {
    match spec_read_var_u32(bytes.subrange(start as int, end as int)) {
        Some((c, _)) => Some(c),
        None => None,
    }
}

/// Installing the function bodies `bodies`, the first of them the next
/// function after the imports and the bodies read so far.
pub open spec fn spec_add_bodies(st: ParseState, bodies: Seq<Seq<u8>>) -> Result<ParseState, ParseError>
    decreases bodies.len(),
{
    if bodies.len() == 0 {
        Ok(st)
    } else {
        let m = st.module;
        let idx = st.n_func + m.imports.imports.len();
        if idx < m.funcs.len() {
            match spec_code_body(bodies[0]) {
                Ok((locals, insts)) => spec_add_bodies(
                    ParseState {
                        module: ModuleView {
                            funcs: m.funcs.update(
                                idx as int,
                                FuncDeclView { sig: m.funcs[idx as int].sig, pure_locals: locals, insts },
                            ),
                            ..m
                        },
                        n_func: st.n_func + 1,
                        ..st
                    },
                    bodies.drop_first(),
                ),
                Err(e) => Err(e),
            }
        } else {
            Err(ParseError::FunctionNotFound)
        }
    }
}

/// What a section of a module, with id `id` and contents `start..end`,
/// contributes.
pub open spec fn spec_section(bytes: Seq<u8>, st: ParseState, id: u8, start: nat, end: nat) -> Result<ParseState, ParseError> {
    let m = st.module;
    let with = |m2: ModuleView| ParseState { module: m2, ..st };
    if !(start <= end <= bytes.len()) {
        Err(ParseError::Malformed)
    } else if id == 1 {
        match wasm_func_types(bytes, start, end) {
            Some(g) => match spec_type_section(g) {
                Ok(sigs) => Ok(with(ModuleView { sigs, ..m })),
                Err(e) => Err(e),
            },
            None => Err(ParseError::Malformed),
        }
    } else if id == 2 {
        match wasm_imports(bytes, start, end) {
            Some(items) => match spec_import_set(items) {
                Ok(set) => match spec_import_funcs(items, m.sigs) {
                    Ok(fs) => Ok(with(ModuleView { imports: set, funcs: m.funcs + fs, ..m })),
                    Err(e) => Err(e),
                },
                Err(e) => Err(e),
            },
            None => Err(ParseError::Malformed),
        }
    } else if id == 3 {
        if m.funcs.len() != m.imports.imports.len() {
            Err(ParseError::MalformedFuncImports)
        } else {
            match wasm_func_indices(bytes, start, end) {
                Some(ix) => match spec_declare(ix, m.sigs) {
                    Ok(fs) => Ok(with(ModuleView { funcs: m.funcs + fs, ..m })),
                    Err(e) => Err(e),
                },
                None => Err(ParseError::Malformed),
            }
        }
    } else if id == 4 {
        match wasm_tables(bytes, start, end) {
            Some(tables) => Ok(with(ModuleView { tables, ..m })),
            None => Err(ParseError::Malformed),
        }
    } else if id == 5 {
        match section_count(bytes, start, end) {
            Some(c) => if c != 1 {
                Err(ParseError::MultipleMemories)
            } else {
                match wasm_memories(bytes, start, end) {
                    Some(mems) => Ok(with(ModuleView { mems, ..m })),
                    None => Err(ParseError::Malformed),
                }
            },
            None => Err(ParseError::Malformed),
        }
    } else if id == 6 {
        match wasm_globals(bytes, start, end) {
            Some(gs) => Ok(with(ModuleView { globals: spec_globals(gs), ..m })),
            None => Err(ParseError::Malformed),
        }
    } else if id == 7 {
        match wasm_exports(bytes, start, end) {
            Some(exports) => Ok(with(ModuleView { exports, ..m })),
            None => Err(ParseError::Malformed),
        }
    } else if id == 8 {
        match section_count(bytes, start, end) {
            Some(f) => Ok(with(ModuleView { start_func_id: Some(f), ..m })),
            None => Err(ParseError::Malformed),
        }
    } else if id == 9 {
        match (wasm_element_kinds(bytes, start, end), wasm_element_funcs(bytes, start, end)) {
            (Some(k), Some(f)) => match spec_elements(k, f) {
                Ok(elems) => Ok(with(ModuleView { elems, ..m })),
                Err(e) => Err(e),
            },
            _ => Err(ParseError::Malformed),
        }
    } else if id == 10 {
        match section_count(bytes, start, end) {
            Some(c) => match wasm_code_bodies(bytes, start, end) {
                Some(bodies) => spec_add_bodies(ParseState { tot_func: c as nat, ..st }, bodies),
                None => Err(ParseError::Malformed),
            },
            None => Err(ParseError::Malformed),
        }
    } else if id == 11 {
        let checked = match m.data_count {
            Some(c) => match section_count(bytes, start, end) {
                Some(n) => if n != c {
                    Err(ParseError::DataCountMismatch)
                } else {
                    Ok(())
                },
                None => Err(ParseError::Malformed),
            },
            None => Ok(()),
        };
        match checked {
            Ok(_) => match wasm_datas(bytes, start, end) {
                Some(datas) => Ok(with(ModuleView { datas, ..m })),
                None => Err(ParseError::Malformed),
            },
            Err(e) => Err(e),
        }
    } else if id == 12 {
        match section_count(bytes, start, end) {
            Some(c) => Ok(with(ModuleView { data_count: Some(c), ..m })),
            None => Err(ParseError::Malformed),
        }
    } else {
        Ok(st)
    }
}

/// Whether the innermost binary being read is a component.
pub open spec fn in_component(st: ParseState) -> bool {
    st.nesting.len() > 0 && st.nesting.last()
}

/// What one payload contributes. Sections of a component are skipped; those
/// of a module, a nested one too, are read into the one module.
pub open spec fn spec_payload(bytes: Seq<u8>, st: ParseState, p: Payload) -> Result<ParseState, ParseError> {
    match p {
        Payload::Version { component } => Ok(ParseState { nesting: st.nesting.push(component), ..st }),
        Payload::End => Ok(
            ParseState {
                nesting: if st.nesting.len() > 0 {
                    st.nesting.drop_last()
                } else {
                    st.nesting
                },
                ..st
            },
        ),
        Payload::Unknown { .. } => Err(ParseError::UnknownSection),
        Payload::Other => Ok(st),
        Payload::Section { id, start, end } => if in_component(st) {
            Ok(st)
        } else {
            spec_section(bytes, st, id, start as nat, end as nat)
        },
    }
}

/// Reading the payloads `ps` one after the other from state `st`.
pub open spec fn spec_payloads(bytes: Seq<u8>, ps: Seq<Payload>, st: ParseState) -> Result<ParseState, ParseError>
    decreases ps.len(),
{
    if ps.len() == 0 {
        Ok(st)
    } else {
        match spec_payload(bytes, st, ps[0]) {
            Ok(st2) => spec_payloads(bytes, ps.drop_first(), st2),
            Err(e) => Err(e),
        }
    }
}

/// The module read from the payloads `ps` of `bytes`: every function body
/// the code section announced must have been read.
pub open spec fn spec_module_of(bytes: Seq<u8>, ps: Seq<Payload>) -> Result<ModuleView, ParseError> {
    match spec_payloads(bytes, ps, initial_state()) {
        Ok(st) => if st.n_func != st.tot_func {
            Err(ParseError::FunctionCountMismatch)
        } else {
            Ok(st.module)
        },
        Err(e) => Err(e),
    }
}

/// The module a binary encodes.
pub open spec fn spec_from_bytecode(bytes: Seq<u8>) -> Result<ModuleView, ParseError> {
    match wasm_payloads(bytes) {
        Some(ps) => spec_module_of(bytes, ps),
        None => Err(ParseError::Malformed),
    }
}

/// Runs `wasmparser::Parser::parse_all` over the whole binary and lists its
/// payloads by `Payload::as_section`: each section with its id and the range
/// of its contents; besides, the header and the end of each module or
/// component and each section of an unknown id. Fails when the parser
/// reports an error.
#[verifier::external_body]
pub(crate) fn read_payloads(bytes: &[u8]) -> (res: Result<Vec<Payload>, ParseError>)
    ensures
        match res {
            Ok(v) => wasm_payloads(bytes@) == Some(v@),
            Err(e) => wasm_payloads(bytes@) is None && e == ParseError::Malformed,
        },
{
    let mut out = Vec::new();
    for p in wp::Parser::new(0).parse_all(bytes) {
        out.push(match p.map_err(|_| ParseError::Malformed)? {
            wp::Payload::Version { encoding, .. } => Payload::Version { component: encoding == wp::Encoding::Component },
            wp::Payload::End(_) => Payload::End,
            wp::Payload::UnknownSection { id, .. } => Payload::Unknown { id },
            p => match p.as_section() {
                Some((id, r)) => Payload::Section { id, start: r.start as usize, end: r.end as usize },
                None => Payload::Other,
            },
        });
    }
    Ok(out)
}

/// Reads a type section with `wasmparser::TypeSectionReader`. For each
/// recursion group it gives whether the group is explicit and, where the
/// group's first type is a function type, the `Display` text of its
/// parameter and result types (`i32`, `i64`, `f32`, `f64`, `v128`, or the
/// text of a reference type).
#[verifier::external_body]
fn read_func_types(bytes: &[u8], start: usize, end: usize) -> (res: Result<Vec<(bool, Option<(Vec<String>, Vec<String>)>)>, ParseError>)
    requires
        start <= end <= bytes@.len(),
    ensures
        match res {
            Ok(v) => wasm_func_types(bytes@, start as nat, end as nat) == Some(func_types_view(v@)),
            Err(e) => wasm_func_types(bytes@, start as nat, end as nat) is None && e == ParseError::Malformed,
        },
{
    let r = wp::TypeSectionReader::new(wp::BinaryReader::new(&bytes[start..end], start as u64));
    let mut out = Vec::new();
    for g in r.map_err(|_| ParseError::Malformed)? {
        let g = g.map_err(|_| ParseError::Malformed)?;
        let explicit = g.is_explicit_rec_group();
        out.push((explicit, match g.into_types().next().map(|t| t.composite_type.inner) {
            Some(wp::CompositeInnerType::Func(f)) => Some((
                f.params().iter().map(ToString::to_string).collect(),
                f.results().iter().map(ToString::to_string).collect(),
            )),
            _ => None,
        }));
    }
    Ok(out)
}

/// Reads an import section with `wasmparser::ImportSectionReader::into_imports`:
/// each import's module, name and kind, with the signature index of a function.
#[verifier::external_body]
fn read_imports(bytes: &[u8], start: usize, end: usize) -> (res: Result<Vec<Import>, ParseError>)
    requires
        start <= end <= bytes@.len(),
    ensures
        match res {
            Ok(v) => wasm_imports(bytes@, start as nat, end as nat) == Some(super::components::imports_view(v@)),
            Err(e) => wasm_imports(bytes@, start as nat, end as nat) is None && e == ParseError::Malformed,
        },
{
    let r = wp::ImportSectionReader::new(wp::BinaryReader::new(&bytes[start..end], start as u64));
    let mut out = Vec::new();
    for i in r.map_err(|_| ParseError::Malformed)?.into_imports() {
        let i = i.map_err(|_| ParseError::Malformed)?;
        let ty = match i.ty {
            WasmTypeRef::Func(x) => TypeRef::Func(x),
            WasmTypeRef::FuncExact(x) => TypeRef::FuncExact(x),
            WasmTypeRef::Table(_) => TypeRef::Table,
            WasmTypeRef::Memory(_) => TypeRef::Memory,
            WasmTypeRef::Global(_) => TypeRef::Global,
            WasmTypeRef::Tag(_) => TypeRef::Tag,
        };
        out.push(Import { module: i.module.to_string(), name: i.name.to_string(), ty });
    }
    Ok(out)
}

/// Reads the signature indices of a function section with
/// `wasmparser::FunctionSectionReader`.
#[verifier::external_body]
fn read_func_indices(bytes: &[u8], start: usize, end: usize) -> (res: Result<Vec<u32>, ParseError>)
    requires
        start <= end <= bytes@.len(),
    ensures
        match res {
            Ok(v) => wasm_func_indices(bytes@, start as nat, end as nat) == Some(v@),
            Err(e) => wasm_func_indices(bytes@, start as nat, end as nat) is None && e == ParseError::Malformed,
        },
{
    let r = wp::FunctionSectionReader::new(wp::BinaryReader::new(&bytes[start..end], start as u64));
    let r = r.map_err(|_| ParseError::Malformed)?;
    r.into_iter().collect::<Result<Vec<u32>, _>>().map_err(|_| ParseError::Malformed)
}

/// Reads the limits of the tables of a table section with
/// `wasmparser::TableSectionReader`.
#[verifier::external_body]
fn read_tables(bytes: &[u8], start: usize, end: usize) -> (res: Result<Vec<TableType>, ParseError>)
    requires
        start <= end <= bytes@.len(),
    ensures
        match res {
            Ok(v) => wasm_tables(bytes@, start as nat, end as nat) == Some(v@),
            Err(e) => wasm_tables(bytes@, start as nat, end as nat) is None && e == ParseError::Malformed,
        },
{
    let r = wp::TableSectionReader::new(wp::BinaryReader::new(&bytes[start..end], start as u64));
    let r = r.map_err(|_| ParseError::Malformed)?;
    r.into_iter().map(|t| t.map(|t| TableType { initial: t.ty.initial, maximum: t.ty.maximum }))
        .collect::<Result<Vec<_>, _>>().map_err(|_| ParseError::Malformed)
}

/// Reads the limits of the memories of a memory section with
/// `wasmparser::MemorySectionReader`.
#[verifier::external_body]
fn read_memories(bytes: &[u8], start: usize, end: usize) -> (res: Result<Vec<MemoryType>, ParseError>)
    requires
        start <= end <= bytes@.len(),
    ensures
        match res {
            Ok(v) => wasm_memories(bytes@, start as nat, end as nat) == Some(v@),
            Err(e) => wasm_memories(bytes@, start as nat, end as nat) is None && e == ParseError::Malformed,
        },
{
    let r = wp::MemorySectionReader::new(wp::BinaryReader::new(&bytes[start..end], start as u64));
    let r = r.map_err(|_| ParseError::Malformed)?;
    r.into_iter().map(|m| m.map(|m| MemoryType { initial: m.initial, maximum: m.maximum }))
        .collect::<Result<Vec<_>, _>>().map_err(|_| ParseError::Malformed)
}

/// Reads a global section with `wasmparser::GlobalSectionReader`: each
/// global's value type as its `Display` text, its mutability and the bytes
/// of its initializer expression, `end` included.
#[verifier::external_body]
fn read_globals(bytes: &[u8], start: usize, end: usize) -> (res: Result<Vec<(String, bool, Vec<u8>)>, ParseError>)
    requires
        start <= end <= bytes@.len(),
    ensures
        match res {
            Ok(v) => wasm_globals(bytes@, start as nat, end as nat) == Some(globals_read_view(v@)),
            Err(e) => wasm_globals(bytes@, start as nat, end as nat) is None && e == ParseError::Malformed,
        },
{
    let r = wp::GlobalSectionReader::new(wp::BinaryReader::new(&bytes[start..end], start as u64));
    let r = r.map_err(|_| ParseError::Malformed)?;
    let mut out = Vec::new();
    for g in r {
        let g = g.map_err(|_| ParseError::Malformed)?;
        let x = g.init_expr.get_binary_reader().range();
        out.push((g.ty.content_type.to_string(), g.ty.mutable, bytes[x.start as usize..x.end as usize].to_vec()));
    }
    Ok(out)
}

/// Reads an export section with `wasmparser::ExportSectionReader`.
#[verifier::external_body]
fn read_exports(bytes: &[u8], start: usize, end: usize) -> (res: Result<Vec<Export>, ParseError>)
    requires
        start <= end <= bytes@.len(),
    ensures
        match res {
            Ok(v) => wasm_exports(bytes@, start as nat, end as nat) == Some(super::wasm_module::exports_view(v@)),
            Err(e) => wasm_exports(bytes@, start as nat, end as nat) is None && e == ParseError::Malformed,
        },
{
    let r = wp::ExportSectionReader::new(wp::BinaryReader::new(&bytes[start..end], start as u64));
    let mut out = Vec::new();
    for e in r.map_err(|_| ParseError::Malformed)? {
        let e = e.map_err(|_| ParseError::Malformed)?;
        let kind = match e.kind {
            wp::ExternalKind::Func => ExternalKind::Func,
            wp::ExternalKind::Table => ExternalKind::Table,
            wp::ExternalKind::Memory => ExternalKind::Memory,
            wp::ExternalKind::Global => ExternalKind::Global,
            wp::ExternalKind::Tag => ExternalKind::Tag,
            wp::ExternalKind::FuncExact => ExternalKind::FuncExact,
        };
        out.push(Export { name: e.name.to_string(), kind, index: e.index });
    }
    Ok(out)
}

/// Reads the kind of each segment of an element section with
/// `wasmparser::ElementSectionReader`, with the table index and the bytes of
/// the offset expression of an active segment.
#[verifier::external_body]
fn read_element_kinds(bytes: &[u8], start: usize, end: usize) -> (res: Result<Vec<ElementKind>, ParseError>)
    requires
        start <= end <= bytes@.len(),
    ensures
        match res {
            Ok(v) => wasm_element_kinds(bytes@, start as nat, end as nat) == Some(element_kinds_view(v@)),
            Err(e) => wasm_element_kinds(bytes@, start as nat, end as nat) is None && e == ParseError::Malformed,
        },
{
    let r = wp::ElementSectionReader::new(wp::BinaryReader::new(&bytes[start..end], start as u64));
    let mut out = Vec::new();
    for e in r.map_err(|_| ParseError::Malformed)? {
        out.push(match e.map_err(|_| ParseError::Malformed)?.kind {
            wp::ElementKind::Passive => ElementKind::Passive,
            wp::ElementKind::Active { table_index, offset_expr: x } => {
                let x = x.get_binary_reader().range();
                ElementKind::Active { table_index, offset_expr: bytes[x.start as usize..x.end as usize].to_vec() }
            },
            wp::ElementKind::Declared => ElementKind::Declared,
        });
    }
    Ok(out)
}

/// Reads the items of each segment of an element section with
/// `wasmparser::ElementSectionReader`: its function indices when it lists
/// functions, `None` when it lists expressions.
#[verifier::external_body]
fn read_element_funcs(bytes: &[u8], start: usize, end: usize) -> (res: Result<Vec<Option<Vec<u32>>>, ParseError>)
    requires
        start <= end <= bytes@.len(),
    ensures
        match res {
            Ok(v) => wasm_element_funcs(bytes@, start as nat, end as nat) == Some(element_funcs_view(v@)),
            Err(e) => wasm_element_funcs(bytes@, start as nat, end as nat) is None && e == ParseError::Malformed,
        },
{
    let r = wp::ElementSectionReader::new(wp::BinaryReader::new(&bytes[start..end], start as u64));
    let mut out = Vec::new();
    for e in r.map_err(|_| ParseError::Malformed)? {
        out.push(match e.map_err(|_| ParseError::Malformed)?.items {
            wp::ElementItems::Functions(f) => Some(f.into_iter().collect::<Result<_, _>>().map_err(|_| ParseError::Malformed)?),
            wp::ElementItems::Expressions(..) => None,
        });
    }
    Ok(out)
}

/// Reads a data section with `wasmparser::DataSectionReader`: each
/// segment's kind, with the memory index and the bytes of the offset
/// expression of an active segment, and its bytes.
#[verifier::external_body]
fn read_datas(bytes: &[u8], start: usize, end: usize) -> (res: Result<Vec<Data>, ParseError>)
    requires
        start <= end <= bytes@.len(),
    ensures
        match res {
            Ok(v) => wasm_datas(bytes@, start as nat, end as nat) == Some(super::wasm_module::datas_view(v@)),
            Err(e) => wasm_datas(bytes@, start as nat, end as nat) is None && e == ParseError::Malformed,
        },
{
    let r = wp::DataSectionReader::new(wp::BinaryReader::new(&bytes[start..end], start as u64));
    let mut out = Vec::new();
    for d in r.map_err(|_| ParseError::Malformed)? {
        let d = d.map_err(|_| ParseError::Malformed)?;
        let kind = match d.kind {
            wp::DataKind::Passive => DataKind::Passive,
            wp::DataKind::Active { memory_index, offset_expr: x } => {
                let x = x.get_binary_reader().range();
                DataKind::Active { memory_index, offset_expr: bytes[x.start as usize..x.end as usize].to_vec() }
            },
        };
        out.push(Data { kind, data: d.data.to_vec() });
    }
    Ok(out)
}

/// Reads a code section with `wasmparser::CodeSectionReader` and gives the
/// bytes of each function body (`FunctionBody::as_bytes`).
#[verifier::external_body]
fn read_code_bodies(bytes: &[u8], start: usize, end: usize) -> (res: Result<Vec<Vec<u8>>, ParseError>)
    requires
        start <= end <= bytes@.len(),
    ensures
        match res {
            Ok(v) => wasm_code_bodies(bytes@, start as nat, end as nat) == Some(bytes_view(v@)),
            Err(e) => wasm_code_bodies(bytes@, start as nat, end as nat) is None && e == ParseError::Malformed,
        },
{
    let r = wp::CodeSectionReader::new(wp::BinaryReader::new(&bytes[start..end], start as u64));
    let r = r.map_err(|_| ParseError::Malformed)?;
    r.into_iter().map(|b| b.map(|b| b.as_bytes().to_vec())).collect::<Result<Vec<_>, _>>().map_err(|_| ParseError::Malformed)
}

// ---------------------------------------------------------------------------
// Reading.

/// Whether `name` is the text `text`.
fn is_text(name: &String, text: &str) -> (res: bool)
    ensures
        res == (name@ == text@),
{
    let t = text.to_owned();
    name.eq(&t)
}

/// The value type whose `Display` text is `name`.
pub fn valtype_from_name(name: &String) -> (res: ValType)
    ensures
        res == valtype_named(name@),
{
    proof {
        reveal_strlit("i32");
        reveal_strlit("i64");
        reveal_strlit("f32");
        reveal_strlit("f64");
        reveal_strlit("v128");
    }
    assert("i32"@ == seq!['i', '3', '2']);
    assert("i64"@ == seq!['i', '6', '4']);
    assert("f32"@ == seq!['f', '3', '2']);
    assert("f64"@ == seq!['f', '6', '4']);
    assert("v128"@ == seq!['v', '1', '2', '8']);
    if is_text(name, "i32") {
        ValType::I32
    } else if is_text(name, "i64") {
        ValType::I64
    } else if is_text(name, "f32") {
        ValType::F32
    } else if is_text(name, "f64") {
        ValType::F64
    } else if is_text(name, "v128") {
        ValType::V128
    } else {
        ValType::Ref
    }
}

/// The value types named by `names`.
fn valtypes_from_names(names: &Vec<String>) -> (res: Vec<ValType>)
    ensures
        res@ == valtypes_named(strings_view(names@)),
{
    let mut out: Vec<ValType> = Vec::new();
    let mut i: usize = 0;
    while i < names.len()
        invariant
            i <= names@.len(),
            out@ == valtypes_named(strings_view(names@)).take(i as int),
        decreases names.len() - i,
    {
        out.push(valtype_from_name(&names[i]));
        i += 1;
        assert(out@ == valtypes_named(strings_view(names@)).take(i as int));
    }
    assert(valtypes_named(strings_view(names@)).take(i as int) == valtypes_named(strings_view(names@)));
    out
}

/// Once the signatures of a prefix of the groups fail, so do those of all.
proof fn lemma_type_section_prefix(g: Seq<(bool, Option<(Seq<Seq<char>>, Seq<Seq<char>>)>)>, i: int)
    requires
        0 <= i <= g.len(),
        spec_type_section(g.take(i)) is Err,
    ensures
        spec_type_section(g) == spec_type_section(g.take(i)),
    decreases g.len() - i,
{
    if i == g.len() {
        assert(g.take(i) == g);
    } else {
        assert(g.take(i + 1).drop_last() == g.take(i));
        lemma_type_section_prefix(g, i + 1);
    }
}

/// Once a prefix of the imports fails to count, so do all of them.
proof fn lemma_import_set_prefix(items: Seq<ImportView>, i: int)
    requires
        0 <= i <= items.len(),
        spec_import_set(items.take(i)) is Err,
    ensures
        spec_import_set(items) == spec_import_set(items.take(i)),
    decreases items.len() - i,
{
    if i == items.len() {
        assert(items.take(i) == items);
    } else {
        assert(items.take(i + 1).drop_last() == items.take(i));
        lemma_import_set_prefix(items, i + 1);
    }
}

/// Once a prefix of the imports fails to declare functions, so do all of them.
proof fn lemma_import_funcs_prefix(items: Seq<ImportView>, sigs: Seq<FuncTypeView>, i: int)
    requires
        0 <= i <= items.len(),
        spec_import_funcs(items.take(i), sigs) is Err,
    ensures
        spec_import_funcs(items, sigs) == spec_import_funcs(items.take(i), sigs),
    decreases items.len() - i,
{
    if i == items.len() {
        assert(items.take(i) == items);
    } else {
        assert(items.take(i + 1).drop_last() == items.take(i));
        lemma_import_funcs_prefix(items, sigs, i + 1);
    }
}

/// Once a prefix of the signature indices fails, so do all of them.
proof fn lemma_declare_prefix(ix: Seq<u32>, sigs: Seq<FuncTypeView>, i: int)
    requires
        0 <= i <= ix.len(),
        spec_declare(ix.take(i), sigs) is Err,
    ensures
        spec_declare(ix, sigs) == spec_declare(ix.take(i), sigs),
    decreases ix.len() - i,
{
    if i == ix.len() {
        assert(ix.take(i) == ix);
    } else {
        assert(ix.take(i + 1).drop_last() == ix.take(i));
        lemma_declare_prefix(ix, sigs, i + 1);
    }
}

/// The module being read, with the counts of function bodies and the
/// nesting of modules and components.
struct Builder {
    module: WasmModule,
    tot_func: u32,
    n_func: usize,
    nesting: Vec<bool>,
}

impl View for Builder {
    type V = ParseState;

    closed spec fn view(&self) -> ParseState {
        ParseState {
            module: self.module@,
            tot_func: self.tot_func as nat,
            n_func: self.n_func as nat,
            nesting: self.nesting@,
        }
    }
}

/// The signatures of the recursion groups of a type section, as the type
/// section reader gives them: each group must be an implicit group of one
/// function type.
pub fn sigs_from_groups(groups: &Vec<(bool, Option<(Vec<String>, Vec<String>)>)>) -> (res: Result<Vec<FuncType>, ParseError>)
    ensures
        match spec_type_section(func_types_view(groups@)) {
            Ok(sigs) => res is Ok && super::wasm_module::sigs_view(res->Ok_0@) == sigs,
            Err(e) => res == Err::<Vec<FuncType>, ParseError>(e),
        },
{
    let ghost g = func_types_view(groups@);
    let mut sigs: Vec<FuncType> = Vec::new();
    let mut i: usize = 0;
    assert(g.take(0) == Seq::<(bool, Option<(Seq<Seq<char>>, Seq<Seq<char>>)>)>::empty());
    assert(super::wasm_module::sigs_view(sigs@) =~= Seq::<FuncTypeView>::empty());
    while i < groups.len()
        invariant
            i <= groups@.len(),
            g == func_types_view(groups@),
            spec_type_section(g.take(i as int)) == Ok::<Seq<FuncTypeView>, ParseError>(
                super::wasm_module::sigs_view(sigs@),
            ),
        decreases groups.len() - i,
    {
        assert(g.take(i + 1).drop_last() == g.take(i as int));
        assert(g.take(i + 1).last() == g[i as int]);
        let (explicit, func) = &groups[i];
        if *explicit {
            proof {
                lemma_type_section_prefix(g, i + 1);
            }
            return Err(ParseError::Unsupported);
        }
        match func {
            Some((p, r)) => {
                let f = FuncType { params: valtypes_from_names(p), results: valtypes_from_names(r) };
                sigs.push(f);
                assert(super::wasm_module::sigs_view(sigs@) =~= spec_type_section(g.take(i + 1)).unwrap());
            },
            None => {
                proof {
                    lemma_type_section_prefix(g, i + 1);
                }
                return Err(ParseError::Unsupported);
            },
        }
        i += 1;
    }
    assert(g.take(i as int) == g);
    Ok(sigs)
}

/// Counts the imported functions, tables, memories and globals of the
/// imports of an import section; tags and exact function imports are not
/// supported, and no count may pass 2^32 - 1.
pub fn import_counts(items: &Vec<Import>) -> (res: Result<(u32, u32, u32, u32), ParseError>)
    ensures
        match res {
            Ok((nf, nt, nm, ng)) => spec_import_set(super::components::imports_view(items@)) == Ok::<ImportSetView, ParseError>(
                ImportSetView {
                    imports: super::components::imports_view(items@),
                    num_funcs: nf,
                    num_tables: nt,
                    num_mems: nm,
                    num_globals: ng,
                },
            ),
            Err(e) => spec_import_set(super::components::imports_view(items@)) == Err::<ImportSetView, ParseError>(e),
        },
{
    let ghost iv = super::components::imports_view(items@);
    let mut nf: u32 = 0;
    let mut nt: u32 = 0;
    let mut nm: u32 = 0;
    let mut ng: u32 = 0;
    let mut i: usize = 0;
    assert(iv.take(0) =~= Seq::<ImportView>::empty());
    while i < items.len()
        invariant
            i <= items@.len(),
            iv == super::components::imports_view(items@),
            spec_import_set(iv.take(i as int)) == Ok::<ImportSetView, ParseError>(
                ImportSetView { imports: iv.take(i as int), num_funcs: nf, num_tables: nt, num_mems: nm, num_globals: ng },
            ),
        decreases items.len() - i,
    {
        assert(iv.take(i + 1).drop_last() == iv.take(i as int));
        assert(iv.take(i + 1).last() == iv[i as int]);
        assert(iv.take(i as int).push(iv[i as int]) == iv.take(i + 1));
        match items[i].ty {
            TypeRef::Func(_) => {
                if nf == u32::MAX {
                    proof { lemma_import_set_prefix(iv, i + 1); }
                    return Err(ParseError::TooManyImports);
                }
                nf += 1;
            },
            TypeRef::Table => {
                if nt == u32::MAX {
                    proof { lemma_import_set_prefix(iv, i + 1); }
                    return Err(ParseError::TooManyImports);
                }
                nt += 1;
            },
            TypeRef::Memory => {
                if nm == u32::MAX {
                    proof { lemma_import_set_prefix(iv, i + 1); }
                    return Err(ParseError::TooManyImports);
                }
                nm += 1;
            },
            TypeRef::Global => {
                if ng == u32::MAX {
                    proof { lemma_import_set_prefix(iv, i + 1); }
                    return Err(ParseError::TooManyImports);
                }
                ng += 1;
            },
            _ => {
                proof { lemma_import_set_prefix(iv, i + 1); }
                return Err(ParseError::Unsupported);
            },
        }
        i += 1;
    }
    assert(iv.take(i as int) == iv);
    Ok((nf, nt, nm, ng))
}

/// A function of the signature each imported function names, in order;
/// every import must be a function.
pub fn import_funcs(items: &Vec<Import>, sigs: &Vec<FuncType>) -> (res: Result<Vec<FuncDecl>, ParseError>)
    ensures
        match spec_import_funcs(super::components::imports_view(items@), super::wasm_module::sigs_view(sigs@)) {
            Ok(fs) => res is Ok && super::wasm_module::funcs_view(res->Ok_0@) == fs,
            Err(e) => res == Err::<Vec<FuncDecl>, ParseError>(e),
        },
{
    let ghost iv = super::components::imports_view(items@);
    let ghost sv = super::wasm_module::sigs_view(sigs@);
    let mut fs: Vec<FuncDecl> = Vec::new();
    let mut j: usize = 0;
    assert(super::wasm_module::funcs_view(fs@) =~= Seq::<FuncDeclView>::empty());
    while j < items.len()
        invariant
            j <= items@.len(),
            iv == super::components::imports_view(items@),
            sv == super::wasm_module::sigs_view(sigs@),
            spec_import_funcs(iv.take(j as int), sv) == Ok::<Seq<FuncDeclView>, ParseError>(
                super::wasm_module::funcs_view(fs@),
            ),
        decreases items.len() - j,
    {
        assert(iv.take(j + 1).drop_last() == iv.take(j as int));
        assert(iv.take(j + 1).last() == iv[j as int]);
        match items[j].ty {
            TypeRef::Func(k) => {
                if (k as usize) < sigs.len() {
                    fs.push(FuncDecl::new(sigs[k as usize].clone()));
                    assert(super::wasm_module::funcs_view(fs@) =~= spec_import_funcs(iv.take(j + 1), sv).unwrap());
                } else {
                    proof { lemma_import_funcs_prefix(iv, sv, j + 1); }
                    return Err(ParseError::SignatureNotFound);
                }
            },
            _ => {
                proof { lemma_import_funcs_prefix(iv, sv, j + 1); }
                return Err(ParseError::Unsupported);
            },
        }
        j += 1;
    }
    assert(iv.take(j as int) == iv);
    Ok(fs)
}

/// The globals of a global section, from each one's type name, mutability
/// and initializer bytes.
pub fn globals_from(gs: &Vec<(String, bool, Vec<u8>)>) -> (res: Vec<GlobalDecl>)
    ensures
        super::wasm_module::globals_view(res@) == spec_globals(globals_read_view(gs@)),
{
    let ghost gv = globals_read_view(gs@);
    let mut globals: Vec<GlobalDecl> = Vec::new();
    let mut i: usize = 0;
    while i < gs.len()
        invariant
            i <= gs@.len(),
            gv == globals_read_view(gs@),
            super::wasm_module::globals_view(globals@) == spec_globals(gv).take(i as int),
        decreases gs.len() - i,
    {
        let (name, mutable, init) = &gs[i];
        let ty = GlobalType { content_type: valtype_from_name(name), mutable: *mutable };
        let init = copy_from(init, 0);
        assert(init@ == gs@[i as int].2@.skip(0));
        assert(gs@[i as int].2@.skip(0) == gs@[i as int].2@);
        let g = GlobalDecl::new(ty, init);
        assert(g@ == spec_globals(gv)[i as int]);
        let ghost before = super::wasm_module::globals_view(globals@);
        globals.push(g);
        assert(super::wasm_module::globals_view(globals@) =~= before.push(g@));
        i += 1;
        assert(super::wasm_module::globals_view(globals@) =~= spec_globals(gv).take(i as int));
    }
    assert(spec_globals(gv).take(i as int) == spec_globals(gv));
    globals
}

/// The element segments of an element section, from each one's kind and
/// function list; the two lists must be equally long.
pub fn elements_from(kinds: Vec<ElementKind>, funcs: Vec<Option<Vec<u32>>>) -> (res: Result<Vec<Element>, ParseError>)
    ensures
        match spec_elements(element_kinds_view(kinds@), element_funcs_view(funcs@)) {
            Ok(es) => res is Ok && super::wasm_module::elems_view(res->Ok_0@) == es,
            Err(e) => res == Err::<Vec<Element>, ParseError>(e),
        },
{
    let mut kinds = kinds;
    let mut funcs = funcs;
    let ghost kv = element_kinds_view(kinds@);
    let ghost fv = element_funcs_view(funcs@);
    let n = kinds.len();
    if n != funcs.len() {
        return Err(ParseError::Malformed);
    }
    let mut elems: Vec<Element> = Vec::new();
    let mut i: usize = 0;
    while i < n
        invariant
            i <= n,
            n == kinds@.len(),
            n == funcs@.len(),
            kv.len() == n,
            fv.len() == n,
            forall|j: int| i <= j < n ==> element_kind_view(#[trigger] kinds@[j]) == kv[j],
            forall|j: int|
                i <= j < n ==> (match #[trigger] funcs@[j] {
                    Some(f) => Some(f@),
                    None => None,
                }) == fv[j],
            super::wasm_module::elems_view(elems@) == spec_elements(kv, fv).unwrap().take(i as int),
        decreases n - i,
    {
        let mut k = ElementKind::Passive;
        kinds.set_and_swap(i, &mut k);
        let mut f: Option<Vec<u32>> = None;
        funcs.set_and_swap(i, &mut f);
        let items = match f {
            Some(v) => ElementItems::Functions(v),
            None => ElementItems::Expressions,
        };
        let e = Element { kind: k, items };
        assert(e@ == spec_elements(kv, fv).unwrap()[i as int]);
        let ghost before = super::wasm_module::elems_view(elems@);
        elems.push(e);
        assert(super::wasm_module::elems_view(elems@) =~= before.push(e@));
        i += 1;
        assert(super::wasm_module::elems_view(elems@) =~= spec_elements(kv, fv).unwrap().take(i as int));
    }
    assert(spec_elements(kv, fv).unwrap().take(n as int) == spec_elements(kv, fv).unwrap());
    Ok(elems)
}

/// The outcome of a reading step agrees with its specification.
pub open spec fn step_agrees(res: Result<(), ParseError>, new: ParseState, spec: Result<ParseState, ParseError>) -> bool {
    match spec {
        Ok(s2) => res is Ok && new == s2,
        Err(e) => res == Err::<(), ParseError>(e),
    }
}

impl Builder {
    /// The type section: the module's signatures.
    fn type_section(&mut self, bytes: &[u8], start: usize, end: usize) -> (res: Result<(), ParseError>)
        requires
            start <= end <= bytes@.len(),
        ensures
            step_agrees(res, final(self)@, spec_section(bytes@, old(self)@, 1, start as nat, end as nat)),
    {
        let groups = read_func_types(bytes, start, end)?;
        let sigs = sigs_from_groups(&groups)?;
        self.module.set_sigs(sigs);
        Ok(())
    }
}

/// The first 32-bit count of the section contents `start..end`.
fn section_count_at(bytes: &[u8], start: usize, end: usize) -> (res: Result<u32, ParseError>)
    requires
        start <= end <= bytes@.len(),
    ensures
        match section_count(bytes@, start as nat, end as nat) {
            Some(c) => res == Ok::<u32, ParseError>(c),
            None => res == Err::<u32, ParseError>(ParseError::Malformed),
        },
{
    let contents = &bytes[start..end];
    assert(contents@.skip(0) == contents@);
    match read_var_u32_at(contents, 0) {
        Ok((c, _)) => Ok(c),
        Err(_) => Err(ParseError::Malformed),
    }
}

/// Declares a function of signature `sigs[ix]` for each index `ix` of a
/// function section.
pub fn declare(ix: &Vec<u32>, sigs: &Vec<FuncType>) -> (res: Result<Vec<FuncDecl>, ParseError>)
    ensures
        match spec_declare(ix@, super::wasm_module::sigs_view(sigs@)) {
            Ok(fs) => (res is Ok) && super::wasm_module::funcs_view(res.unwrap()@) == fs,
            Err(e) => res == Err::<Vec<FuncDecl>, ParseError>(e),
        },
{
    let ghost sv = super::wasm_module::sigs_view(sigs@);
    let mut fs: Vec<FuncDecl> = Vec::new();
    let mut i: usize = 0;
    assert(ix@.take(0) == Seq::<u32>::empty());
    assert(super::wasm_module::funcs_view(fs@) =~= Seq::<FuncDeclView>::empty());
    while i < ix.len()
        invariant
            i <= ix@.len(),
            sv == super::wasm_module::sigs_view(sigs@),
            spec_declare(ix@.take(i as int), sv) == Ok::<Seq<FuncDeclView>, ParseError>(
                super::wasm_module::funcs_view(fs@),
            ),
        decreases ix.len() - i,
    {
        assert(ix@.take(i + 1).drop_last() == ix@.take(i as int));
        assert(ix@.take(i + 1).last() == ix@[i as int]);
        let k = ix[i];
        if (k as usize) < sigs.len() {
            let f = FuncDecl::new(sigs[k as usize].clone());
            fs.push(f);
            assert(super::wasm_module::funcs_view(fs@) =~= spec_declare(ix@.take(i + 1), sv).unwrap());
        } else {
            proof {
                lemma_declare_prefix(ix@, sv, i + 1);
            }
            return Err(ParseError::SignatureNotFound);
        }
        i += 1;
    }
    assert(ix@.take(i as int) == ix@);
    Ok(fs)
}

impl Builder {
    /// The import section: the module's imports, and a function for each
    /// imported function.
    fn import_section(&mut self, bytes: &[u8], start: usize, end: usize) -> (res: Result<(), ParseError>)
        requires
            start <= end <= bytes@.len(),
        ensures
            step_agrees(res, final(self)@, spec_section(bytes@, old(self)@, 2, start as nat, end as nat)),
    {
        let items = read_imports(bytes, start, end)?;
        let (nf, nt, nm, ng) = import_counts(&items)?;
        let fs = import_funcs(&items, self.module.get_sigs())?;
        self.module.set_imports(ImportSet { imports: items, num_funcs: nf, num_tables: nt, num_mems: nm, num_globals: ng });
        self.module.extend_funcs(fs);
        Ok(())
    }

    /// The function section: a function for each signature index.
    fn function_section(&mut self, bytes: &[u8], start: usize, end: usize) -> (res: Result<(), ParseError>)
        requires
            start <= end <= bytes@.len(),
        ensures
            step_agrees(res, final(self)@, spec_section(bytes@, old(self)@, 3, start as nat, end as nat)),
    {
        if self.module.get_funcs().len() != self.module.get_num_imports() {
            return Err(ParseError::MalformedFuncImports);
        }
        let ix = read_func_indices(bytes, start, end)?;
        let fs = declare(&ix, self.module.get_sigs())?;
        self.module.extend_funcs(fs);
        Ok(())
    }
}

/// Copies the bytes of `v` from position `pos` on.
fn copy_from(v: &Vec<u8>, pos: usize) -> (res: Vec<u8>)
    requires
        pos <= v@.len(),
    ensures
        res@ == v@.skip(pos as int),
{
    let mut out: Vec<u8> = Vec::new();
    let mut i: usize = pos;
    while i < v.len()
        invariant
            pos <= i <= v@.len(),
            out@ == v@.subrange(pos as int, i as int),
        decreases v.len() - i,
    {
        out.push(v[i]);
        i += 1;
        assert(out@ == v@.subrange(pos as int, i as int));
    }
    out
}

/// Reads a function body: its local declarations (pairs of a count and a
/// value type, at most 2^32 - 1 locals in all) and its instructions.
pub fn parse_code_body(body: &Vec<u8>) -> (res: Result<(Vec<(u32, ValType)>, Vec<Instruction>), ParseError>)
    ensures
        match spec_code_body(body@) {
            Ok((locals, insts)) => (res is Ok) && res.unwrap().0@ == locals && super::insts::insts_view(res.unwrap().1@) == insts,
            Err(e) => res matches Err(x) && x == e,
        },
{
    let b = body.as_slice();
    let blen = b.len();
    assert(b@.skip(0) == b@);
    let (count, l0) = match read_var_u32_at(b, 0) {
        Ok(r) => r,
        Err(_) => return Err(ParseError::Malformed),
    };
    proof {
        super::reader::lemma_read_len_bound(body@, 0u8, 0);
    }
    let mut locals: Vec<(u32, ValType)> = Vec::new();
    let mut pos: usize = l0;
    let mut total: u32 = 0;
    let mut k: u32 = 0;
    while k < count
        invariant
            k <= count,
            pos <= body@.len(),
            b@ == body@,
            blen == body@.len(),
            spec_read_var_u32(body@) == Some((count, l0 as nat)),
            spec_read_locals(body@, l0 as nat, count as nat, 0) == match spec_read_locals(
                body@,
                pos as nat,
                (count - k) as nat,
                total as nat,
            ) {
                Ok((rest, p)) => Ok((locals@ + rest, p)),
                Err(e) => Err::<(Seq<(u32, ValType)>, nat), ParseError>(e),
            },
        decreases count - k,
    {
        let (n, l1) = match read_var_u32_at(b, pos) {
            Ok(r) => r,
            Err(_) => return Err(ParseError::Malformed),
        };
        proof {
            super::reader::lemma_read_len_bound(body@.skip(pos as int), 0u8, 0);
        }
        let t2 = match total.checked_add(n) {
            Some(t) => t,
            None => return Err(ParseError::TooManyLocals),
        };
        let (t, l2) = match read_valtype_at(b, pos + l1) {
            Ok(r) => r,
            Err(_) => return Err(ParseError::Malformed),
        };
        proof {
            assert(body@.skip(pos as int).skip(l1 as int) == body@.skip(pos + l1));
            assert forall|rest: Seq<(u32, ValType)>| locals@ + (seq![(n, t)] + rest) == locals@.push((n, t)) + rest by {
                assert(locals@ + (seq![(n, t)] + rest) == locals@.push((n, t)) + rest);
            }
        }
        locals.push((n, t));
        pos = pos + l1 + l2;
        total = t2;
        k += 1;
    }
    assert(locals@ + Seq::<(u32, ValType)>::empty() == locals@);
    let code = copy_from(body, pos);
    match Instruction::from_code_bytes(code) {
        Ok(insts) => Ok((locals, insts)),
        Err(d) => Err(ParseError::Decode(d)),
    }
}

impl Builder {
    /// The table section: the module's tables.
    fn table_section(&mut self, bytes: &[u8], start: usize, end: usize) -> (res: Result<(), ParseError>)
        requires
            start <= end <= bytes@.len(),
        ensures
            step_agrees(res, final(self)@, spec_section(bytes@, old(self)@, 4, start as nat, end as nat)),
    {
        let tables = read_tables(bytes, start, end)?;
        self.module.set_tables(tables);
        Ok(())
    }

    /// The memory section: the module's one memory.
    fn memory_section(&mut self, bytes: &[u8], start: usize, end: usize) -> (res: Result<(), ParseError>)
        requires
            start <= end <= bytes@.len(),
        ensures
            step_agrees(res, final(self)@, spec_section(bytes@, old(self)@, 5, start as nat, end as nat)),
    {
        if section_count_at(bytes, start, end)? != 1 {
            return Err(ParseError::MultipleMemories);
        }
        let mems = read_memories(bytes, start, end)?;
        self.module.set_mems(mems);
        Ok(())
    }

    /// The global section: the module's globals.
    fn global_section(&mut self, bytes: &[u8], start: usize, end: usize) -> (res: Result<(), ParseError>)
        requires
            start <= end <= bytes@.len(),
        ensures
            step_agrees(res, final(self)@, spec_section(bytes@, old(self)@, 6, start as nat, end as nat)),
    {
        let gs = read_globals(bytes, start, end)?;
        let globals = globals_from(&gs);
        self.module.set_globals(globals);
        Ok(())
    }

    /// The export section: the module's exports.
    fn export_section(&mut self, bytes: &[u8], start: usize, end: usize) -> (res: Result<(), ParseError>)
        requires
            start <= end <= bytes@.len(),
        ensures
            step_agrees(res, final(self)@, spec_section(bytes@, old(self)@, 7, start as nat, end as nat)),
    {
        let exports = read_exports(bytes, start, end)?;
        self.module.set_exports(exports);
        Ok(())
    }

    /// The start section: the module's start function.
    fn start_section(&mut self, bytes: &[u8], start: usize, end: usize) -> (res: Result<(), ParseError>)
        requires
            start <= end <= bytes@.len(),
        ensures
            step_agrees(res, final(self)@, spec_section(bytes@, old(self)@, 8, start as nat, end as nat)),
    {
        let func = section_count_at(bytes, start, end)?;
        self.module.set_start_func(func);
        Ok(())
    }

    /// The data count section: how many data segments the module has.
    fn data_count_section(&mut self, bytes: &[u8], start: usize, end: usize) -> (res: Result<(), ParseError>)
        requires
            start <= end <= bytes@.len(),
        ensures
            step_agrees(res, final(self)@, spec_section(bytes@, old(self)@, 12, start as nat, end as nat)),
    {
        let count = section_count_at(bytes, start, end)?;
        self.module.set_data_count(count);
        Ok(())
    }

    /// The data section: the module's data segments, as many as a data count
    /// section announced.
    fn data_section(&mut self, bytes: &[u8], start: usize, end: usize) -> (res: Result<(), ParseError>)
        requires
            start <= end <= bytes@.len(),
        ensures
            step_agrees(res, final(self)@, spec_section(bytes@, old(self)@, 11, start as nat, end as nat)),
    {
        if let Some(c) = self.module.get_data_count() {
            if section_count_at(bytes, start, end)? != c {
                return Err(ParseError::DataCountMismatch);
            }
        }
        let datas = read_datas(bytes, start, end)?;
        self.module.set_datas(datas);
        Ok(())
    }
}

impl Builder {
    /// The element section: the module's element segments.
    fn element_section(&mut self, bytes: &[u8], start: usize, end: usize) -> (res: Result<(), ParseError>)
        requires
            start <= end <= bytes@.len(),
        ensures
            step_agrees(res, final(self)@, spec_section(bytes@, old(self)@, 9, start as nat, end as nat)),
    {
        let kinds = read_element_kinds(bytes, start, end)?;
        let funcs = read_element_funcs(bytes, start, end)?;
        let elems = elements_from(kinds, funcs)?;
        self.module.set_elems(elems);
        Ok(())
    }

    /// The code section: installs each function body in the next function
    /// after the imports and the bodies already read.
    fn code_section(&mut self, bytes: &[u8], start: usize, end: usize) -> (res: Result<(), ParseError>)
        requires
            start <= end <= bytes@.len(),
        ensures
            step_agrees(res, final(self)@, spec_section(bytes@, old(self)@, 10, start as nat, end as nat)),
    {
        let count = section_count_at(bytes, start, end)?;
        let bodies = read_code_bodies(bytes, start, end)?;
        self.tot_func = count;
        let ghost bv = bytes_view(bodies@);
        let mut i: usize = 0;
        assert(bv.skip(0) == bv);
        while i < bodies.len()
            invariant
                i <= bodies@.len(),
                bv == bytes_view(bodies@),
                spec_section(bytes@, old(self)@, 10, start as nat, end as nat) == spec_add_bodies(
                    self@,
                    bv.skip(i as int),
                ),
            decreases bodies.len() - i,
        {
            assert(bv.skip(i as int)[0] == bodies@[i as int]@);
            assert(bv.skip(i as int).drop_first() == bv.skip(i + 1));
            let nfuncs = self.module.get_funcs().len();
            let idx = match self.n_func.checked_add(self.module.get_num_imports()) {
                Some(x) => x,
                None => return Err(ParseError::FunctionNotFound),
            };
            if idx >= nfuncs {
                return Err(ParseError::FunctionNotFound);
            }
            let body = parse_code_body(&bodies[i])?;
            self.module.set_func_body(idx, body);
            self.n_func = self.n_func + 1;
            i += 1;
        }
        Ok(())
    }

    /// Reads one payload.
    fn payload(&mut self, bytes: &[u8], p: Payload) -> (res: Result<(), ParseError>)
        ensures
            step_agrees(res, final(self)@, spec_payload(bytes@, old(self)@, p)),
    {
        match p {
            Payload::Version { component } => {
                self.nesting.push(component);
                Ok(())
            },
            Payload::End => {
                self.nesting.pop();
                Ok(())
            },
            Payload::Unknown { .. } => Err(ParseError::UnknownSection),
            Payload::Other => Ok(()),
            Payload::Section { id, start, end } => {
                let depth = self.nesting.len();
                if depth > 0 && self.nesting[depth - 1] {
                    return Ok(());
                }
                if !(start <= end && end <= bytes.len()) {
                    return Err(ParseError::Malformed);
                }
                match id {
                    1 => self.type_section(bytes, start, end),
                    2 => self.import_section(bytes, start, end),
                    3 => self.function_section(bytes, start, end),
                    4 => self.table_section(bytes, start, end),
                    5 => self.memory_section(bytes, start, end),
                    6 => self.global_section(bytes, start, end),
                    7 => self.export_section(bytes, start, end),
                    8 => self.start_section(bytes, start, end),
                    9 => self.element_section(bytes, start, end),
                    10 => self.code_section(bytes, start, end),
                    11 => self.data_section(bytes, start, end),
                    12 => self.data_count_section(bytes, start, end),
                    _ => Ok(()),
                }
            },
        }
    }
}

impl WasmModule {
    /// The module that the payloads `payloads` of the binary `bytes` describe.
    pub fn from_payloads(bytes: &[u8], payloads: &Vec<Payload>) -> (res: Result<WasmModule, ParseError>)
        ensures
            match spec_module_of(bytes@, payloads@) {
                Ok(m) => (res is Ok) && res.unwrap()@ == m,
                Err(e) => res matches Err(x) && x == e,
            },
    {
        let mut b = Builder { module: WasmModule::new(), tot_func: 0, n_func: 0, nesting: Vec::new() };
        let mut i: usize = 0;
        assert(b@ == initial_state());
        assert(payloads@.skip(0) == payloads@);
        while i < payloads.len()
            invariant
                i <= payloads@.len(),
                spec_payloads(bytes@, payloads@, initial_state()) == spec_payloads(bytes@, payloads@.skip(i as int), b@),
            decreases payloads.len() - i,
        {
            assert(payloads@.skip(i as int)[0] == payloads@[i as int]);
            assert(payloads@.skip(i as int).drop_first() == payloads@.skip(i + 1));
            b.payload(bytes, payloads[i])?;
            i += 1;
        }
        assert(payloads@.skip(i as int).len() == 0);
        if b.n_func != b.tot_func as usize {
            return Err(ParseError::FunctionCountMismatch);
        }
        Ok(b.module)
    }

    /// Reads a module from its binary.
    pub fn from_bytecode(bytes: &[u8]) -> (res: Result<WasmModule, ParseError>)
        ensures
            match spec_from_bytecode(bytes@) {
                Ok(m) => (res is Ok) && res.unwrap()@ == m,
                Err(e) => res matches Err(x) && x == e,
            },
    {
        let payloads = read_payloads(bytes)?;
        Self::from_payloads(bytes, &payloads)
    }
}

} // verus!
