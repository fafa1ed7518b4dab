//! Parts of a module: function signatures and declarations, globals, imports,
//! tables, memories, exports, element and data segments.
use vstd::prelude::*;

use super::insts::{insts_view, InstView, Instruction};
use super::value_type::ValType;

verus! {

/// A function signature.
pub struct FuncType {
    pub params: Vec<ValType>,
    pub results: Vec<ValType>,
}

/// A function signature as sequences of value types.
#[verifier::ext_equal]
pub struct FuncTypeView {
    pub params: Seq<ValType>,
    pub results: Seq<ValType>,
}

impl View for FuncType {
    type V = FuncTypeView;

    open spec fn view(&self) -> FuncTypeView {
        FuncTypeView { params: self.params@, results: self.results@ }
    }
}

/// Copies a vector of plain values.
pub fn copy_vec<T: Copy>(v: &Vec<T>) -> (res: Vec<T>)
    ensures
        res@ == v@,
{
    let mut out: Vec<T> = Vec::new();
    let mut i: usize = 0;
    while i < v.len()
        invariant
            i <= v.len(),
            out@ == v@.subrange(0, i as int),
        decreases v.len() - i,
    {
        out.push(v[i]);
        i += 1;
    }
    assert(out@ == v@);
    out
}

/// Whether two sequences of value types are equal.
pub fn same_valtypes(a: &Vec<ValType>, b: &Vec<ValType>) -> (res: bool)
    ensures
        res == (a@ == b@),
{
    if a.len() != b.len() {
        return false;
    }
    let mut i: usize = 0;
    while i < a.len()
        invariant
            i <= a.len(),
            a.len() == b.len(),
            forall|k: int| 0 <= k < i ==> a@[k] == b@[k],
        decreases a.len() - i,
    {
        if a[i] != b[i] {
            return false;
        }
        i += 1;
    }
    assert(a@ == b@);
    true
}

impl FuncType {
    /// Whether two signatures are the same.
    pub fn same_as(&self, other: &FuncType) -> (res: bool)
        ensures
            res == (self@ == other@),
    {
        same_valtypes(&self.params, &other.params) && same_valtypes(&self.results, &other.results)
    }
}

impl Clone for FuncType {
    fn clone(&self) -> (res: Self)
        ensures
            res@ == self@,
    {
        FuncType { params: copy_vec(&self.params), results: copy_vec(&self.results) }
    }
}

/// What an import brings in.
#[derive(Debug, Clone, Copy, PartialEq, Eq, Structural)]
pub enum TypeRef {
    /// A function of the given signature index.
    Func(u32),
    Table,
    Memory,
    Global,
    Tag,
    /// A function of exactly the given signature index.
    FuncExact(u32),
}

/// One import of the module.
pub struct Import {
    pub module: String,
    pub name: String,
    pub ty: TypeRef,
}

/// An import as a mathematical value.
pub struct ImportView {
    pub module: Seq<char>,
    pub name: Seq<char>,
    pub ty: TypeRef,
}

impl View for Import {
    type V = ImportView;

    open spec fn view(&self) -> ImportView {
        ImportView { module: self.module@, name: self.name@, ty: self.ty }
    }
}

/// The imports of a module, with the number of each kind.
pub struct ImportSet {
    pub imports: Vec<Import>,
    pub num_funcs: u32,
    pub num_tables: u32,
    pub num_mems: u32,
    pub num_globals: u32,
}

/// An import set as a mathematical value.
#[verifier::ext_equal]
pub struct ImportSetView {
    pub imports: Seq<ImportView>,
    pub num_funcs: u32,
    pub num_tables: u32,
    pub num_mems: u32,
    pub num_globals: u32,
}

/// The views of a sequence of imports.
pub open spec fn imports_view(v: Seq<Import>) -> Seq<ImportView> {
    v.map_values(|i: Import| i@)
}

impl View for ImportSet {
    type V = ImportSetView;

    open spec fn view(&self) -> ImportSetView {
        ImportSetView {
            imports: imports_view(self.imports@),
            num_funcs: self.num_funcs,
            num_tables: self.num_tables,
            num_mems: self.num_mems,
            num_globals: self.num_globals,
        }
    }
}

impl ImportSet {
    /// An empty import set.
    pub fn new() -> (res: Self)
        ensures
            res@ == (ImportSetView {
                imports: Seq::empty(),
                num_funcs: 0,
                num_tables: 0,
                num_mems: 0,
                num_globals: 0,
            }),
    {
        let res = ImportSet { imports: Vec::new(), num_funcs: 0, num_tables: 0, num_mems: 0, num_globals: 0 };
        assert(res@.imports =~= Seq::<ImportView>::empty());
        res
    }

    pub fn get_num_imports(&self) -> (res: usize)
        ensures
            res == self@.imports.len(),
    {
        self.imports.len()
    }
}

/// A function: its signature, its declared locals (count and type) and its body.
pub struct FuncDecl {
    sig: FuncType,
    pure_locals: Vec<(u32, ValType)>,
    insts: Vec<Instruction>,
}

#[verifier::ext_equal]
pub struct FuncDeclView {
    pub sig: FuncTypeView,
    pub pure_locals: Seq<(u32, ValType)>,
    pub insts: Seq<InstView>,
}

impl View for FuncDecl {
    type V = FuncDeclView;

    closed spec fn view(&self) -> FuncDeclView {
        FuncDeclView {
            sig: self.sig@,
            pure_locals: self.pure_locals@,
            insts: insts_view(self.insts@),
        }
    }
}

impl FuncDecl {
    /// A function of the given signature with no locals and an empty body.
    pub fn new(sig: FuncType) -> (res: Self)
        ensures
            res@ == (FuncDeclView { sig: sig@, pure_locals: Seq::empty(), insts: Seq::empty() }),
    {
        let res = Self { sig, pure_locals: Vec::new(), insts: Vec::new() };
        assert(insts_view(res.insts@) == Seq::<InstView>::empty());
        res
    }

    pub fn get_sig(&self) -> (res: &FuncType)
        ensures
            res@ == self@.sig,
    {
        &self.sig
    }

    pub fn get_pure_locals(&self) -> (res: &[(u32, ValType)])
        ensures
            res@ == self@.pure_locals,
    {
        self.pure_locals.as_slice()
    }

    pub fn get_insts(&self) -> (res: &Vec<Instruction>)
        ensures
            insts_view(res@) == self@.insts,
    {
        &self.insts
    }

    pub fn get_inst(&self, idx: usize) -> (res: &Instruction)
        requires
            idx < self@.insts.len(),
        ensures
            res@ == self@.insts[idx as int],
    {
        &self.insts[idx]
    }

    /// Installs the locals and the instructions of the function's body.
    pub fn add_func_body(&mut self, func_body: (Vec<(u32, ValType)>, Vec<Instruction>))
        ensures
            final(self)@ == (FuncDeclView {
                sig: old(self)@.sig,
                pure_locals: func_body.0@,
                insts: insts_view(func_body.1@),
            }),
    {
        self.pure_locals = func_body.0;
        self.insts = func_body.1;
    }
}

impl Clone for FuncDecl {
    fn clone(&self) -> (res: Self)
        ensures
            res@ == self@,
    {
        let mut insts: Vec<Instruction> = Vec::new();
        let mut i: usize = 0;
        while i < self.insts.len()
            invariant
                i <= self.insts.len(),
                insts_view(insts@) == insts_view(self.insts@).subrange(0, i as int),
            decreases self.insts.len() - i,
        {
            let inst = self.insts[i].clone();
            assert(insts_view(insts@.push(inst)) == insts_view(insts@).push(inst@));
            insts.push(inst);
            i += 1;
        }
        assert(insts_view(self.insts@).subrange(0, i as int) == insts_view(self.insts@));
        FuncDecl { sig: self.sig.clone(), pure_locals: copy_vec(&self.pure_locals), insts }
    }
}

/// The type of a global.
#[derive(Debug, Clone, Copy, PartialEq, Eq, Structural)]
pub struct GlobalType {
    pub content_type: ValType,
    pub mutable: bool,
}

/// A global and the bytes of its constant initializer.
pub struct GlobalDecl {
    ty: GlobalType,
    init_expr: Vec<u8>,
}

#[verifier::ext_equal]
pub struct GlobalDeclView {
    pub ty: GlobalType,
    pub init_expr: Seq<u8>,
}

impl View for GlobalDecl {
    type V = GlobalDeclView;

    closed spec fn view(&self) -> GlobalDeclView {
        GlobalDeclView { ty: self.ty, init_expr: self.init_expr@ }
    }
}

impl GlobalDecl {
    pub fn new(ty: GlobalType, init_expr: Vec<u8>) -> (res: Self)
        ensures
            res@ == (GlobalDeclView { ty, init_expr: init_expr@ }),
    {
        Self { ty, init_expr }
    }

    pub fn get_ty(&self) -> (res: &GlobalType)
        ensures
            *res == self@.ty,
    {
        &self.ty
    }

    pub fn get_init_expr(&self) -> (res: &Vec<u8>)
        ensures
            res@ == self@.init_expr,
    {
        &self.init_expr
    }

    pub fn set_init_expr(&mut self, init_expr: Vec<u8>)
        ensures
            final(self)@ == (GlobalDeclView { ty: old(self)@.ty, init_expr: init_expr@ }),
    {
        self.init_expr = init_expr;
    }
}

/// Limits of a table.
#[derive(Debug, Clone, Copy, PartialEq, Eq, Structural)]
pub struct TableType {
    pub initial: u64,
    pub maximum: Option<u64>,
}

/// Limits of a linear memory, in pages.
#[derive(Debug, Clone, Copy, PartialEq, Eq, Structural)]
pub struct MemoryType {
    pub initial: u64,
    pub maximum: Option<u64>,
}

/// Kinds of exported items.
#[derive(Debug, Clone, Copy, PartialEq, Eq, Structural)]
pub enum ExternalKind {
    Func,
    Table,
    Memory,
    Global,
    Tag,
    FuncExact,
}

/// One export of the module.
pub struct Export {
    pub name: String,
    pub kind: ExternalKind,
    pub index: u32,
}

/// How an element segment is placed.
pub enum ElementKind {
    Passive,
    /// Placed in a table at the offset its constant expression computes; the
    /// table index is absent in the encodings that imply table 0.
    Active { table_index: Option<u32>, offset_expr: Vec<u8> },
    Declared,
}

/// The items of an element segment.
pub enum ElementItems {
    Functions(Vec<u32>),
    Expressions,
}

/// An element segment.
pub struct Element {
    pub kind: ElementKind,
    pub items: ElementItems,
}

/// An element segment as a mathematical value.
pub enum ElementKindView {
    Passive,
    Active { table_index: Option<u32>, offset_expr: Seq<u8> },
    Declared,
}

#[verifier::ext_equal]
pub struct ElementView {
    pub kind: ElementKindView,
    /// The function indices, for a segment of functions.
    pub funcs: Option<Seq<u32>>,
}

impl View for Element {
    type V = ElementView;

    open spec fn view(&self) -> ElementView {
        ElementView {
            kind: match &self.kind {
                ElementKind::Passive => ElementKindView::Passive,
                ElementKind::Active { table_index, offset_expr } => ElementKindView::Active {
                    table_index: *table_index,
                    offset_expr: offset_expr@,
                },
                ElementKind::Declared => ElementKindView::Declared,
            },
            funcs: match &self.items {
                ElementItems::Functions(v) => Some(v@),
                ElementItems::Expressions => None,
            },
        }
    }
}

/// How a data segment is placed.
pub enum DataKind {
    Passive,
    /// Copied into memory `memory_index` at the offset of its constant expression.
    Active { memory_index: u32, offset_expr: Vec<u8> },
}

/// A data segment.
pub struct Data {
    pub kind: DataKind,
    pub data: Vec<u8>,
}

pub enum DataKindView {
    Passive,
    Active { memory_index: u32, offset_expr: Seq<u8> },
}

#[verifier::ext_equal]
pub struct DataView {
    pub kind: DataKindView,
    pub data: Seq<u8>,
}

impl View for Data {
    type V = DataView;

    open spec fn view(&self) -> DataView {
        DataView {
            kind: match &self.kind {
                DataKind::Passive => DataKindView::Passive,
                DataKind::Active { memory_index, offset_expr } => DataKindView::Active {
                    memory_index: *memory_index,
                    offset_expr: offset_expr@,
                },
            },
            data: self.data@,
        }
    }
}

impl Clone for Import {
    fn clone(&self) -> (res: Self)
        ensures
            res@ == self@,
    {
        Import { module: self.module.clone(), name: self.name.clone(), ty: self.ty }
    }
}

impl Clone for ImportSet {
    fn clone(&self) -> (res: Self)
        ensures
            res@ == self@,
    {
        let mut imports: Vec<Import> = Vec::new();
        let mut i: usize = 0;
        while i < self.imports.len()
            invariant
                i <= self.imports@.len(),
                imports_view(imports@) == imports_view(self.imports@).take(i as int),
            decreases self.imports.len() - i,
        {
            let x = self.imports[i].clone();
            let ghost before = imports_view(imports@);
            imports.push(x);
            assert(imports_view(imports@) =~= before.push(x@));
            i += 1;
            assert(imports_view(imports@) =~= imports_view(self.imports@).take(i as int));
        }
        assert(imports_view(self.imports@).take(i as int) == imports_view(self.imports@));
        ImportSet {
            imports,
            num_funcs: self.num_funcs,
            num_tables: self.num_tables,
            num_mems: self.num_mems,
            num_globals: self.num_globals,
        }
    }
}

impl Clone for GlobalDecl {
    fn clone(&self) -> (res: Self)
        ensures
            res@ == self@,
    {
        GlobalDecl { ty: self.ty, init_expr: copy_vec(&self.init_expr) }
    }
}

impl Clone for Export {
    fn clone(&self) -> (res: Self)
        ensures
            res.name@ == self.name@ && res.kind == self.kind && res.index == self.index,
    {
        Export { name: self.name.clone(), kind: self.kind, index: self.index }
    }
}

impl Clone for Element {
    fn clone(&self) -> (res: Self)
        ensures
            res@ == self@,
    {
        let kind = match &self.kind {
            ElementKind::Passive => ElementKind::Passive,
            ElementKind::Active { table_index, offset_expr } => ElementKind::Active {
                table_index: *table_index,
                offset_expr: copy_vec(offset_expr),
            },
            ElementKind::Declared => ElementKind::Declared,
        };
        let items = match &self.items {
            ElementItems::Functions(v) => ElementItems::Functions(copy_vec(v)),
            ElementItems::Expressions => ElementItems::Expressions,
        };
        Element { kind, items }
    }
}

impl Clone for Data {
    fn clone(&self) -> (res: Self)
        ensures
            res@ == self@,
    {
        let kind = match &self.kind {
            DataKind::Passive => DataKind::Passive,
            DataKind::Active { memory_index, offset_expr } => DataKind::Active {
                memory_index: *memory_index,
                offset_expr: copy_vec(offset_expr),
            },
        };
        Data { kind, data: copy_vec(&self.data) }
    }
}

} // verus!
