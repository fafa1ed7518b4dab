//! A decoded WebAssembly module.
use vstd::prelude::*;

use super::insts::{insts_view, Instruction};
use super::value_type::ValType;
use super::components::{
    Data, DataView, Element, ElementView, Export, ExternalKind, FuncDecl, FuncDeclView,
    FuncType, FuncTypeView, GlobalDecl, GlobalDeclView, ImportSet, ImportSetView, MemoryType, TableType,
};

verus! {

pub struct WasmModule {
    pub(crate) sigs: Vec<FuncType>,
    pub(crate) imports: ImportSet,
    pub(crate) funcs: Vec<FuncDecl>,
    pub(crate) tables: Vec<TableType>,
    pub(crate) mems: Vec<MemoryType>,
    pub(crate) globals: Vec<GlobalDecl>,
    pub(crate) exports: Vec<Export>,
    pub(crate) elems: Vec<Element>,
    pub(crate) datas: Vec<Data>,
    pub(crate) start_func_id: Option<u32>,
    pub(crate) data_count: Option<u32>,
}

/// An export as a mathematical value.
pub struct ExportView {
    pub name: Seq<char>,
    pub kind: ExternalKind,
    pub index: u32,
}

/// A module as a mathematical value.
#[verifier::ext_equal]
pub struct ModuleView {
    pub sigs: Seq<FuncTypeView>,
    pub imports: ImportSetView,
    pub funcs: Seq<FuncDeclView>,
    pub tables: Seq<TableType>,
    pub mems: Seq<MemoryType>,
    pub globals: Seq<GlobalDeclView>,
    pub exports: Seq<ExportView>,
    pub elems: Seq<ElementView>,
    pub datas: Seq<DataView>,
    pub start_func_id: Option<u32>,
    pub data_count: Option<u32>,
}

pub open spec fn sigs_view(v: Seq<FuncType>) -> Seq<FuncTypeView> {
    v.map_values(|f: FuncType| f@)
}

pub open spec fn funcs_view(v: Seq<FuncDecl>) -> Seq<FuncDeclView> {
    v.map_values(|f: FuncDecl| f@)
}

pub open spec fn globals_view(v: Seq<GlobalDecl>) -> Seq<GlobalDeclView> {
    v.map_values(|g: GlobalDecl| g@)
}

pub open spec fn exports_view(v: Seq<Export>) -> Seq<ExportView> {
    v.map_values(|e: Export| ExportView { name: e.name@, kind: e.kind, index: e.index })
}

pub open spec fn elems_view(v: Seq<Element>) -> Seq<ElementView> {
    v.map_values(|e: Element| e@)
}

pub open spec fn datas_view(v: Seq<Data>) -> Seq<DataView> {
    v.map_values(|d: Data| d@)
}

impl View for WasmModule {
    type V = ModuleView;

    closed spec fn view(&self) -> ModuleView {
        ModuleView {
            sigs: sigs_view(self.sigs@),
            imports: self.imports@,
            funcs: funcs_view(self.funcs@),
            tables: self.tables@,
            mems: self.mems@,
            globals: globals_view(self.globals@),
            exports: exports_view(self.exports@),
            elems: elems_view(self.elems@),
            datas: datas_view(self.datas@),
            start_func_id: self.start_func_id,
            data_count: self.data_count,
        }
    }
}

/// The module with no sections.
pub open spec fn empty_module() -> ModuleView {
    ModuleView {
        sigs: Seq::empty(),
        imports: ImportSetView {
            imports: Seq::empty(),
            num_funcs: 0,
            num_tables: 0,
            num_mems: 0,
            num_globals: 0,
        },
        funcs: Seq::empty(),
        tables: Seq::empty(),
        mems: Seq::empty(),
        globals: Seq::empty(),
        exports: Seq::empty(),
        elems: Seq::empty(),
        datas: Seq::empty(),
        start_func_id: None,
        data_count: None,
    }
}

/// The index of the first function exported under the name `main`.
pub open spec fn spec_main_index(exports: Seq<ExportView>) -> Option<u32>
    decreases exports.len(),
{
    if exports.len() == 0 {
        None
    } else if exports[0].name == seq!['m', 'a', 'i', 'n'] && exports[0].kind == ExternalKind::Func {
        Some(exports[0].index)
    } else {
        spec_main_index(exports.drop_first())
    }
}

impl WasmModule {
    pub fn new() -> (res: WasmModule)
        ensures
            res@ == empty_module(),
    {
        WasmModule {
            sigs: Vec::new(),
            imports: ImportSet::new(),
            funcs: Vec::new(),
            tables: Vec::new(),
            mems: Vec::new(),
            globals: Vec::new(),
            exports: Vec::new(),
            elems: Vec::new(),
            datas: Vec::new(),
            start_func_id: None,
            data_count: None,
        }
    }

    pub fn get_sig(&self, index: u32) -> (res: Option<&FuncType>)
        ensures
            match res {
                Some(f) => index < self@.sigs.len() && f@ == self@.sigs[index as int],
                None => index >= self@.sigs.len(),
            },
    {
        if (index as usize) < self.sigs.len() {
            Some(&self.sigs[index as usize])
        } else {
            None
        }
    }

    pub fn get_imports(&self) -> (res: &ImportSet)
        ensures
            res@ == self@.imports,
    {
        &self.imports
    }

    pub fn get_num_imports(&self) -> (res: usize)
        ensures
            res == self@.imports.imports.len(),
    {
        self.imports.get_num_imports()
    }

    pub fn get_func(&self, index: u32) -> (res: Option<&FuncDecl>)
        ensures
            match res {
                Some(f) => index < self@.funcs.len() && f@ == self@.funcs[index as int],
                None => index >= self@.funcs.len(),
            },
    {
        if (index as usize) < self.funcs.len() {
            Some(&self.funcs[index as usize])
        } else {
            None
        }
    }

    pub fn get_funcs(&self) -> (res: &Vec<FuncDecl>)
        ensures
            funcs_view(res@) == self@.funcs,
    {
        &self.funcs
    }

    pub fn get_data_count(&self) -> (res: Option<u32>)
        ensures
            res == self@.data_count,
    {
        self.data_count
    }

    pub fn get_datas(&self) -> (res: &Vec<Data>)
        ensures
            datas_view(res@) == self@.datas,
    {
        &self.datas
    }

    /// The first memory of the module.
    pub fn get_memory(&self) -> (res: Option<&MemoryType>)
        ensures
            match res {
                Some(m) => self@.mems.len() > 0 && *m == self@.mems[0],
                None => self@.mems.len() == 0,
            },
    {
        if self.mems.len() > 0 {
            Some(&self.mems[0])
        } else {
            None
        }
    }

    pub fn get_exports(&self) -> (res: &Vec<Export>)
        ensures
            exports_view(res@) == self@.exports,
    {
        &self.exports
    }

    pub fn get_globals(&self) -> (res: &Vec<GlobalDecl>)
        ensures
            globals_view(res@) == self@.globals,
    {
        &self.globals
    }

    pub fn get_elems(&self) -> (res: &Vec<Element>)
        ensures
            elems_view(res@) == self@.elems,
    {
        &self.elems
    }

    pub fn get_tables(&self) -> (res: &Vec<TableType>)
        ensures
            res@ == self@.tables,
    {
        &self.tables
    }

    /// The module with signatures `sigs`.
    pub fn sigs(self, sigs: Vec<FuncType>) -> (res: Self)
        ensures
            res@ == (ModuleView { sigs: sigs_view(sigs@), ..self@ }),
    {
        let mut m = self;
        m.set_sigs(sigs);
        m
    }

    /// The module with imports `imports`.
    pub fn imports(self, imports: ImportSet) -> (res: Self)
        ensures
            res@ == (ModuleView { imports: imports@, ..self@ }),
    {
        let mut m = self;
        m.set_imports(imports);
        m
    }

    pub(crate) fn set_sigs(&mut self, sigs: Vec<FuncType>)
        ensures
            final(self)@ == (ModuleView { sigs: sigs_view(sigs@), ..old(self)@ }),
    {
        self.sigs = sigs;
    }

    pub(crate) fn set_imports(&mut self, imports: ImportSet)
        ensures
            final(self)@ == (ModuleView { imports: imports@, ..old(self)@ }),
    {
        self.imports = imports;
    }

    /// The signatures of the module.
    pub fn get_sigs(&self) -> (res: &Vec<FuncType>)
        ensures
            sigs_view(res@) == self@.sigs,
    {
        &self.sigs
    }

    /// Declares the functions `funcs` after those already declared.
    pub(crate) fn extend_funcs(&mut self, funcs: Vec<FuncDecl>)
        ensures
            final(self)@ == (ModuleView { funcs: old(self)@.funcs + funcs_view(funcs@), ..old(self)@ }),
    {
        let mut funcs = funcs;
        let ghost fv = funcs_view(funcs@);
        let mut i: usize = 0;
        let n = funcs.len();
        while i < n
            invariant
                i <= n,
                n == funcs@.len(),
                fv.len() == n,
                forall|j: int| i <= j < n ==> #[trigger] funcs@[j]@ == fv[j],
                self@ == (ModuleView { funcs: old(self)@.funcs + fv.take(i as int), ..old(self)@ }),
            decreases n - i,
        {
            let mut f = FuncDecl::new(FuncType { params: Vec::new(), results: Vec::new() });
            funcs.set_and_swap(i, &mut f);
            assert(f@ == fv[i as int]);
            let ghost before = funcs_view(self.funcs@);
            self.funcs.push(f);
            assert(funcs_view(self.funcs@) =~= before.push(f@));
            assert(fv.take(i + 1) =~= fv.take(i as int).push(fv[i as int]));
            i += 1;
        }
        assert(fv.take(n as int) == fv);
    }

    /// Declares one more function.
    pub(crate) fn push_func(&mut self, func: FuncDecl)
        ensures
            final(self)@ == (ModuleView { funcs: old(self)@.funcs.push(func@), ..old(self)@ }),
    {
        self.funcs.push(func);
        assert(funcs_view(self.funcs@) =~= old(self)@.funcs.push(func@));
    }

    /// Installs the body of function `index`.
    pub(crate) fn set_func_body(&mut self, index: usize, body: (Vec<(u32, ValType)>, Vec<Instruction>))
        requires
            index < old(self)@.funcs.len(),
        ensures
            final(self)@ == (ModuleView {
                funcs: old(self)@.funcs.update(
                    index as int,
                    FuncDeclView {
                        sig: old(self)@.funcs[index as int].sig,
                        pure_locals: body.0@,
                        insts: insts_view(body.1@),
                    },
                ),
                ..old(self)@
            }),
    {
        let ghost b = body;
        let mut f = self.funcs.remove(index);
        f.add_func_body(body);
        self.funcs.insert(index, f);
        assert(funcs_view(self.funcs@) =~= old(self)@.funcs.update(
            index as int,
            FuncDeclView {
                sig: old(self)@.funcs[index as int].sig,
                pure_locals: b.0@,
                insts: insts_view(b.1@),
            },
        ));
    }

    pub(crate) fn set_tables(&mut self, tables: Vec<TableType>)
        ensures
            final(self)@ == (ModuleView { tables: tables@, ..old(self)@ }),
    {
        self.tables = tables;
    }

    pub(crate) fn set_mems(&mut self, mems: Vec<MemoryType>)
        ensures
            final(self)@ == (ModuleView { mems: mems@, ..old(self)@ }),
    {
        self.mems = mems;
    }

    pub(crate) fn set_globals(&mut self, globals: Vec<GlobalDecl>)
        ensures
            final(self)@ == (ModuleView { globals: globals_view(globals@), ..old(self)@ }),
    {
        self.globals = globals;
    }

    pub(crate) fn set_exports(&mut self, exports: Vec<Export>)
        ensures
            final(self)@ == (ModuleView { exports: exports_view(exports@), ..old(self)@ }),
    {
        self.exports = exports;
    }

    pub(crate) fn set_elems(&mut self, elems: Vec<Element>)
        ensures
            final(self)@ == (ModuleView { elems: elems_view(elems@), ..old(self)@ }),
    {
        self.elems = elems;
    }

    pub(crate) fn set_datas(&mut self, datas: Vec<Data>)
        ensures
            final(self)@ == (ModuleView { datas: datas_view(datas@), ..old(self)@ }),
    {
        self.datas = datas;
    }

    pub(crate) fn set_start_func(&mut self, func: u32)
        ensures
            final(self)@ == (ModuleView { start_func_id: Some(func), ..old(self)@ }),
    {
        self.start_func_id = Some(func);
    }

    pub(crate) fn set_data_count(&mut self, count: u32)
        ensures
            final(self)@ == (ModuleView { data_count: Some(count), ..old(self)@ }),
    {
        self.data_count = Some(count);
    }

    /// Replaces the initializer of global `index`.
    pub fn set_global_init_expr(&mut self, index: usize, init_expr: Vec<u8>)
        requires
            index < old(self)@.globals.len(),
        ensures
            final(self)@ == (ModuleView {
                globals: old(self)@.globals.update(
                    index as int,
                    GlobalDeclView { ty: old(self)@.globals[index as int].ty, init_expr: init_expr@ },
                ),
                ..old(self)@
            }),
    {
        let ghost ie = init_expr@;
        let mut g = self.globals.remove(index);
        g.set_init_expr(init_expr);
        self.globals.insert(index, g);
        assert(globals_view(self.globals@) =~= old(self)@.globals.update(
            index as int,
            GlobalDeclView { ty: old(self)@.globals[index as int].ty, init_expr: ie },
        ));
    }

    /// The index of the first function exported as `main`.
    pub fn get_main_index(&self) -> (res: Option<u32>)
        ensures
            res == spec_main_index(self@.exports),
    {
        let mut i: usize = 0;
        assert(self@.exports.skip(0) == self@.exports);
        while i < self.exports.len()
            invariant
                i <= self.exports@.len(),
                spec_main_index(self@.exports) == spec_main_index(self@.exports.skip(i as int)),
            decreases self.exports.len() - i,
        {
            let e = &self.exports[i];
            assert(self@.exports.skip(i as int)[0] == self@.exports[i as int]);
            assert(self@.exports.skip(i as int).drop_first() == self@.exports.skip(i + 1));
            if is_main_name(&e.name) && e.kind == ExternalKind::Func {
                return Some(e.index);
            }
            i += 1;
        }
        None
    }
}

/// Whether a name is `main`.
fn is_main_name(name: &String) -> (res: bool)
    ensures
        res == (name@ == seq!['m', 'a', 'i', 'n']),
{
    let main = "main".to_owned();
    proof {
        reveal_strlit("main");
    }
    assert("main"@ == seq!['m', 'a', 'i', 'n']);
    let r = name.eq(&main);
    r
}

impl Clone for WasmModule {
    fn clone(&self) -> (res: Self)
        ensures
            res@ == self@,
    {
        let mut sigs: Vec<FuncType> = Vec::new();
        let mut i: usize = 0;
        while i < self.sigs.len()
            invariant
                i <= self.sigs@.len(),
                sigs_view(sigs@) == sigs_view(self.sigs@).take(i as int),
            decreases self.sigs.len() - i,
        {
            let x = self.sigs[i].clone();
            let ghost before = sigs_view(sigs@);
            sigs.push(x);
            assert(sigs_view(sigs@) =~= before.push(x@));
            i += 1;
            assert(sigs_view(sigs@) =~= sigs_view(self.sigs@).take(i as int));
        }
        assert(sigs_view(self.sigs@).take(i as int) == sigs_view(self.sigs@));
        let mut funcs: Vec<FuncDecl> = Vec::new();
        let mut i: usize = 0;
        while i < self.funcs.len()
            invariant
                i <= self.funcs@.len(),
                funcs_view(funcs@) == funcs_view(self.funcs@).take(i as int),
            decreases self.funcs.len() - i,
        {
            let x = self.funcs[i].clone();
            let ghost before = funcs_view(funcs@);
            funcs.push(x);
            assert(funcs_view(funcs@) =~= before.push(x@));
            i += 1;
            assert(funcs_view(funcs@) =~= funcs_view(self.funcs@).take(i as int));
        }
        assert(funcs_view(self.funcs@).take(i as int) == funcs_view(self.funcs@));
        let mut globals: Vec<GlobalDecl> = Vec::new();
        let mut i: usize = 0;
        while i < self.globals.len()
            invariant
                i <= self.globals@.len(),
                globals_view(globals@) == globals_view(self.globals@).take(i as int),
            decreases self.globals.len() - i,
        {
            let x = self.globals[i].clone();
            let ghost before = globals_view(globals@);
            globals.push(x);
            assert(globals_view(globals@) =~= before.push(x@));
            i += 1;
            assert(globals_view(globals@) =~= globals_view(self.globals@).take(i as int));
        }
        assert(globals_view(self.globals@).take(i as int) == globals_view(self.globals@));
        let mut exports: Vec<Export> = Vec::new();
        let mut i: usize = 0;
        while i < self.exports.len()
            invariant
                i <= self.exports@.len(),
                exports_view(exports@) == exports_view(self.exports@).take(i as int),
            decreases self.exports.len() - i,
        {
            let x = self.exports[i].clone();
            let ghost before = exports_view(exports@);
            exports.push(x);
            assert(exports_view(exports@) =~= before.push(ExportView { name: x.name@, kind: x.kind, index: x.index }));
            i += 1;
            assert(exports_view(exports@) =~= exports_view(self.exports@).take(i as int));
        }
        assert(exports_view(self.exports@).take(i as int) == exports_view(self.exports@));
        let mut elems: Vec<Element> = Vec::new();
        let mut i: usize = 0;
        while i < self.elems.len()
            invariant
                i <= self.elems@.len(),
                elems_view(elems@) == elems_view(self.elems@).take(i as int),
            decreases self.elems.len() - i,
        {
            let x = self.elems[i].clone();
            let ghost before = elems_view(elems@);
            elems.push(x);
            assert(elems_view(elems@) =~= before.push(x@));
            i += 1;
            assert(elems_view(elems@) =~= elems_view(self.elems@).take(i as int));
        }
        assert(elems_view(self.elems@).take(i as int) == elems_view(self.elems@));
        let mut datas: Vec<Data> = Vec::new();
        let mut i: usize = 0;
        while i < self.datas.len()
            invariant
                i <= self.datas@.len(),
                datas_view(datas@) == datas_view(self.datas@).take(i as int),
            decreases self.datas.len() - i,
        {
            let x = self.datas[i].clone();
            let ghost before = datas_view(datas@);
            datas.push(x);
            assert(datas_view(datas@) =~= before.push(x@));
            i += 1;
            assert(datas_view(datas@) =~= datas_view(self.datas@).take(i as int));
        }
        assert(datas_view(self.datas@).take(i as int) == datas_view(self.datas@));
        WasmModule {
            sigs,
            imports: self.imports.clone(),
            funcs,
            tables: super::components::copy_vec(&self.tables),
            mems: super::components::copy_vec(&self.mems),
            globals,
            exports,
            elems,
            datas,
            start_func_id: self.start_func_id,
            data_count: self.data_count,
        }
    }
}

} // verus!
