//! The declaration store: one backend symbol for every function and table of
//! a module, decided once and then only read.
use crate::backend::{
    declare_data_in, declare_function_in, declarations, declared_names,
    lemma_declared_names, lookup_shape, shape_of, Shape, Declared, Linkage,
    SymbolId,
};
use crate::bindings::Bindings;
use crate::module_info::{FunctionBody, ModuleInfo, Table};
use crate::symbol::{decimal, push_decimal};
use cranelift_codegen::ir::Signature;
use cranelift_codegen::isa::TargetFrontendConfig;
use cranelift_module::ModuleDeclarations;
use vstd::prelude::*;

verus! {

/// A symbol name together with the identifier the backend gave it.
#[derive(Debug)]
pub struct Name {
    pub symbol: String,
    pub id: SymbolId,
}

impl Name {
    /// An equal copy.
    pub fn duplicate(&self) -> (r: Name)
        ensures
            r == *self,
    {
        Name { symbol: self.symbol.clone(), id: self.id }
    }
}

/// The index space an out-of-range query was made in.
#[derive(Clone, Copy, Debug, PartialEq, Eq, Structural)]
pub enum EntityKind {
    Function,
    Table,
}

/// Why the backend refuses to declare a name again.
#[derive(Clone, Copy, Debug, PartialEq, Eq, Structural)]
pub enum Refusal {
    /// A function name is held by a data object.
    HeldByData,
    /// A data name is held by a function.
    HeldByFunction,
    /// A function name is held by a function of another signature.
    OtherSignature,
    /// A data name is held by a thread-local data object.
    ThreadLocalData,
}

/// Why a declaration pass or a query failed.
#[derive(Debug)]
pub enum DeclError {
    /// The binding policy has no symbol for this import pair.
    UnresolvedImportBinding { module: String, field: String },
    /// The backend would refuse to declare `symbol`, for this reason.
    BackendDeclarationFailure { symbol: String, cause: Refusal },
    /// A query named an index past the end of its index space.
    IndexOutOfBounds { kind: EntityKind, index: usize },
}

/// Function `i` is not imported, or its import pair has a binding.
pub open spec fn import_resolves(info: &ModuleInfo, b: &Bindings, i: int) -> bool {
    match info.imported_funcs@[i] {
        Some(p) => b.resolve(p.0@, p.1@) is Some,
        None => true,
    }
}

/// The imports of all functions below `n` have bindings.
pub open spec fn imports_resolve_below(info: &ModuleInfo, b: &Bindings, n: int) -> bool {
    forall|i: int| 0 <= i < n ==> #[trigger] import_resolves(info, b, i)
}

/// `e` reports the import pair of function `i`.
pub open spec fn is_unresolved_error(info: &ModuleInfo, i: int, e: DeclError) -> bool {
    match info.imported_funcs@[i] {
        Some(p) => e == (DeclError::UnresolvedImportBinding { module: p.0, field: p.1 }),
        None => false,
    }
}

/// The symbol of function `i`: the bound name of its import, else
/// `guest_func_<first export name>`, else `guest_func_<i>`.
pub open spec fn function_symbol(info: &ModuleInfo, b: &Bindings, i: int) -> Seq<char> {
    match info.imported_funcs@[i] {
        Some(p) => match b.resolve(p.0@, p.1@) {
            Some(s) => s,
            None => Seq::empty(),
        },
        None => if info.functions@[i].export_names@.len() == 0 {
            "guest_func_"@ + decimal(i as nat)
        } else {
            "guest_func_"@ + info.functions@[i].export_names@[0]@
        },
    }
}

/// The linkage of function `i`.
pub open spec fn function_linkage(info: &ModuleInfo, i: int) -> Linkage {
    match info.imported_funcs@[i] {
        Some(_) => Linkage::Import,
        None => if info.functions@[i].export_names@.len() == 0 {
            Linkage::Local
        } else {
            Linkage::Export
        },
    }
}

/// The symbol of the contents of table `j`.
pub open spec fn table_symbol(j: nat) -> Seq<char> {
    "guest_table_"@ + decimal(j)
}

/// The symbol of the length of table `j`.
pub open spec fn table_len_symbol(j: nat) -> Seq<char> {
    table_symbol(j) + "_len"@
}

/// Every symbol of the module in the order of declaration: the functions,
/// then contents and length of each table.
pub open spec fn planned_symbols(info: &ModuleInfo, b: &Bindings) -> Seq<Seq<char>> {
    let nf = info.functions@.len() as int;
    Seq::new(
        (nf + 2 * info.tables@.len()) as nat,
        |k: int|
            if k < nf {
                function_symbol(info, b, k)
            } else if (k - nf) % 2 == 0 {
                table_symbol(((k - nf) / 2) as nat)
            } else {
                table_len_symbol(((k - nf) / 2) as nat)
            },
    )
}

/// The signature of function `i`.
pub open spec fn signature_of(info: &ModuleInfo, i: int) -> Signature {
    info.signatures@[info.functions@[i].entity as int]
}

fn function_declaration(info: &ModuleInfo, bindings: &Bindings, i: usize) -> (r: Result<
    (String, Linkage),
    DeclError,
>)
    requires
        info.wf(),
        i < info.functions@.len(),
    ensures
        match r {
            Ok(d) => {
                &&& import_resolves(info, bindings, i as int)
                &&& d.0@ == function_symbol(info, bindings, i as int)
                &&& d.1 == function_linkage(info, i as int)
            },
            Err(e) => !import_resolves(info, bindings, i as int) && is_unresolved_error(
                info,
                i as int,
                e,
            ),
        },
{
    match &info.imported_funcs[i] {
        Some(p) => match bindings.translate(&p.0, &p.1) {
            Some(s) => Ok((s, Linkage::Import)),
            None => Err(DeclError::UnresolvedImportBinding { module: p.0.clone(), field: p.1.clone() }),
        },
        None => {
            let export_names = &info.functions[i].export_names;
            let mut s = String::from_str("guest_func_");
            if export_names.len() == 0 {
                push_decimal(&mut s, i);
                Ok((s, Linkage::Local))
            } else {
                s.append(export_names[0].as_str());
                Ok((s, Linkage::Export))
            }
        },
    }
}

fn table_symbols(j: usize) -> (r: (String, String))
    ensures
        r.0@ == table_symbol(j as nat),
        r.1@ == table_len_symbol(j as nat),
{
    let mut contents = String::from_str("guest_table_");
    push_decimal(&mut contents, j);
    let len = contents.clone().concat("_len");
    (contents, len)
}


/// What the store knows of one function.
pub struct FunctionDecl<'a> {
    pub import_name: Option<(String, String)>,
    pub export_names: Vec<String>,
    pub signature: &'a Signature,
    pub name: Name,
}

impl<'a> FunctionDecl<'a> {
    pub open spec fn spec_defined(&self) -> bool {
        self.import_name is None
    }

    pub open spec fn spec_imported(&self) -> bool {
        self.import_name is Some
    }

    pub open spec fn spec_exported(&self) -> bool {
        self.export_names@.len() > 0
    }

    /// The function has a body in this module.
    #[verifier::when_used_as_spec(spec_defined)]
    pub fn defined(&self) -> (r: bool)
        ensures
            r == self.spec_defined(),
    {
        self.import_name.is_none()
    }

    /// The function comes from outside the module.
    #[verifier::when_used_as_spec(spec_imported)]
    pub fn imported(&self) -> (r: bool)
        ensures
            r == self.spec_imported(),
    {
        !self.defined()
    }

    /// The module exports the function under at least one name.
    #[verifier::when_used_as_spec(spec_exported)]
    pub fn exported(&self) -> (r: bool)
        ensures
            r == self.spec_exported(),
    {
        self.export_names.len() != 0
    }
}

/// What the store knows of one table.
pub struct TableDecl<'a> {
    pub import_name: Option<(String, String)>,
    pub export_names: Vec<String>,
    pub table: &'a Table,
    pub contents_name: Name,
    pub len_name: Name,
}

fn copy_import(p: &Option<(String, String)>) -> (r: Option<(String, String)>)
    ensures
        r == *p,
{
    match p {
        Some(p) => Some((p.0.clone(), p.1.clone())),
        None => None,
    }
}

fn copy_names(v: &Vec<String>) -> (r: Vec<String>)
    ensures
        r@ == v@,
{
    let mut r: Vec<String> = Vec::new();
    let mut k: usize = 0;
    while k < v.len()
        invariant
            k <= v@.len(),
            r@ == v@.subrange(0, k as int),
        decreases v@.len() - k,
    {
        r.push(v[k].clone());
        k = k + 1;
    }
    assert(r@ =~= v@);
    r
}

/// The function and table symbols of one module, bound to backend identifiers.
pub struct ModuleDecls {
    info: ModuleInfo,
    function_names: Vec<Name>,
    table_names: Vec<(Name, Name)>,
}

/// `m` holds `info`, and binds every function and table to the symbol the
/// naming rules give it, with the identifier that `names` records for it.
pub open spec fn declared_as(
    m: &ModuleDecls,
    info: &ModuleInfo,
    b: &Bindings,
    names: Map<Seq<char>, SymbolId>,
) -> bool {
    &&& m.wf()
    &&& m.spec_info() == *info
    &&& forall|i: int|
        0 <= i < info.functions@.len() ==> {
            let n = #[trigger] m.spec_function_names()[i];
            &&& n.symbol@ == function_symbol(info, b, i)
            &&& names.contains_key(n.symbol@)
            &&& names[n.symbol@] == n.id
        }
    &&& forall|j: int|
        0 <= j < info.tables@.len() ==> {
            let t = #[trigger] m.spec_table_names()[j];
            &&& t.0.symbol@ == table_symbol(j as nat)
            &&& t.1.symbol@ == table_len_symbol(j as nat)
            &&& names.contains_key(t.0.symbol@)
            &&& names[t.0.symbol@] == t.0.id
            &&& names.contains_key(t.1.symbol@)
            &&& names[t.1.symbol@] == t.1.id
        }
}

impl ModuleDecls {
    /// The module data the store was built from.
    pub closed spec fn spec_info(&self) -> ModuleInfo {
        self.info
    }

    /// The name of each function, by index.
    pub closed spec fn spec_function_names(&self) -> Seq<Name> {
        self.function_names@
    }

    /// The contents and length names of each table, by index.
    pub closed spec fn spec_table_names(&self) -> Seq<(Name, Name)> {
        self.table_names@
    }

    /// One name for each function and one pair for each table.
    pub open spec fn wf(&self) -> bool {
        &&& self.spec_info().wf()
        &&& self.spec_function_names().len() == self.spec_info().functions@.len()
        &&& self.spec_table_names().len() == self.spec_info().tables@.len()
    }

    /// `f` describes function `i` of the store.
    pub open spec fn describes_function(&self, i: int, f: FunctionDecl) -> bool {
        let info = self.spec_info();
        &&& f.name == self.spec_function_names()[i]
        &&& f.import_name == info.imported_funcs@[i]
        &&& f.export_names@ == info.functions@[i].export_names@
        &&& *f.signature == info.signatures@[info.functions@[i].entity as int]
    }

    /// `t` describes table `j` of the store.
    pub open spec fn describes_table(&self, j: int, t: TableDecl) -> bool {
        let info = self.spec_info();
        &&& t.contents_name == self.spec_table_names()[j].0
        &&& t.len_name == self.spec_table_names()[j].1
        &&& t.import_name == info.imported_tables@[j]
        &&& t.export_names@ == info.tables@[j].export_names@
        &&& *t.table == info.tables@[j].entity
    }

    /// The target the module is compiled for.
    pub fn target_config(&self) -> (r: TargetFrontendConfig)
        ensures
            r == self.spec_info().target_config,
    {
        self.info.target_config
    }

    /// The declaration of function `func_index`.
    pub fn get_func(&self, func_index: usize) -> (r: Result<FunctionDecl<'_>, DeclError>)
        requires
            self.wf(),
        ensures
            r is Ok <==> func_index < self.spec_info().functions@.len(),
            match r {
                Ok(f) => self.describes_function(func_index as int, f),
                Err(e) => e == (DeclError::IndexOutOfBounds {
                    kind: EntityKind::Function,
                    index: func_index,
                }),
            },
    {
        if func_index >= self.function_names.len() {
            return Err(DeclError::IndexOutOfBounds { kind: EntityKind::Function, index: func_index });
        }
        let exportable = &self.info.functions[func_index];
        Ok(FunctionDecl {
            import_name: copy_import(&self.info.imported_funcs[func_index]),
            export_names: copy_names(&exportable.export_names),
            signature: &self.info.signatures[exportable.entity],
            name: self.function_names[func_index].duplicate(),
        })
    }

    /// The declaration of table `table_index`.
    pub fn get_table(&self, table_index: usize) -> (r: Result<TableDecl<'_>, DeclError>)
        requires
            self.wf(),
        ensures
            r is Ok <==> table_index < self.spec_info().tables@.len(),
            match r {
                Ok(t) => self.describes_table(table_index as int, t),
                Err(e) => e == (DeclError::IndexOutOfBounds {
                    kind: EntityKind::Table,
                    index: table_index,
                }),
            },
    {
        if table_index >= self.table_names.len() {
            return Err(DeclError::IndexOutOfBounds { kind: EntityKind::Table, index: table_index });
        }
        let exportable = &self.info.tables[table_index];
        let names = &self.table_names[table_index];
        Ok(TableDecl {
            import_name: copy_import(&self.info.imported_tables[table_index]),
            export_names: copy_names(&exportable.export_names),
            table: &exportable.entity,
            contents_name: names.0.duplicate(),
            len_name: names.1.duplicate(),
        })
    }

    /// Each stored function body with the declaration of its function, in the
    /// order the bodies are stored.
    pub fn function_bodies(&self) -> (r: Vec<(FunctionDecl<'_>, &FunctionBody)>)
        requires
            self.wf(),
        ensures
            r@.len() == self.spec_info().function_bodies@.len(),
            forall|k: int|
                0 <= k < r@.len() ==> {
                    let body = self.spec_info().function_bodies@[k];
                    &&& self.describes_function(body.index as int, (#[trigger] r@[k]).0)
                    &&& r@[k].0.import_name is None
                    &&& *r@[k].1 == body
                },
    {
        let mut r: Vec<(FunctionDecl<'_>, &FunctionBody)> = Vec::new();
        let mut k: usize = 0;
        while k < self.info.function_bodies.len()
            invariant
                self.wf(),
                k <= self.spec_info().function_bodies@.len(),
                r@.len() == k,
                forall|k2: int|
                    0 <= k2 < k ==> {
                        let body = self.spec_info().function_bodies@[k2];
                        &&& self.describes_function(body.index as int, (#[trigger] r@[k2]).0)
                        &&& r@[k2].0.import_name is None
                        &&& *r@[k2].1 == body
                    },
            decreases self.spec_info().function_bodies@.len() - k,
        {
            let body = &self.info.function_bodies[k];
            match self.get_func(body.index) {
                Ok(f) => {
                    r.push((f, body));
                },
                Err(_) => {},
            }
            k = k + 1;
        }
        r
    }

    /// Decides the symbol and linkage of every function, in index order,
    /// failing at the first import that has no binding.
    pub fn function_declarations(info: &ModuleInfo, bindings: &Bindings) -> (r: Result<
        Vec<(String, Linkage)>,
        DeclError,
    >)
        requires
            info.wf(),
        ensures
            match r {
                Ok(v) => {
                    &&& imports_resolve_below(info, bindings, info.functions@.len() as int)
                    &&& v@.len() == info.functions@.len()
                    &&& forall|i: int|
                        0 <= i < v@.len() ==> (#[trigger] v@[i]).0@ == function_symbol(
                            info,
                            bindings,
                            i,
                        ) && v@[i].1 == function_linkage(info, i)
                },
                Err(e) => exists|i: int|
                    0 <= i < info.functions@.len() && imports_resolve_below(info, bindings, i)
                        && !import_resolves(info, bindings, i) && #[trigger] is_unresolved_error(
                        info,
                        i,
                        e,
                    ),
            },
    {
        let mut v: Vec<(String, Linkage)> = Vec::new();
        let mut i: usize = 0;
        while i < info.functions.len()
            invariant
                info.wf(),
                i <= info.functions@.len(),
                v@.len() == i,
                imports_resolve_below(info, bindings, i as int),
                forall|k: int|
                    0 <= k < i ==> (#[trigger] v@[k]).0@ == function_symbol(info, bindings, k)
                        && v@[k].1 == function_linkage(info, k),
            decreases info.functions@.len() - i,
        {
            match function_declaration(info, bindings, i) {
                Ok(d) => {
                    v.push(d);
                },
                Err(e) => {
                    assert(is_unresolved_error(info, i as int, e));
                    return Err(e);
                },
            }
            proof {
                assert forall|k: int| 0 <= k < i + 1 implies #[trigger] import_resolves(
                    info,
                    bindings,
                    k,
                ) by {
                    if k < i {
                        assert(import_resolves(info, bindings, k));
                    }
                }
            }
            i = i + 1;
        }
        Ok(v)
    }

    /// Makes planned declaration `k`, which the table accepts.
    fn declare_planned(
        info: &ModuleInfo,
        bindings: &Bindings,
        decls: &mut ModuleDeclarations,
        plan: &Vec<Planned>,
        k: usize,
        Ghost(start): Ghost<Map<Seq<char>, Declared>>,
    ) -> (n: Name)
        requires
            info.wf(),
            plan_matches(info, bindings, plan@),
            k < plan@.len(),
            state_after(start, declarations(*old(decls)), info, bindings, k as int),
            accepted_below(start, info, bindings, plan@.len() as int),
        ensures
            state_after(start, declarations(*final(decls)), info, bindings, k + 1),
            n.symbol@ == planned_symbols(info, bindings)[k as int],
            declarations(*final(decls)).contains_key(n.symbol@),
            declarations(*final(decls))[n.symbol@].id() == n.id,
            forall|s: Seq<char>|
                #[trigger] declarations(*old(decls)).contains_key(s) ==> declarations(
                    *final(decls),
                ).contains_key(s) && declarations(*final(decls))[s].id() == declarations(
                    *old(decls),
                )[s].id(),
    {
        let ghost cur = declarations(*decls);
        let ghost s = planned_symbols(info, bindings)[k as int];
        let symbol = &plan[k].symbol;
        proof {
            assert(refusal_at(start, info, bindings, k as int) is None);
            lemma_step_shape(info, bindings, k as int);
        }
        let n = match plan[k].signature {
            Some(ix) => {
                let r = declare_function_in(decls, symbol.as_str(), plan[k].linkage, &info.signatures[ix]);
                match r {
                    Ok(id) => Name { symbol: symbol.clone(), id: SymbolId::Func(id) },
                    Err(_) => {
                        proof {
                            assert(false);
                        }
                        Name { symbol: symbol.clone(), id: SymbolId::Func(0) }
                    },
                }
            },
            None => {
                let r = declare_data_in(decls, symbol.as_str(), Linkage::Local, true);
                match r {
                    Ok(id) => Name { symbol: symbol.clone(), id: SymbolId::Data(id) },
                    Err(_) => {
                        proof {
                            assert(false);
                        }
                        Name { symbol: symbol.clone(), id: SymbolId::Data(0) }
                    },
                }
            },
        };
        proof {
            let next = declarations(*decls);
            assert forall|t: Seq<char>| #[trigger] next.contains_key(t) == (start.contains_key(t)
                || shape_from_plan(info, bindings, t, k + 1) is Some) by {
                if t != s {
                    assert(next.contains_key(t) == cur.contains_key(t));
                }
            }
            assert forall|t: Seq<char>| #[trigger] next.contains_key(t) implies shape_before(
                start,
                info,
                bindings,
                k + 1,
                t,
            ) == Some(shape_of(next[t])) by {
                if t != s {
                    assert(cur.contains_key(t));
                    assert(next[t] == cur[t]);
                }
            }
            assert forall|t: Seq<char>| #[trigger] start.contains_key(t) implies next.contains_key(t)
                && next[t].id() == start[t].id() by {
                assert(cur.contains_key(t));
            }
            assert forall|j: int| 0 <= j < k + 1 && j < info.functions@.len() implies entry_is_function(
                next,
                #[trigger] planned_symbols(info, bindings)[j],
                signature_of(info, j),
            ) by {
                if j < k && planned_symbols(info, bindings)[j] != s {
                    assert(entry_is_function(cur, planned_symbols(info, bindings)[j], signature_of(info, j)));
                } else if j < k {
                    assert(entry_is_function(cur, s, signature_of(info, j)));
                    assert(cur.contains_key(s));
                }
            }
            assert forall|j: int| info.functions@.len() <= j < k + 1 implies entry_is_writable_data(
                next,
                #[trigger] planned_symbols(info, bindings)[j],
            ) by {
                if j < k && planned_symbols(info, bindings)[j] != s {
                    assert(entry_is_writable_data(cur, planned_symbols(info, bindings)[j]));
                } else if j < k {
                    assert(entry_is_writable_data(cur, s));
                    assert(cur.contains_key(s));
                }
            }
            assert forall|j: int|
                0 <= j < k + 1 && !start.contains_key(#[trigger] planned_symbols(info, bindings)[j])
                    && planned_once(info, bindings, j) implies next.contains_key(
                planned_symbols(info, bindings)[j],
            ) && linkage_of(next[planned_symbols(info, bindings)[j]]) == planned_linkage(info, j) by {
                if j < k {
                    assert(planned_symbols(info, bindings)[k as int] != planned_symbols(info, bindings)[j]);
                    assert(cur.contains_key(planned_symbols(info, bindings)[j]));
                } else {
                    assert forall|j2: int| 0 <= j2 < k && j2 < k implies planned_symbols(info, bindings)[j2]
                        != s by {
                        assert(planned_symbols(info, bindings)[j2] != planned_symbols(info, bindings)[k as int]);
                    }
                    lemma_first_occurrence(info, bindings, s, k as int, k as int);
                    assert(!cur.contains_key(s));
                }
            }
        }
        n
    }

    /// Declares every function, in index order, as the plan says.
    fn declare_funcs(
        info: &ModuleInfo,
        bindings: &Bindings,
        decls: &mut ModuleDeclarations,
        plan: &Vec<Planned>,
        Ghost(start): Ghost<Map<Seq<char>, Declared>>,
    ) -> (names: Vec<Name>)
        requires
            info.wf(),
            plan_matches(info, bindings, plan@),
            state_after(start, declarations(*old(decls)), info, bindings, 0),
            accepted_below(start, info, bindings, plan@.len() as int),
        ensures
            state_after(start, declarations(*final(decls)), info, bindings, info.functions@.len() as int),
            names@.len() == info.functions@.len(),
            forall|i: int|
                0 <= i < names@.len() ==> {
                    let n = #[trigger] names@[i];
                    &&& n.symbol@ == planned_symbols(info, bindings)[i]
                    &&& declarations(*final(decls)).contains_key(n.symbol@)
                    &&& declarations(*final(decls))[n.symbol@].id() == n.id
                },
    {
        let mut names: Vec<Name> = Vec::new();
        let mut i: usize = 0;
        while i < info.functions.len()
            invariant
                info.wf(),
                plan_matches(info, bindings, plan@),
                accepted_below(start, info, bindings, plan@.len() as int),
                i <= info.functions@.len(),
                state_after(start, declarations(*decls), info, bindings, i as int),
                names@.len() == i,
                forall|i2: int|
                    0 <= i2 < i ==> {
                        let n = #[trigger] names@[i2];
                        &&& n.symbol@ == planned_symbols(info, bindings)[i2]
                        &&& declarations(*decls).contains_key(n.symbol@)
                        &&& declarations(*decls)[n.symbol@].id() == n.id
                    },
            decreases info.functions@.len() - i,
        {
            let ghost before_step = declarations(*decls);
            let n = Self::declare_planned(info, bindings, decls, plan, i, Ghost(start));
            proof {
                assert forall|i2: int| 0 <= i2 < i implies {
                    let m = #[trigger] names@[i2];
                    &&& declarations(*decls).contains_key(m.symbol@)
                    &&& declarations(*decls)[m.symbol@].id() == m.id
                } by {
                    assert(before_step.contains_key(names@[i2].symbol@));
                }
            }
            names.push(n);
            i = i + 1;
        }
        names
    }

    /// Declares the contents and length of every table, in index order, as
    /// local writable data, whatever the table imports or exports.
    fn declare_tables(
        info: &ModuleInfo,
        bindings: &Bindings,
        decls: &mut ModuleDeclarations,
        plan: &Vec<Planned>,
        Ghost(start): Ghost<Map<Seq<char>, Declared>>,
    ) -> (names: Vec<(Name, Name)>)
        requires
            info.wf(),
            plan_matches(info, bindings, plan@),
            state_after(start, declarations(*old(decls)), info, bindings, info.functions@.len() as int),
            accepted_below(start, info, bindings, plan@.len() as int),
        ensures
            state_after(start, declarations(*final(decls)), info, bindings, plan@.len() as int),
            names@.len() == info.tables@.len(),
            forall|s: Seq<char>|
                #[trigger] declarations(*old(decls)).contains_key(s) ==> declarations(
                    *final(decls),
                ).contains_key(s) && declarations(*final(decls))[s].id() == declarations(
                    *old(decls),
                )[s].id(),
            forall|j: int|
                0 <= j < names@.len() ==> {
                    let t = #[trigger] names@[j];
                    &&& t.0.symbol@ == table_symbol(j as nat)
                    &&& t.1.symbol@ == table_len_symbol(j as nat)
                    &&& declarations(*final(decls)).contains_key(t.0.symbol@)
                    &&& declarations(*final(decls))[t.0.symbol@].id() == t.0.id
                    &&& declarations(*final(decls)).contains_key(t.1.symbol@)
                    &&& declarations(*final(decls))[t.1.symbol@].id() == t.1.id
                },
    {
        let ghost entry_state = declarations(*decls);
        let nf = info.functions.len();
        let total = plan.len();
        let mut names: Vec<(Name, Name)> = Vec::new();
        let mut j: usize = 0;
        while j < info.tables.len()
            invariant
                info.wf(),
                plan_matches(info, bindings, plan@),
                accepted_below(start, info, bindings, plan@.len() as int),
                nf == info.functions@.len(),
                total == plan@.len(),
                j <= info.tables@.len(),
                state_after(start, declarations(*decls), info, bindings, nf + 2 * j),
                names@.len() == j,
                forall|s: Seq<char>|
                    #[trigger] entry_state.contains_key(s) ==> declarations(*decls).contains_key(s)
                        && declarations(*decls)[s].id() == entry_state[s].id(),
                forall|j2: int|
                    0 <= j2 < j ==> {
                        let t = #[trigger] names@[j2];
                        &&& t.0.symbol@ == table_symbol(j2 as nat)
                        &&& t.1.symbol@ == table_len_symbol(j2 as nat)
                        &&& declarations(*decls).contains_key(t.0.symbol@)
                        &&& declarations(*decls)[t.0.symbol@].id() == t.0.id
                        &&& declarations(*decls).contains_key(t.1.symbol@)
                        &&& declarations(*decls)[t.1.symbol@].id() == t.1.id
                    },
            decreases info.tables@.len() - j,
        {
            let ghost s0 = declarations(*decls);
            assert(nf + 2 * j + 1 < plan@.len());
            let contents = Self::declare_planned(info, bindings, decls, plan, nf + 2 * j, Ghost(start));
            let ghost s1 = declarations(*decls);
            let len = Self::declare_planned(info, bindings, decls, plan, nf + 2 * j + 1, Ghost(start));
            proof {
                assert(s1.contains_key(contents.symbol@));
                assert forall|s: Seq<char>| #[trigger] entry_state.contains_key(s) implies declarations(
                    *decls,
                ).contains_key(s) && declarations(*decls)[s].id() == entry_state[s].id() by {
                    assert(s0.contains_key(s));
                    assert(s1.contains_key(s));
                }
                assert forall|j2: int| 0 <= j2 < j implies {
                    let t = #[trigger] names@[j2];
                    &&& declarations(*decls).contains_key(t.0.symbol@)
                    &&& declarations(*decls)[t.0.symbol@].id() == t.0.id
                    &&& declarations(*decls).contains_key(t.1.symbol@)
                    &&& declarations(*decls)[t.1.symbol@].id() == t.1.id
                } by {
                    assert(s0.contains_key(names@[j2].0.symbol@));
                    assert(s0.contains_key(names@[j2].1.symbol@));
                    assert(s1.contains_key(names@[j2].0.symbol@));
                    assert(s1.contains_key(names@[j2].1.symbol@));
                }
            }
            names.push((contents, len));
            j = j + 1;
        }
        names
    }

    /// Declares every function, then the contents and length of every table,
    /// in index order. Nothing is declared unless every import has a binding
    /// and the backend's table accepts every declaration of the pass; a
    /// refusal reports the first declaration refused and why.
    #[verifier::rlimit(100)]
    pub fn declare(info: ModuleInfo, decls: &mut ModuleDeclarations, bindings: &Bindings) -> (r:
        Result<ModuleDecls, DeclError>)
        requires
            info.wf(),
        ensures
            r is Err ==> declarations(*final(decls)) == declarations(*old(decls)),
            !imports_resolve_below(&info, bindings, info.functions@.len() as int) ==> (r matches Err(
                e,
            ) && exists|i: int|
                0 <= i < info.functions@.len() && imports_resolve_below(&info, bindings, i)
                    && !import_resolves(&info, bindings, i) && #[trigger] is_unresolved_error(
                    &info,
                    i,
                    e,
                )),
            imports_resolve_below(&info, bindings, info.functions@.len() as int) ==> (r is Ok
                <==> accepted_below(
                declarations(*old(decls)),
                &info,
                bindings,
                planned_symbols(&info, bindings).len() as int,
            )),
            r is Ok ==> (forall|i: int|
                0 <= i < info.functions@.len() ==> #[trigger] entry_is_function(
                    declarations(*final(decls)),
                    function_symbol(&info, bindings, i),
                    signature_of(&info, i),
                )),
            r is Ok ==> (forall|j: nat|
                j < info.tables@.len() ==> #[trigger] entry_is_writable_data(
                    declarations(*final(decls)),
                    table_symbol(j),
                ) && entry_is_writable_data(
                    declarations(*final(decls)),
                    table_len_symbol(j),
                )),
            r is Ok ==> (forall|k: int|
                0 <= k < plan_len(&info) && !declarations(*old(decls)).contains_key(
                    #[trigger] planned_symbols(&info, bindings)[k],
                ) && planned_once(&info, bindings, k) ==> linkage_of(
                    declarations(*final(decls))[planned_symbols(&info, bindings)[k]],
                ) == planned_linkage(&info, k)),
            imports_resolve_below(&info, bindings, info.functions@.len() as int) ==> match r {
                Ok(m) => {
                    &&& declared_as(&m, &info, bindings, declared_names(*final(decls)))
                    &&& state_after(
                        declarations(*old(decls)),
                        declarations(*final(decls)),
                        &info,
                        bindings,
                        planned_symbols(&info, bindings).len() as int,
                    )
                },
                Err(e) => exists|k: int|
                    0 <= k < planned_symbols(&info, bindings).len() && accepted_below(
                        declarations(*old(decls)),
                        &info,
                        bindings,
                        k,
                    ) && reports_refusal(
                        e,
                        planned_symbols(&info, bindings)[k],
                        #[trigger] refusal_at(declarations(*old(decls)), &info, bindings, k),
                    ),
            },
    {
        let fplan = match Self::function_declarations(&info, bindings) {
            Ok(plan) => plan,
            Err(e) => {
                return Err(e);
            },
        };
        let plan = build_plan(&info, bindings, &fplan);
        let ghost start = declarations(*decls);
        match first_refusal(&info, bindings, &plan, decls) {
            Some((k, cause)) => {
                return Err(
                    DeclError::BackendDeclarationFailure { symbol: plan[k].symbol.clone(), cause },
                );
            },
            None => {},
        }
        proof {
            lemma_state_at_start(start, &info, bindings);
        }
        let function_names = Self::declare_funcs(&info, bindings, decls, &plan, Ghost(start));
        let ghost middle = declarations(*decls);
        let table_names = Self::declare_tables(&info, bindings, decls, &plan, Ghost(start));
        proof {
            let fin = declarations(*decls);
            lemma_declared_names(*decls);
            assert forall|i: int| 0 <= i < info.functions@.len() implies {
                let n = #[trigger] function_names@[i];
                &&& n.symbol@ == function_symbol(&info, bindings, i)
                &&& declared_names(*decls).contains_key(n.symbol@)
                &&& declared_names(*decls)[n.symbol@] == n.id
            } by {
                assert(middle.contains_key(function_names@[i].symbol@));
            }
        }
        proof {
            let fin = declarations(*decls);
            let nf = info.functions@.len() as int;
            assert forall|i: int| 0 <= i < nf implies #[trigger] entry_is_function(
                fin,
                function_symbol(&info, bindings, i),
                signature_of(&info, i),
            ) by {
                assert(planned_symbols(&info, bindings)[i] == function_symbol(&info, bindings, i));
            }
            assert forall|j: nat| j < info.tables@.len() implies #[trigger] entry_is_writable_data(
                fin,
                table_symbol(j),
            ) && entry_is_writable_data(fin, table_len_symbol(j)) by {
                assert(planned_symbols(&info, bindings)[nf + 2 * j] == table_symbol(j));
                assert(planned_symbols(&info, bindings)[nf + 2 * j + 1] == table_len_symbol(j));
            }
            assert(planned_symbols(&info, bindings).len() == plan_len(&info));
            assert forall|k: int|
                0 <= k < plan_len(&info) && !start.contains_key(
                    #[trigger] planned_symbols(&info, bindings)[k],
                ) && planned_once(&info, bindings, k) implies linkage_of(
                fin[planned_symbols(&info, bindings)[k]],
            ) == planned_linkage(&info, k) by {}
        }
        Ok(ModuleDecls { info, function_names, table_names })
    }
}

/// `e` reports that the backend refuses `s` for the reason `c`.
pub open spec fn reports_refusal(e: DeclError, s: Seq<char>, c: Option<Refusal>) -> bool {
    match e {
        DeclError::BackendDeclarationFailure { symbol, cause } => symbol@ == s && c == Some(cause),
        _ => false,
    }
}

/// One declaration of a pass: a function of the signature at that index, or
/// table data when there is none.
struct Planned {
    symbol: String,
    linkage: Linkage,
    signature: Option<usize>,
}

/// The total number of declarations of a pass.
pub open spec fn plan_len(info: &ModuleInfo) -> int {
    info.functions@.len() + 2 * info.tables@.len() as int
}

/// What declaration `k` of the pass declares its symbol as.
pub open spec fn planned_shape(info: &ModuleInfo, k: int) -> Shape {
    if k < info.functions@.len() {
        Shape::Func(signature_of(info, k))
    } else {
        Shape::Data(false)
    }
}

spec fn plan_matches(info: &ModuleInfo, b: &Bindings, plan: Seq<Planned>) -> bool {
    &&& plan.len() == plan_len(info)
    &&& planned_symbols(info, b).len() == plan_len(info)
    &&& forall|k: int|
        0 <= k < plan.len() ==> {
            &&& (#[trigger] plan[k]).symbol@ == planned_symbols(info, b)[k]
            &&& if k < info.functions@.len() {
                plan[k].signature == Some(info.functions@[k].entity) && plan[k].linkage
                    == function_linkage(info, k)
            } else {
                plan[k].signature is None && plan[k].linkage == Linkage::Local
            }
        }
}

/// What the first `k` declarations of the pass declare `s` as, if any does.
pub open spec fn shape_from_plan(info: &ModuleInfo, b: &Bindings, s: Seq<char>, k: int) -> Option<
    Shape,
>
    decreases k,
{
    if k <= 0 {
        None
    } else {
        match shape_from_plan(info, b, s, k - 1) {
            Some(x) => Some(x),
            None => if planned_symbols(info, b)[k - 1] == s {
                Some(planned_shape(info, k - 1))
            } else {
                None
            },
        }
    }
}

/// What `s` is declared as once the first `k` declarations are made on a
/// table that held `start`.
pub open spec fn shape_before(
    start: Map<Seq<char>, Declared>,
    info: &ModuleInfo,
    b: &Bindings,
    k: int,
    s: Seq<char>,
) -> Option<Shape> {
    if start.contains_key(s) {
        Some(shape_of(start[s]))
    } else {
        shape_from_plan(info, b, s, k)
    }
}

/// Why the backend refuses declaration `k` of the pass, after the ones before
/// it, on a table that held `start`.
pub open spec fn refusal_at(start: Map<Seq<char>, Declared>, info: &ModuleInfo, b: &Bindings, k: int) -> Option<
    Refusal,
> {
    match shape_before(start, info, b, k, planned_symbols(info, b)[k]) {
        None => None,
        Some(Shape::Func(g)) => match planned_shape(info, k) {
            Shape::Func(f) => if f == g {
                None
            } else {
                Some(Refusal::OtherSignature)
            },
            Shape::Data(_) => Some(Refusal::HeldByFunction),
        },
        Some(Shape::Data(tls)) => match planned_shape(info, k) {
            Shape::Func(_) => Some(Refusal::HeldByData),
            Shape::Data(_) => if tls {
                Some(Refusal::ThreadLocalData)
            } else {
                None
            },
        },
    }
}

/// The backend accepts the first `n` declarations of the pass.
pub open spec fn accepted_below(start: Map<Seq<char>, Declared>, info: &ModuleInfo, b: &Bindings, n: int) -> bool {
    forall|k: int| 0 <= k < n ==> #[trigger] refusal_at(start, info, b, k) is None
}

/// `m` records `s` as a function of signature `sig`.
pub open spec fn entry_is_function(m: Map<Seq<char>, Declared>, s: Seq<char>, sig: Signature) -> bool {
    m.contains_key(s) && match m[s] {
        Declared::Func { signature, .. } => signature == sig,
        _ => false,
    }
}

/// `m` records `s` as writable data that is not thread-local.
pub open spec fn entry_is_writable_data(m: Map<Seq<char>, Declared>, s: Seq<char>) -> bool {
    m.contains_key(s) && match m[s] {
        Declared::Data { writable, tls, .. } => writable && !tls,
        _ => false,
    }
}

/// The linkage recorded in a declaration.
pub open spec fn linkage_of(d: Declared) -> Linkage {
    match d {
        Declared::Func { linkage, .. } => linkage,
        Declared::Data { linkage, .. } => linkage,
    }
}

/// The linkage declaration `k` of the pass asks for.
pub open spec fn planned_linkage(info: &ModuleInfo, k: int) -> Linkage {
    if k < info.functions@.len() {
        function_linkage(info, k)
    } else {
        Linkage::Local
    }
}

/// No other declaration of the pass names the symbol of declaration `k`.
pub open spec fn planned_once(info: &ModuleInfo, b: &Bindings, k: int) -> bool {
    forall|j: int|
        0 <= j < plan_len(info) && j != k ==> #[trigger] planned_symbols(info, b)[j]
            != planned_symbols(info, b)[k]
}

/// After the first `k` declarations on a table that held `start`, `cur` holds
/// the names of `start` with their identifiers and the names planned so far,
/// each declared as `shape_before` says.
pub open spec fn state_after(
    start: Map<Seq<char>, Declared>,
    cur: Map<Seq<char>, Declared>,
    info: &ModuleInfo,
    b: &Bindings,
    k: int,
) -> bool {
    &&& forall|s: Seq<char>| #[trigger]
        cur.contains_key(s) == (start.contains_key(s) || shape_from_plan(info, b, s, k) is Some)
    &&& forall|s: Seq<char>|
        #[trigger] cur.contains_key(s) ==> shape_before(start, info, b, k, s) == Some(
            shape_of(cur[s]),
        )
    &&& forall|s: Seq<char>|
        #[trigger] start.contains_key(s) ==> cur.contains_key(s) && cur[s].id() == start[s].id()
    &&& forall|j: int|
        0 <= j < k && j < info.functions@.len() ==> entry_is_function(
            cur,
            #[trigger] planned_symbols(info, b)[j],
            signature_of(info, j),
        )
    &&& forall|j: int|
        info.functions@.len() <= j < k ==> entry_is_writable_data(
            cur,
            #[trigger] planned_symbols(info, b)[j],
        )
    &&& forall|j: int|
        0 <= j < k && !start.contains_key(#[trigger] planned_symbols(info, b)[j]) && planned_once(
            info,
            b,
            j,
        ) ==> cur.contains_key(planned_symbols(info, b)[j]) && linkage_of(
            cur[planned_symbols(info, b)[j]],
        ) == planned_linkage(info, j)
}

proof fn lemma_state_at_start(start: Map<Seq<char>, Declared>, info: &ModuleInfo, b: &Bindings)
    ensures
        state_after(start, start, info, b, 0),
{
}

/// One more declaration extends `shape_from_plan` by its own shape only when
/// its symbol is new to the pass.
proof fn lemma_step_shape(info: &ModuleInfo, b: &Bindings, k: int)
    requires
        0 <= k,
    ensures
        forall|s: Seq<char>| #[trigger]
            shape_from_plan(info, b, s, k + 1) == match shape_from_plan(info, b, s, k) {
                Some(x) => Some(x),
                None => if planned_symbols(info, b)[k] == s {
                    Some(planned_shape(info, k))
                } else {
                    None
                },
            },
{
}

fn build_plan(info: &ModuleInfo, bindings: &Bindings, fplan: &Vec<(String, Linkage)>) -> (plan: Vec<
    Planned,
>)
    requires
        info.wf(),
        fplan@.len() == info.functions@.len(),
        forall|i: int|
            0 <= i < fplan@.len() ==> (#[trigger] fplan@[i]).0@ == function_symbol(info, bindings, i)
                && fplan@[i].1 == function_linkage(info, i),
    ensures
        plan_matches(info, bindings, plan@),
{
    let mut plan: Vec<Planned> = Vec::new();
    let mut i: usize = 0;
    while i < fplan.len()
        invariant
            info.wf(),
            fplan@.len() == info.functions@.len(),
            forall|i2: int|
                0 <= i2 < fplan@.len() ==> (#[trigger] fplan@[i2]).0@ == function_symbol(info, bindings, i2)
                    && fplan@[i2].1 == function_linkage(info, i2),
            i <= fplan@.len(),
            plan@.len() == i,
            forall|k: int|
                0 <= k < i ==> {
                    &&& (#[trigger] plan@[k]).symbol@ == planned_symbols(info, bindings)[k]
                    &&& plan@[k].signature == Some(info.functions@[k].entity)
                    &&& plan@[k].linkage == function_linkage(info, k)
                },
        decreases fplan@.len() - i,
    {
        plan.push(
            Planned {
                symbol: fplan[i].0.clone(),
                linkage: fplan[i].1,
                signature: Some(info.functions[i].entity),
            },
        );
        i = i + 1;
    }
    let nf = fplan.len();
    let mut j: usize = 0;
    while j < info.tables.len()
        invariant
            info.wf(),
            nf == info.functions@.len(),
            j <= info.tables@.len(),
            plan@.len() == nf + 2 * j,
            forall|k: int|
                0 <= k < nf ==> {
                    &&& (#[trigger] plan@[k]).symbol@ == planned_symbols(info, bindings)[k]
                    &&& plan@[k].signature == Some(info.functions@[k].entity)
                    &&& plan@[k].linkage == function_linkage(info, k)
                },
            forall|k: int|
                nf <= k < nf + 2 * j ==> {
                    &&& (#[trigger] plan@[k]).symbol@ == planned_symbols(info, bindings)[k]
                    &&& plan@[k].signature is None
                    &&& plan@[k].linkage == Linkage::Local
                },
        decreases info.tables@.len() - j,
    {
        let (contents, len) = table_symbols(j);
        assert(planned_symbols(info, bindings)[nf + 2 * j] == contents@);
        assert(planned_symbols(info, bindings)[nf + 2 * j + 1] == len@);
        plan.push(Planned { symbol: contents, linkage: Linkage::Local, signature: None });
        plan.push(Planned { symbol: len, linkage: Linkage::Local, signature: None });
        j = j + 1;
    }
    plan
}

/// The first declaration at or before `k` of the pass that names the same
/// symbol as declaration `k`.
fn first_with_symbol(plan: &Vec<Planned>, k: usize) -> (r: usize)
    requires
        k < plan@.len(),
    ensures
        r <= k,
        plan@[r as int].symbol@ == plan@[k as int].symbol@,
        forall|j: int| 0 <= j < r ==> (#[trigger] plan@[j]).symbol@ != plan@[k as int].symbol@,
{
    let mut j: usize = 0;
    while j < k
        invariant
            j <= k < plan@.len(),
            forall|j2: int| 0 <= j2 < j ==> (#[trigger] plan@[j2]).symbol@ != plan@[k as int].symbol@,
        decreases k - j,
    {
        if plan[j].symbol == plan[k].symbol {
            return j;
        }
        j = j + 1;
    }
    k
}

/// `shape_from_plan` is the shape of the first declaration of the symbol.
proof fn lemma_first_occurrence(info: &ModuleInfo, b: &Bindings, s: Seq<char>, k: int, r: int)
    requires
        0 <= r,
        forall|j: int| 0 <= j < r && j < k ==> planned_symbols(info, b)[j] != s,
        r < k ==> planned_symbols(info, b)[r] == s,
    ensures
        shape_from_plan(info, b, s, k) == if r < k {
            Some(planned_shape(info, r))
        } else {
            None::<Shape>
        },
    decreases k,
{
    if k > 0 {
        lemma_first_occurrence(info, b, s, k - 1, r);
    }
}

/// Why the backend refuses declaration `k`, if it does.
fn refusal_of(
    info: &ModuleInfo,
    bindings: &Bindings,
    plan: &Vec<Planned>,
    decls: &ModuleDeclarations,
    k: usize,
) -> (r: Option<Refusal>)
    requires
        info.wf(),
        plan_matches(info, bindings, plan@),
        k < plan@.len(),
    ensures
        r == refusal_at(declarations(*decls), info, bindings, k as int),
{
    let ghost s = planned_symbols(info, bindings)[k as int];
    let ghost start = declarations(*decls);
    let existing = lookup_shape(decls, plan[k].symbol.as_str());
    match existing {
        Some(Shape::Func(g)) => match plan[k].signature {
            Some(ix) => if g == info.signatures[ix] {
                None
            } else {
                Some(Refusal::OtherSignature)
            },
            None => Some(Refusal::HeldByFunction),
        },
        Some(Shape::Data(tls)) => match plan[k].signature {
            Some(_) => Some(Refusal::HeldByData),
            None => if tls {
                Some(Refusal::ThreadLocalData)
            } else {
                None
            },
        },
        None => {
            let j = first_with_symbol(plan, k);
            proof {
                assert(plan@[k as int].symbol@ == s);
                assert(plan@[j as int].symbol@ == planned_symbols(info, bindings)[j as int]);
                assert forall|j2: int| 0 <= j2 < j && j2 < k implies planned_symbols(info, bindings)[j2]
                    != s by {
                    assert(plan@[j2].symbol@ == planned_symbols(info, bindings)[j2]);
                }
                lemma_first_occurrence(info, bindings, s, k as int, j as int);
            }
            if j == k {
                None
            } else {
                match plan[j].signature {
                    Some(jx) => match plan[k].signature {
                        Some(ix) => if info.signatures[jx] == info.signatures[ix] {
                            None
                        } else {
                            Some(Refusal::OtherSignature)
                        },
                        None => Some(Refusal::HeldByFunction),
                    },
                    None => match plan[k].signature {
                        Some(_) => Some(Refusal::HeldByData),
                        None => None,
                    },
                }
            }
        },
    }
}

/// The first declaration of the pass that the backend refuses, and why.
fn first_refusal(
    info: &ModuleInfo,
    bindings: &Bindings,
    plan: &Vec<Planned>,
    decls: &ModuleDeclarations,
) -> (r: Option<(usize, Refusal)>)
    requires
        info.wf(),
        plan_matches(info, bindings, plan@),
    ensures
        match r {
            None => accepted_below(declarations(*decls), info, bindings, plan@.len() as int),
            Some((k, c)) => {
                &&& k < plan@.len()
                &&& accepted_below(declarations(*decls), info, bindings, k as int)
                &&& refusal_at(declarations(*decls), info, bindings, k as int) == Some(c)
            },
        },
{
    let mut k: usize = 0;
    while k < plan.len()
        invariant
            info.wf(),
            plan_matches(info, bindings, plan@),
            k <= plan@.len(),
            accepted_below(declarations(*decls), info, bindings, k as int),
        decreases plan@.len() - k,
    {
        match refusal_of(info, bindings, plan, decls, k) {
            Some(c) => {
                return Some((k, c));
            },
            None => {},
        }
        k = k + 1;
    }
    None
}

/// A function view is either defined or imported, never both; it is exported
/// exactly when the module gives it an export name; and a function with a
/// stored body is never imported.
pub proof fn law_defined_xor_imported(m: &ModuleDecls, i: int, f: FunctionDecl)
    requires
        m.wf(),
        0 <= i < m.spec_info().functions@.len(),
        m.describes_function(i, f),
    ensures
        f.defined() != f.imported(),
        f.imported() == (m.spec_info().imported_funcs@[i] is Some),
        f.exported() == (m.spec_info().functions@[i].export_names@.len() > 0),
        forall|k: int|
            0 <= k < m.spec_info().function_bodies@.len() && #[trigger] m.spec_info().function_bodies@[k].index
                == i ==> f.defined(),
{
}

/// Declaring the same module with the same bindings gives the same symbols in
/// the same order, whatever identifiers the backend hands out.
pub proof fn law_declaration_is_deterministic(
    m1: &ModuleDecls,
    m2: &ModuleDecls,
    info: &ModuleInfo,
    b: &Bindings,
    names1: Map<Seq<char>, SymbolId>,
    names2: Map<Seq<char>, SymbolId>,
)
    requires
        declared_as(m1, info, b, names1),
        declared_as(m2, info, b, names2),
    ensures
        m1.spec_function_names().len() == m2.spec_function_names().len(),
        m1.spec_table_names().len() == m2.spec_table_names().len(),
        forall|i: int|
            0 <= i < m1.spec_function_names().len() ==> (#[trigger] m1.spec_function_names()[i]).symbol@
                == m2.spec_function_names()[i].symbol@,
        forall|j: int|
            0 <= j < m1.spec_table_names().len() ==> (#[trigger] m1.spec_table_names()[j]).0.symbol@
                == m2.spec_table_names()[j].0.symbol@ && m1.spec_table_names()[j].1.symbol@
                == m2.spec_table_names()[j].1.symbol@,
{
    assert forall|i: int| 0 <= i < m1.spec_function_names().len() implies (
    #[trigger] m1.spec_function_names()[i]).symbol@ == m2.spec_function_names()[i].symbol@ by {
        assert(m2.spec_function_names()[i].symbol@ == function_symbol(info, b, i));
    }
    assert forall|j: int| 0 <= j < m1.spec_table_names().len() implies (
    #[trigger] m1.spec_table_names()[j]).0.symbol@ == m2.spec_table_names()[j].0.symbol@
        && m1.spec_table_names()[j].1.symbol@ == m2.spec_table_names()[j].1.symbol@ by {
        assert(m2.spec_table_names()[j].0.symbol@ == table_symbol(j as nat));
    }
}

/// Table `j` is always named `guest_table_<j>` and `guest_table_<j>_len`:
/// two modules with as many tables get the same table symbols, whatever
/// their tables import, export or hold.
pub proof fn law_table_symbols_by_index(
    m1: &ModuleDecls,
    m2: &ModuleDecls,
    info1: &ModuleInfo,
    info2: &ModuleInfo,
    b1: &Bindings,
    b2: &Bindings,
    names1: Map<Seq<char>, SymbolId>,
    names2: Map<Seq<char>, SymbolId>,
)
    requires
        declared_as(m1, info1, b1, names1),
        declared_as(m2, info2, b2, names2),
        info1.tables@.len() == info2.tables@.len(),
    ensures
        forall|j: int|
            0 <= j < info1.tables@.len() ==> {
                &&& (#[trigger] m1.spec_table_names()[j]).0.symbol@ == table_symbol(j as nat)
                &&& m1.spec_table_names()[j].1.symbol@ == table_len_symbol(j as nat)
                &&& m1.spec_table_names()[j].0.symbol@ == m2.spec_table_names()[j].0.symbol@
                &&& m1.spec_table_names()[j].1.symbol@ == m2.spec_table_names()[j].1.symbol@
            },
{
    assert forall|j: int| 0 <= j < info1.tables@.len() implies {
        &&& (#[trigger] m1.spec_table_names()[j]).0.symbol@ == table_symbol(j as nat)
        &&& m1.spec_table_names()[j].1.symbol@ == table_len_symbol(j as nat)
        &&& m1.spec_table_names()[j].0.symbol@ == m2.spec_table_names()[j].0.symbol@
        &&& m1.spec_table_names()[j].1.symbol@ == m2.spec_table_names()[j].1.symbol@
    } by {
        assert(m2.spec_table_names()[j].0.symbol@ == table_symbol(j as nat));
    }
}

} // verus!
