//! The backend's declaration table, reached through trusted wrappers.
use cranelift_codegen::ir::Signature;
use cranelift_codegen::isa::TargetFrontendConfig;
use cranelift_module::{ModuleDeclarations, ModuleError};
use vstd::prelude::*;

verus! {

#[verifier::external_type_specification]
#[verifier::external_body]
pub struct ExModuleDeclarations(ModuleDeclarations);

#[verifier::external_type_specification]
#[verifier::external_body]
pub struct ExModuleError(ModuleError);

#[verifier::external_type_specification]
#[verifier::external_body]
pub struct ExSignature(Signature);

#[verifier::external_type_specification]
#[verifier::external_body]
pub struct ExTargetFrontendConfig(TargetFrontendConfig);

/// Visibility and binding mode of a declared symbol.
#[derive(Clone, Copy, Debug, PartialEq, Eq, Structural)]
pub enum Linkage {
    /// Supplied from outside the artifact.
    Import,
    /// Internal to the artifact.
    Local,
    /// Visible outside the artifact, and may be preempted.
    Preemptible,
    /// Visible inside the static linkage unit only.
    Hidden,
    /// Visible to external linkers.
    Export,
}

/// The linkage a symbol keeps when it is declared again with another one.
pub open spec fn merge_linkage(a: Linkage, b: Linkage) -> Linkage {
    match a {
        Linkage::Export => Linkage::Export,
        Linkage::Hidden => match b {
            Linkage::Export => Linkage::Export,
            Linkage::Preemptible => Linkage::Preemptible,
            _ => Linkage::Hidden,
        },
        Linkage::Preemptible => match b {
            Linkage::Export => Linkage::Export,
            _ => Linkage::Preemptible,
        },
        Linkage::Local => match b {
            Linkage::Export => Linkage::Export,
            Linkage::Hidden => Linkage::Hidden,
            Linkage::Preemptible => Linkage::Preemptible,
            Linkage::Local | Linkage::Import => Linkage::Local,
        },
        Linkage::Import => b,
    }
}

/// The identifier that the backend issued for a declared symbol.
#[derive(Clone, Copy, Debug, PartialEq, Eq, Structural)]
pub enum SymbolId {
    Func(u32),
    Data(u32),
}

/// What a declaration table records for one declared name.
pub enum Declared {
    Func { id: u32, linkage: Linkage, signature: Signature },
    Data { id: u32, linkage: Linkage, writable: bool, tls: bool },
}

impl Declared {
    pub open spec fn id(&self) -> SymbolId {
        match self {
            Declared::Func { id, .. } => SymbolId::Func(*id),
            Declared::Data { id, .. } => SymbolId::Data(*id),
        }
    }
}

/// What a declaration table holds: each declared name with its declaration.
pub uninterp spec fn declarations(d: ModuleDeclarations) -> Map<Seq<char>, Declared>;

/// Each declared name with its identifier.
pub closed spec fn declared_names(d: ModuleDeclarations) -> Map<Seq<char>, SymbolId> {
    declarations(d).map_values(|v: Declared| v.id())
}

/// A name is in `declared_names` exactly when it is declared, with the
/// identifier of its declaration.
pub proof fn lemma_declared_names(d: ModuleDeclarations)
    ensures
        forall|s: Seq<char>| #[trigger]
            declared_names(d).contains_key(s) == declarations(d).contains_key(s),
        forall|s: Seq<char>|
            declarations(d).contains_key(s) ==> #[trigger] declared_names(d)[s]
                == declarations(d)[s].id(),
{
}

/// `m` holds `name` as a thread-local data object.
pub open spec fn holds_tls_data(m: Map<Seq<char>, Declared>, name: Seq<char>) -> bool {
    m.contains_key(name) && m[name] matches Declared::Data { tls: true, .. }
}

/// The declaration `m` holds for `name`, if any.
pub open spec fn entry(m: Map<Seq<char>, Declared>, name: Seq<char>) -> Option<Declared> {
    if m.contains_key(name) {
        Some(m[name])
    } else {
        None
    }
}

/// Relies on `ModuleDeclarations::declare_function`. A new name is recorded
/// as a function and accepted. A name held by a data object is refused. A
/// name held by a function gets the merged linkage, and is accepted with that
/// function's identifier when the signatures are equal, refused otherwise.
/// `FuncId::as_u32` gives the identifier.
#[verifier::external_body]
pub(crate) fn declare_function_in(
    d: &mut ModuleDeclarations,
    name: &str,
    linkage: Linkage,
    signature: &Signature,
) -> (r: Result<u32, ModuleError>)
    ensures
        match entry(declarations(*old(d)), name@) {
            None => r matches Ok(id) && declarations(*final(d)) == declarations(*old(d)).insert(
                name@,
                Declared::Func { id, linkage, signature: *signature },
            ),
            Some(Declared::Data { .. }) => r is Err && declarations(*final(d)) == declarations(
                *old(d),
            ),
            Some(Declared::Func { id, linkage: l, signature: s }) => {
                &&& declarations(*final(d)) == declarations(*old(d)).insert(
                    name@,
                    Declared::Func { id, linkage: merge_linkage(l, linkage), signature: s },
                )
                &&& if s == *signature {
                    r == Ok::<u32, ModuleError>(id)
                } else {
                    r is Err
                }
            },
        },
{
    let linkage = match linkage {
        Linkage::Import => cranelift_module::Linkage::Import,
        Linkage::Local => cranelift_module::Linkage::Local,
        Linkage::Preemptible => cranelift_module::Linkage::Preemptible,
        Linkage::Hidden => cranelift_module::Linkage::Hidden,
        Linkage::Export => cranelift_module::Linkage::Export,
    };
    d.declare_function(name, linkage, signature).map(|(id, _)| id.as_u32())
}

/// Relies on `ModuleDeclarations::declare_data`, always with `tls` false,
/// which panics on a name held by a thread-local data object. A new name is
/// recorded as a data object and accepted. A name held by a function is
/// refused. A name held by a data object is accepted with its identifier, and
/// gets the merged linkage and writability. `DataId::as_u32` gives the
/// identifier.
#[verifier::external_body]
pub(crate) fn declare_data_in(
    d: &mut ModuleDeclarations,
    name: &str,
    linkage: Linkage,
    writable: bool,
) -> (r: Result<u32, ModuleError>)
    requires
        !holds_tls_data(declarations(*old(d)), name@),
    ensures
        match entry(declarations(*old(d)), name@) {
            None => r matches Ok(id) && declarations(*final(d)) == declarations(*old(d)).insert(
                name@,
                Declared::Data { id, linkage, writable, tls: false },
            ),
            Some(Declared::Func { .. }) => r is Err && declarations(*final(d)) == declarations(
                *old(d),
            ),
            Some(Declared::Data { id, linkage: l, writable: w, tls }) => {
                &&& declarations(*final(d)) == declarations(*old(d)).insert(
                    name@,
                    Declared::Data { id, linkage: merge_linkage(l, linkage), writable: w || writable, tls },
                )
                &&& r == Ok::<u32, ModuleError>(id)
            },
        },
{
    let linkage = match linkage {
        Linkage::Import => cranelift_module::Linkage::Import,
        Linkage::Local => cranelift_module::Linkage::Local,
        Linkage::Preemptible => cranelift_module::Linkage::Preemptible,
        Linkage::Hidden => cranelift_module::Linkage::Hidden,
        Linkage::Export => cranelift_module::Linkage::Export,
    };
    d.declare_data(name, linkage, writable, false).map(|(id, _)| id.as_u32())
}

/// What decides whether a declared name can be declared again: a function
/// with its signature, or a data object and whether it is thread-local.
pub enum Shape {
    Func(Signature),
    Data(bool),
}

pub open spec fn shape_of(d: Declared) -> Shape {
    match d {
        Declared::Func { signature, .. } => Shape::Func(signature),
        Declared::Data { tls, .. } => Shape::Data(tls),
    }
}

/// Relies on `ModuleDeclarations::get_name`, `get_function_decl` and
/// `get_data_decl`: what `name` is declared as, if it is declared.
#[verifier::external_body]
pub(crate) fn lookup_shape(d: &ModuleDeclarations, name: &str) -> (r: Option<Shape>)
    ensures
        r == match entry(declarations(*d), name@) {
            Some(x) => Some(shape_of(x)),
            None => None::<Shape>,
        },
{
    match d.get_name(name) {
        Some(cranelift_module::FuncOrDataId::Func(id)) => {
            Some(Shape::Func(d.get_function_decl(id).signature.clone()))
        },
        Some(cranelift_module::FuncOrDataId::Data(id)) => Some(Shape::Data(d.get_data_decl(id).tls)),
        None => None,
    }
}

/// Relies on the derived `PartialEq` of `Signature`, which compares every field.
pub assume_specification[ <Signature as core::cmp::PartialEq>::eq ](a: &Signature, b: &Signature) -> (r: bool)
    ensures
        r == (*a == *b),
;

} // verus!
