//! The parsed description of one module, as the declaration pass consumes it.
use cranelift_codegen::ir::Signature;
use cranelift_codegen::isa::TargetFrontendConfig;
use vstd::prelude::*;

verus! {

/// An entity together with the names under which the module exports it.
pub struct Exportable<T> {
    pub entity: T,
    pub export_names: Vec<String>,
}

/// The limits of a table, counted in elements.
#[derive(Clone, Copy, Debug, PartialEq, Eq, Structural)]
pub struct Table {
    pub minimum: u64,
    pub maximum: Option<u64>,
}

/// The bytecode of a locally defined function, with its offset in the module.
pub struct FunctionBody {
    pub index: usize,
    pub code: Vec<u8>,
    pub offset: usize,
}

/// Functions and tables of a module, each index space dense and aligned:
/// `functions[i]` (whose entity is an index into `signatures`) and
/// `imported_funcs[i]` describe function `i`, and likewise for tables.
pub struct ModuleInfo {
    pub target_config: TargetFrontendConfig,
    pub signatures: Vec<Signature>,
    pub functions: Vec<Exportable<usize>>,
    pub imported_funcs: Vec<Option<(String, String)>>,
    pub tables: Vec<Exportable<Table>>,
    pub imported_tables: Vec<Option<(String, String)>>,
    pub function_bodies: Vec<FunctionBody>,
}

impl ModuleInfo {
    /// The index spaces line up, every signature index is in range, and every
    /// body belongs to a function that is not imported.
    pub open spec fn wf(&self) -> bool {
        &&& self.imported_funcs@.len() == self.functions@.len()
        &&& self.imported_tables@.len() == self.tables@.len()
        &&& forall|i: int|
            0 <= i < self.functions@.len() ==> #[trigger] self.functions@[i].entity
                < self.signatures@.len()
        &&& forall|k: int|
            0 <= k < self.function_bodies@.len() ==> {
                &&& #[trigger] self.function_bodies@[k].index < self.functions@.len()
                &&& self.imported_funcs@[self.function_bodies@[k].index as int] is None
            }
    }

    /// Whether `wf` holds.
    pub fn is_well_formed(&self) -> (r: bool)
        ensures
            r == self.wf(),
    {
        if self.imported_funcs.len() != self.functions.len() || self.imported_tables.len()
            != self.tables.len() {
            return false;
        }
        let mut i: usize = 0;
        while i < self.functions.len()
            invariant
                i <= self.functions@.len(),
                forall|j: int| 0 <= j < i ==> #[trigger] self.functions@[j].entity < self.signatures@.len(),
            decreases self.functions@.len() - i,
        {
            if self.functions[i].entity >= self.signatures.len() {
                return false;
            }
            i = i + 1;
        }
        let mut k: usize = 0;
        while k < self.function_bodies.len()
            invariant
                k <= self.function_bodies@.len(),
                self.imported_funcs@.len() == self.functions@.len(),
                forall|j: int|
                    0 <= j < k ==> {
                        &&& #[trigger] self.function_bodies@[j].index < self.functions@.len()
                        &&& self.imported_funcs@[self.function_bodies@[j].index as int] is None
                    },
            decreases self.function_bodies@.len() - k,
        {
            let index = self.function_bodies[k].index;
            if index >= self.functions.len() || self.imported_funcs[index].is_some() {
                return false;
            }
            k = k + 1;
        }
        true
    }
}

} // verus!
