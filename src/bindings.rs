//! The policy that renames imported functions to the symbols that the host
//! provides for them.
use vstd::prelude::*;

verus! {

/// One rule of the policy: the import `module`.`field` is bound to `symbol`.
pub struct ImportBinding {
    pub module: String,
    pub field: String,
    pub symbol: String,
}

/// An ordered list of import bindings; the first rule that matches wins.
pub struct Bindings {
    pub entries: Vec<ImportBinding>,
}

/// The symbol that the first rule from position `k` on gives to `module`.`field`.
pub open spec fn lookup_from(
    entries: Seq<ImportBinding>,
    module: Seq<char>,
    field: Seq<char>,
    k: int,
) -> Option<Seq<char>>
    decreases entries.len() - k,
{
    if k < 0 || k >= entries.len() {
        None
    } else if entries[k].module@ == module && entries[k].field@ == field {
        Some(entries[k].symbol@)
    } else {
        lookup_from(entries, module, field, k + 1)
    }
}

impl Bindings {
    /// The symbol bound to `module`.`field`, if any rule binds it.
    pub open spec fn resolve(&self, module: Seq<char>, field: Seq<char>) -> Option<Seq<char>> {
        lookup_from(self.entries@, module, field, 0)
    }

    /// A policy that binds nothing.
    pub fn new() -> (r: Bindings)
        ensures
            r.entries@.len() == 0,
            forall|m: Seq<char>, f: Seq<char>| r.resolve(m, f) is None,
    {
        Bindings { entries: Vec::new() }
    }

    /// Adds a rule after the existing ones.
    pub fn add(&mut self, module: String, field: String, symbol: String)
        ensures
            final(self).entries@ == old(self).entries@.push(
                ImportBinding { module: module, field: field, symbol: symbol },
            ),
    {
        self.entries.push(ImportBinding { module, field, symbol });
    }

    /// Translates an import pair to its binary symbol name.
    pub fn translate(&self, module: &String, field: &String) -> (r: Option<String>)
        ensures
            match r {
                Some(s) => self.resolve(module@, field@) == Some(s@),
                None => self.resolve(module@, field@) is None,
            },
    {
        let mut k: usize = 0;
        while k < self.entries.len()
            invariant
                k <= self.entries@.len(),
                lookup_from(self.entries@, module@, field@, k as int) == self.resolve(module@, field@),
            decreases self.entries@.len() - k,
        {
            let e = &self.entries[k];
            if e.module == *module && e.field == *field {
                return Some(e.symbol.clone());
            }
            k = k + 1;
        }
        None
    }
}

} // verus!
