//! Declaration and linkage resolution for the functions and tables of a
//! WebAssembly module: every entity is given exactly one backend symbol.
pub mod backend;
pub mod decls;
pub mod bindings;
pub mod module_info;
pub mod symbol;
