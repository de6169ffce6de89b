//! The verified core of the Emscripten environment for wasmer: the static
//! memory layout that the environment hands to a module, the decisions made
//! from a module's function imports, the names under which the environment's
//! exports are published, and the set-up of the dynamic-top word in memory.
#![allow(unused_imports)]

pub mod layout;
pub mod text;
pub mod imports;
pub mod namespace;
pub mod memory;
pub mod module_imports;
pub mod startup;
pub mod env;
pub mod exports;
pub mod metadata;
