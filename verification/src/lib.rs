//! A verified intermediate-representation core for a stack-machine bytecode
//! backend: an owned, rewritable expression/statement tree for construction,
//! a content-addressed hash-consed graph for the canonical form, the
//! interning engine shared by every entity kind, and the tree-lowering
//! passes that prepare a tree for interning.

pub mod asm_v1;
pub mod bimap;
pub mod fxmap;
pub mod istring;
pub mod tpe;
pub mod cil_node;
pub mod cil_root;
pub mod util;
pub mod v2;
