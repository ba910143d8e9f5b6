//! The canonical, content-addressed representation: interned entity kinds,
//! the operation/effect catalogs over handles, and the assembly aggregate.

pub mod tpe;
pub mod cilnode;
pub mod cilroot;
pub mod assembly;
pub mod from_v1;
