//! Decides what to do with a compiled WebAssembly artifact: run it under a
//! test runner, or serve it in a browser behind a generated HTML page.

mod page_proofs;
pub mod path;
pub mod task;
pub mod template;
