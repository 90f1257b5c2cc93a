//! Marshaling engine for glue code between a host scripting environment and a
//! compiled wasm module that communicate through linear memory and numeric
//! call arguments.
//!
//! The library models the structural type system of the interface description
//! (`ty`), classifies function signatures for the scalar fast path
//! (`classify`), computes the byte size and alignment of every type in the
//! graph (`layout`), implements the runtime marshaling helpers over a model of
//! the module's linear memory (`memory`, `text`, `lists`), plans the
//! lowering/lifting wrapper for marshaled functions and runs the call
//! protocol with its release obligation (`wrapper`), and builds the
//! import/export name wiring (`wiring`). The generation options and their
//! loader decision live in `options`, the error taxonomy in `errors`.

pub mod errors;
pub mod ty;
pub mod classify;
pub mod layout;
pub mod memory;
pub mod text;
pub mod lists;
pub mod wrapper;
pub mod wiring;
pub mod options;

