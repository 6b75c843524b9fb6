//! A safety layer between application code and a native, reference-counted
//! tensor-compiler execution engine.
//!
//! The engine itself (drivers, devices, buffers, and the virtual machine that
//! runs compiled entry points) is an external collaborator reached over a
//! C-ABI call surface.  This crate supplies the resource-ownership and
//! call-marshaling discipline around it: ownership wrappers that release each
//! opaque handle exactly once, a typed value list for marshaling scalars and
//! references into calls, the single-shot lifecycle of a runtime call, and a
//! bridge from native status codes to structured errors.
//!
//! The engine's observable behaviour is captured by [`engine::Engine`], an
//! instrumented ledger of handle reference counts, buffer contents, installed
//! drivers, and scripted operation outcomes.  Every wrapper operation states
//! exactly how it moves that ledger, so the acquire/release discipline and the
//! marshaling rules are machine-checked rather than assumed.

pub mod allocator;
pub mod call;
pub mod engine;
pub mod hal_buffer;
pub mod hal_device;
pub mod hal_driver;
pub mod status;
pub mod string;
pub mod utils;
