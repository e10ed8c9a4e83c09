//! The single-stepping virtual machine over lowered functions.

pub mod runtime;

pub use runtime::ExecutionFrame;
pub use runtime::Runtime;
pub use runtime::UpdateData;
