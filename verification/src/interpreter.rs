//! The value model shared by both back ends, and the tree-walking
//! interpreter.

pub mod builtin;
pub mod context;
pub mod error;
pub mod executor;
pub mod function;
pub mod parsetree;
pub mod value;

pub use context::RunTime;
pub use error::RuntimeError;
pub use executor::Executor;
pub use function::Function;
pub use value::ArrayCell;
pub use value::Heap;
pub use value::Value;
