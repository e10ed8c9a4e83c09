//! Lowering: from the parse tree to a linear, register-style instruction
//! list with absolute branch targets.

pub mod instructions;
pub mod parsetree;

pub use instructions::VMBinaryOperation;
pub use instructions::VMFunction;
pub use instructions::VMInstruction;
pub use instructions::VMInstructionType;
pub use instructions::VMValue;
pub use instructions::VMVariable;
pub use parsetree::compile_function;
