//! The x86 specific parts of the compiler.

pub mod debug;
pub mod emit;
pub mod encoding;
pub mod inst;
pub mod laws;
pub mod layout;
pub mod mentions;
pub mod mode;
pub mod ops;
pub mod reg;
pub mod text;
