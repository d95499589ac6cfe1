//! Exclusive contexts: wraps a block of caller code in a never-called,
//! uniquely named `const` declaration, so that many such blocks can share
//! one scope without declaring the same name twice.
pub mod ident;
pub mod emit;
