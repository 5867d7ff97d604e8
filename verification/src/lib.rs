//! The front end of the MMC compiler, and the parts of its back end that are specific to x86.
//!
//! The front end reads Lisp values ([`lisp`]) as MMC programs ([`ast`]), one level at a time. What it
//! reads is given by the functions of [`parser::Grammar`], which the functions of
//! [`parser::Parser`] compute. The back end ([`x86`]) emits instructions with virtual registers, tells
//! the register allocator what they read and write, and computes how long the instructions are that
//! come out of it. What holds of each half as a whole is in [`parser::laws`] and in [`x86::laws`].
//!
//! How each construct is written is in [`parser::readback`], [`parser::expressions`],
//! [`parser::meanings`] and [`parser::declarations`], what is said of one that is written otherwise
//! in [`parser::complaints`], and where a name in a formula is bound in [`parser::scopes`]. Which
//! registers an instruction reads and writes is in [`x86::mentions`], and of which bytes it is made
//! up in [`x86::encoding`]. How values and their models correspond is in [`models`].

pub mod ast;
pub mod entity;
pub mod env;
pub mod error;
pub mod keyword;
pub mod lisp;
pub mod models;
pub mod number;
pub mod parser;
pub mod size;
pub mod span;
pub mod text;
pub mod uncons;
pub mod vecs;
pub mod x86;
