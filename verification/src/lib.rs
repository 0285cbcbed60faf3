//! The execution core of a TeX-family typesetting engine: it consumes
//! already-expanded command tokens and assembles typeset nodes into
//! horizontal lists, vertical lists, math lists, and pages.
//!
//! The engine's mode is a derived function of the stack of open node lists;
//! entry points take the values the surrounding engine has already read
//! (dimensions, parsed numbers, resolved tokens) and hand mutations of the
//! symbol table back as explicit [`actions::StateAction`] values, so that
//! every decision the core makes is stated in a contract.

pub mod dims;
pub mod tokens;
pub mod nodes;
pub mod modes;
pub mod actions;
pub mod marks;
pub mod stomach;
pub mod assign;
pub mod outside;
pub mod boxes;
pub mod aligns;
pub mod paragraph;
pub mod math;
pub mod vsplit;
pub mod dispatch;
pub mod laws;

