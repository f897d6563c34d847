//! The kinds of runtime error.

use vstd::prelude::*;

verus! {

/// The only runtime error kinds. Each surfaces as an error value that ends the run.
#[derive(Debug, Clone, Copy, PartialEq, Eq, Structural)]
pub enum Error {
    /// A command's name resolved to a value that is no function.
    CALL,
    /// A type lookup missed.
    DESC,
    /// No dispatch path applies.
    DISP,
    /// An internal met a value of unexpected shape.
    TYPE,
    /// An internal that the machine does not implement.
    IMPL,
    /// A value lookup missed.
    READ,
}

/// Why a source cannot be compiled.
#[derive(Debug, Clone, Copy, PartialEq, Eq, Structural)]
pub enum SyntaxError {
    /// The source holds nothing but white space and comments.
    Empty,
    /// A quotation mark that nothing closes.
    Quotes,
    /// Brackets that do not balance.
    Brackets,
    /// A number that cannot be read.
    Number,
    /// A node without the children that its instructions name.
    Shape,
    /// More registers than can be counted.
    Registers,
}

} // verus!
