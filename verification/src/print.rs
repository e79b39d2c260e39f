//! Printing values to standard output through one small capability
//! trait.

use std::io::Write;
use vstd::prelude::*;

verus! {

/// Anything that can print itself to standard output.
pub trait Print {
    fn print(&self);
}

/// Relies on std::io::stdout and the writeln macro: writes the number's
/// decimal form and a newline to standard output.
#[verifier::external_body]
fn print_u128(v: u128) {
    let mut out = std::io::stdout();
    let _ = writeln!(out, "{}", v);
}

impl Print for u128 {
    fn print(&self) {
        print_u128(*self)
    }
}

} // verus!
