//! The chat server's two greeting replies.  The HTTP extraction around
//! them lives with the deployment; the text computed is pinned here.

use vstd::prelude::*;

verus! {

/// The reply of the greeting route: `Hello` and the caller's name, or
/// `World` when none was given.
pub fn hello(name: Option<String>) -> (r: String)
    ensures
        match name {
            Some(n) => r@ == "Hello "@ + n@,
            None => r@ == "Hello World"@,
        },
{
    match name {
        Some(n) => String::from_str("Hello ").concat(n.as_str()),
        None => String::from_str("Hello World"),
    }
}

/// The reply of the named greeting route: `Hello` and the path's name.
pub fn hi(name: &str) -> (r: String)
    ensures
        r@ == "Hello "@ + name@,
{
    String::from_str("Hello ").concat(name)
}

} // verus!
