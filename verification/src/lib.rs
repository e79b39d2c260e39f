//! A transport-agnostic, bidirectional message relay.
//!
//! Independently connected clients exchange messages through a shared
//! broadcast bus.  The relay loop is written once, against a capability
//! interface for "can receive an item" and "can send an item", and is
//! reusable across transports whose native item types differ (structured
//! frames vs. plain text lines).
//!
//! Beside the relay core, the crate carries a few small verified
//! components that the surrounding deployments use: a key-value store,
//! decimal number parsing, Fibonacci generators, a lottery drawer, and a
//! request-logging service shell.

use vstd::prelude::*;

pub mod bus;
pub mod echo;
mod fibonacci;
pub mod framed;
pub mod greet;
pub mod kv;
pub mod line;
pub mod logsvc;
pub mod lotto;
pub mod numbers;
pub mod print;
pub mod relay;
pub mod traits;

pub use fibonacci::fib;
pub use fibonacci::fibonacci;
pub use fibonacci::fibonacci_iter;
pub use fibonacci::fibonacci_rec;
pub use fibonacci::Fibonacci;
use print::Print;

verus! {

/// This function adds two numbers, printing both along the way.
pub fn add(left: u128, right: u128) -> (r: u128)
    requires
        left + right <= u128::MAX,
    ensures
        r == left + right,
{
    left.print();
    right.print();
    left + right
}

} // verus!
