//! Fibonacci numbers, three ways: a resumable generator, an iterative
//! loop, and the naive recursion.  All three agree with the spec-level
//! `fib` sequence.

use vstd::prelude::*;

verus! {

/// The Fibonacci sequence with `fib(0) == 0` and `fib(1) == 1`.
pub open spec fn fib(n: nat) -> nat
    decreases n,
{
    if n == 0 {
        0
    } else if n == 1 {
        1
    } else {
        fib((n - 1) as nat) + fib((n - 2) as nat)
    }
}

/// `fib` never decreases from one index to the next.
proof fn lemma_fib_step_monotonic(n: nat)
    ensures
        fib(n) <= fib(n + 1),
    decreases n,
{
    if n > 1 {
        lemma_fib_step_monotonic((n - 1) as nat);
    }
}

/// `fib` is monotonic.
pub proof fn lemma_fib_monotonic(i: nat, j: nat)
    requires
        i <= j,
    ensures
        fib(i) <= fib(j),
    decreases j - i,
{
    if i < j {
        lemma_fib_monotonic(i, (j - 1) as nat);
        lemma_fib_step_monotonic((j - 1) as nat);
    }
}

/// A resumable Fibonacci generator.  `curr` and `next` hold two adjacent
/// elements of the sequence; each call to `next` advances by one.
pub struct Fibonacci {
    pub curr: u64,
    pub next: u64,
}

impl Fibonacci {
    /// The generator sits at position `k` when it holds `fib(k)` and `fib(k + 1)`.
    pub open spec fn at(&self, k: nat) -> bool {
        self.curr == fib(k) && self.next == fib(k + 1)
    }

    /// Yields the next element of the sequence, or `None` once the
    /// following element would no longer fit in a `u64`.
    pub fn next(&mut self) -> (r: Option<u64>)
        ensures
            old(self).curr + old(self).next <= u64::MAX ==> {
                &&& r == Some(old(self).next)
                &&& final(self).curr == old(self).next
                &&& final(self).next == old(self).curr + old(self).next
            },
            old(self).curr + old(self).next > u64::MAX ==> {
                &&& r is None
                &&& *final(self) == *old(self)
            },
    {
        let new_next = match self.curr.checked_add(self.next) {
            Some(v) => v,
            None => {
                return None;
            },
        };
        self.curr = self.next;
        self.next = new_next;
        Some(self.curr)
    }
}

impl Default for Fibonacci {
    /// A fresh generator sits at position 0.
    fn default() -> (r: Self)
        ensures
            r.curr == 0 && r.next == 1,
            r.at(0),
    {
        Self { curr: 0, next: 1 }
    }
}

/// The `n`-th element yielded by the generator, which is `fib(n + 1)`.
pub fn fibonacci_iter(n: usize) -> (r: u64)
    requires
        fib(n as nat + 2) <= u64::MAX,
    ensures
        r == fib(n as nat + 1),
{
    let mut gen = Fibonacci::default();
    let mut i: usize = 0;
    let mut out: u64 = gen.next().unwrap();
    proof {
        lemma_fib_monotonic(2, n as nat + 2);
    }
    while i < n
        invariant
            i <= n,
            gen.at(i as nat + 1),
            out == fib(i as nat + 1),
            fib(n as nat + 2) <= u64::MAX,
        decreases n - i,
    {
        proof {
            lemma_fib_monotonic(i as nat + 3, n as nat + 2);
        }
        out = gen.next().unwrap();
        i = i + 1;
    }
    out
}

/// Iterative Fibonacci: returns `fib(n + 1)`.
pub fn fibonacci(n: u64) -> (r: u64)
    requires
        fib(n as nat + 1) <= u64::MAX,
    ensures
        r == fib(n as nat + 1),
{
    let mut a: u64 = 0;
    let mut b: u64 = 1;

    match n {
        0 => b,
        _ => {
            let mut i: u64 = 0;
            while i < n
                invariant
                    i <= n,
                    a == fib(i as nat),
                    b == fib(i as nat + 1),
                    fib(n as nat + 1) <= u64::MAX,
                decreases n - i,
            {
                proof {
                    lemma_fib_monotonic(i as nat + 2, n as nat + 1);
                }
                let c = a + b;
                a = b;
                b = c;
                i = i + 1;
            }
            b
        },
    }
}

/// Recursive Fibonacci: returns `fib(n + 1)`.
pub fn fibonacci_rec(n: u64) -> (r: u64)
    requires
        fib(n as nat + 1) <= u64::MAX,
    ensures
        r == fib(n as nat + 1),
    decreases n,
{
    match n {
        0 => {
            proof {
                reveal_with_fuel(fib, 2);
            }
            1
        },
        1 => {
            proof {
                reveal_with_fuel(fib, 3);
            }
            1
        },
        n => {
            proof {
                lemma_fib_monotonic((n - 1) as nat, n as nat + 1);
                lemma_fib_monotonic(n as nat, n as nat + 1);
            }
            fibonacci_rec(n - 1) + fibonacci_rec(n - 2)
        },
    }
}

} // verus!
