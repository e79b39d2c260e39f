//! Lottery drawing: a pot of consecutive numbers, randomly shuffled,
//! from which the first few are taken.
//!
//! The randomness comes from the process-wide generator of the `rand`
//! crate; the contracts state only what holds of every outcome.

use vstd::prelude::*;

use rand::prelude::IteratorRandom;
use rand::seq::SliceRandom;

verus! {

/// Draws `amount` distinct numbers out of `1..=max` at random.  Fewer
/// come back only when the range itself has fewer.
///
/// Relies on rand's `IteratorRandom::choose_multiple`: reservoir
/// sampling returns `min(amount, len)` elements of the iterator, each
/// picked from a distinct position.
#[verifier::external_body]
pub fn lotto_draw(amount: usize, max: usize) -> (r: Vec<usize>)
    ensures
        r@.len() == if amount <= max {
            amount as int
        } else {
            max as int
        },
        forall|i: int| 0 <= i < r@.len() ==> 1 <= #[trigger] r@[i] <= max,
        forall|i: int, j: int| 0 <= i < j < r@.len() ==> r@[i] != r@[j],
{
    let pot = 1..=max;
    let mut rng = rand::thread_rng();
    pot.choose_multiple(&mut rng, amount)
}

/// Reorders `v` at random, keeping exactly the same numbers.
///
/// Relies on rand's `SliceRandom::shuffle`: an in-place Fisher-Yates
/// pass, which only swaps elements.
#[verifier::external_body]
fn shuffle_numbers(v: &mut Vec<usize>)
    ensures
        final (v)@.len() == old(v)@.len(),
        final (v)@.to_multiset() == old(v)@.to_multiset(),
{
    let mut rng = rand::thread_rng();
    v.shuffle(&mut rng);
}

/// One lottery: a pot of numbers `1..=from` and how many to take.
pub struct Lotto {
    pub take: usize,
    pub pot: Vec<usize>,
}

impl Lotto {
    /// A fresh lottery over the pot `1..=from`, in order.
    pub fn new(take: usize, from: usize) -> (r: Self)
        ensures
            r.take == take,
            r.pot@.len() == from,
            forall|i: int| 0 <= i < from ==> #[trigger] r.pot@[i] == i + 1,
    {
        let mut pot: Vec<usize> = Vec::new();
        let mut k: usize = 0;
        while k < from
            invariant
                k <= from,
                pot@.len() == k,
                forall|i: int| 0 <= i < k ==> #[trigger] pot@[i] == i + 1,
            decreases from - k,
        {
            pot.push(k + 1);
            k = k + 1;
        }
        Lotto { take, pot }
    }

    /// Shuffles the pot in place: the numbers stay the same, only their
    /// order changes.
    pub fn shuffle(&mut self)
        ensures
            final (self).take == old(self).take,
            final (self).pot@.len() == old(self).pot@.len(),
            final (self).pot@.to_multiset() == old(self).pot@.to_multiset(),
    {
        shuffle_numbers(&mut self.pot);
    }

    /// The first `take` numbers of the pot (all of it, if the pot is
    /// smaller), in pot order.
    pub fn take(&self) -> (r: Vec<usize>)
        ensures
            r@ == self.pot@.take(
                if self.take <= self.pot@.len() {
                    self.take as int
                } else {
                    self.pot@.len() as int
                },
            ),
    {
        let n = if self.take <= self.pot.len() {
            self.take
        } else {
            self.pot.len()
        };
        let mut r: Vec<usize> = Vec::new();
        let mut i: usize = 0;
        while i < n
            invariant
                i <= n,
                n <= self.pot@.len(),
                r@ == self.pot@.take(n as int).take(i as int),
            decreases n - i,
        {
            r.push(self.pot[i]);
            proof {
                assert(r@ =~= self.pot@.take(n as int).take(i as int + 1));
            }
            i = i + 1;
        }
        proof {
            assert(self.pot@.take(n as int).take(n as int) =~= self.pot@.take(n as int));
        }
        r
    }
}

} // verus!
