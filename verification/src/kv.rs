//! The key-value store behind the HTTP service: string keys mapped to
//! byte values.
//!
//! The store keeps its entries as an ordered list where the newest
//! entry for a key wins; its abstract value is the finite map those
//! entries denote.  Lookups answer for the newest entry, updates
//! supersede older ones, and removal drops every entry of the key.

use vstd::prelude::*;

verus! {

/// The map denoted by an entry list, newest entry winning.
pub open spec fn map_of(s: Seq<(Seq<char>, Seq<u8>)>) -> Map<Seq<char>, Seq<u8>>
    decreases s.len(),
{
    if s.len() == 0 {
        Map::empty()
    } else {
        map_of(s.drop_last()).insert(s.last().0, s.last().1)
    }
}

/// The entry list without any entry of key `k`, order kept.
pub open spec fn without_key(s: Seq<(Seq<char>, Seq<u8>)>, k: Seq<char>) -> Seq<
    (Seq<char>, Seq<u8>),
>
    decreases s.len(),
{
    if s.len() == 0 {
        Seq::empty()
    } else if s.last().0 == k {
        without_key(s.drop_last(), k)
    } else {
        without_key(s.drop_last(), k).push(s.last())
    }
}

/// If the newest entry of key `k` sits at index `i`, the map answers
/// with its value.
proof fn lemma_map_of_last_match(s: Seq<(Seq<char>, Seq<u8>)>, i: int, k: Seq<char>)
    requires
        0 <= i < s.len(),
        s[i].0 == k,
        forall|t: int| i < t < s.len() ==> s[t].0 != k,
    ensures
        map_of(s).contains_key(k),
        map_of(s)[k] == s[i].1,
    decreases s.len(),
{
    if i < s.len() - 1 {
        lemma_map_of_last_match(s.drop_last(), i, k);
    }
}

/// A key with no entry is not in the map.
proof fn lemma_map_of_absent(s: Seq<(Seq<char>, Seq<u8>)>, k: Seq<char>)
    requires
        forall|t: int| 0 <= t < s.len() ==> s[t].0 != k,
    ensures
        !map_of(s).contains_key(k),
    decreases s.len(),
{
    if s.len() > 0 {
        lemma_map_of_absent(s.drop_last(), k);
    }
}

/// Dropping every entry of a key removes exactly that key from the map.
proof fn lemma_map_of_without(s: Seq<(Seq<char>, Seq<u8>)>, k: Seq<char>)
    ensures
        map_of(without_key(s, k)) == map_of(s).remove(k),
    decreases s.len(),
{
    if s.len() == 0 {
        assert(map_of(without_key(s, k)) =~= map_of(s).remove(k));
    } else {
        let d = s.drop_last();
        lemma_map_of_without(d, k);
        if s.last().0 == k {
            assert(map_of(d).remove(k) =~= map_of(d).insert(s.last().0, s.last().1).remove(k));
        } else {
            let w = without_key(d, k).push(s.last());
            assert(w.drop_last() =~= without_key(d, k));
            assert(map_of(w) == map_of(without_key(d, k)).insert(s.last().0, s.last().1));
            assert(map_of(d).remove(k).insert(s.last().0, s.last().1) =~= map_of(d).insert(
                s.last().0,
                s.last().1,
            ).remove(k));
        }
    }
}

/// A copy of a byte value.
fn dup_bytes(b: &Vec<u8>) -> (c: Vec<u8>)
    ensures
        c@ == b@,
{
    let c = b.clone();
    proof {
        assert(c@ =~= b@);
    }
    c
}

/// The shared application state: all keys and their values.
pub struct AppState {
    entries: Vec<(String, Vec<u8>)>,
}

impl View for AppState {
    type V = Map<Seq<char>, Seq<u8>>;

    closed spec fn view(&self) -> Map<Seq<char>, Seq<u8>> {
        map_of(Self::pairs(self.entries@))
    }
}

impl Default for AppState {
    /// An empty store.
    fn default() -> (r: Self)
        ensures
            r@ == Map::<Seq<char>, Seq<u8>>::empty(),
    {
        let r = AppState { entries: Vec::new() };
        proof {
            assert(r@ =~= Map::<Seq<char>, Seq<u8>>::empty());
        }
        r
    }
}

impl AppState {
    /// The abstract values of an entry list.
    pub closed spec fn pairs(v: Seq<(String, Vec<u8>)>) -> Seq<(Seq<char>, Seq<u8>)> {
        v.map_values(|p: (String, Vec<u8>)| (p.0@, p.1@))
    }

    /// The value stored for `key`, if any: the newest entry wins.
    pub fn get(&self, key: &String) -> (r: Option<&Vec<u8>>)
        ensures
            match r {
                Some(v) => self@.contains_key(key@) && v@ == self@[key@],
                None => !self@.contains_key(key@),
            },
    {
        let ghost ps = Self::pairs(self.entries@);
        let mut i = self.entries.len();
        while i > 0
            invariant
                i <= self.entries.len(),
                ps == Self::pairs(self.entries@),
                forall|t: int| i <= t < ps.len() ==> ps[t].0 != key@,
            decreases i,
        {
            i = i - 1;
            if self.entries[i].0.eq(key) {
                proof {
                    assert(ps[i as int].0 == key@);
                    lemma_map_of_last_match(ps, i as int, key@);
                }
                return Some(&self.entries[i].1);
            }
            proof {
                assert(ps[i as int].0 != key@);
            }
        }
        proof {
            lemma_map_of_absent(ps, key@);
        }
        None
    }

    /// Stores `value` under `key`, superseding any earlier value.
    pub fn set(&mut self, key: String, value: Vec<u8>)
        ensures
            final (self)@ == old(self)@.insert(key@, value@),
    {
        let ghost ps = Self::pairs(self.entries@);
        let ghost kv = key@;
        let ghost vv = value@;
        self.entries.push((key, value));
        proof {
            let ps2 = Self::pairs(self.entries@);
            assert(ps2.drop_last() =~= ps);
            assert(ps2.last() == (kv, vv));
            assert(self@ == map_of(ps).insert(kv, vv));
        }
    }

    /// Drops whatever is stored under `key`.
    pub fn remove(&mut self, key: &String)
        ensures
            final (self)@ == old(self)@.remove(key@),
    {
        let ghost ps = Self::pairs(self.entries@);
        let mut kept: Vec<(String, Vec<u8>)> = Vec::new();
        let mut i: usize = 0;
        proof {
            assert(Self::pairs(kept@) =~= without_key(ps.take(0), key@));
        }
        while i < self.entries.len()
            invariant
                i <= self.entries.len(),
                ps == Self::pairs(self.entries@),
                Self::pairs(kept@) == without_key(ps.take(i as int), key@),
            decreases self.entries.len() - i,
        {
            let ghost prev = Self::pairs(kept@);
            let ghost tk = ps.take(i as int);
            let ghost tk2 = ps.take(i as int + 1);
            proof {
                assert(tk2.drop_last() =~= tk);
                assert(tk2.last() == ps[i as int]);
            }
            if !self.entries[i].0.eq(key) {
                let pair = (self.entries[i].0.clone(), dup_bytes(&self.entries[i].1));
                let ghost pv = (pair.0@, pair.1@);
                kept.push(pair);
                proof {
                    assert(pv == ps[i as int]);
                    assert(Self::pairs(kept@) =~= prev.push(pv));
                }
            }
            i = i + 1;
        }
        proof {
            assert(ps.take(ps.len() as int) =~= ps);
        }
        self.entries = kept;
        proof {
            lemma_map_of_without(ps, key@);
        }
    }

    /// Drops every key.
    pub fn clear(&mut self)
        ensures
            final (self)@ == Map::<Seq<char>, Seq<u8>>::empty(),
    {
        self.entries.clear();
        proof {
            assert(self@ =~= Map::<Seq<char>, Seq<u8>>::empty());
        }
    }
}

/// Serves a read of `key`: the stored value, or 404 when the key holds
/// nothing.
pub fn kv_store_get(state: &AppState, key: &String) -> (r: Result<Vec<u8>, u16>)
    ensures
        state@.contains_key(key@) ==> (r matches Ok(v) && v@ == state@[key@]),
        !state@.contains_key(key@) ==> r == Err::<Vec<u8>, u16>(404u16),
{
    match state.get(key) {
        Some(v) => Ok(dup_bytes(v)),
        None => Err(404),
    }
}

/// Serves a write of `value` under `key`; always succeeds.
pub fn kv_store_set(state: &mut AppState, key: String, value: Vec<u8>)
    ensures
        final (state)@ == old(state)@.insert(key@, value@),
{
    state.set(key, value)
}

/// Maps a service failure to a status and message: a timeout answers
/// 408, anything else is an internal error carrying its description.
pub fn handle_error(timed_out: bool, detail: &str) -> (r: (u16, String))
    ensures
        timed_out ==> r.0 == 408 && r.1@ == "request timed out"@,
        !timed_out ==> r.0 == 500 && r.1@ == "Unhandled internal error: "@ + detail@,
{
    if timed_out {
        (408, String::from_str("request timed out"))
    } else {
        let msg = String::from_str("Unhandled internal error: ");
        (500, msg.concat(detail))
    }
}

} // verus!
