//! The line-of-text transport binding: items are lines read from a
//! byte-stream connection.
//!
//! The receive half reads up to and including a line terminator and
//! yields the accumulated text, terminator included, with no trimming or
//! other reinterpretation; an empty read is treated as a close.  The
//! send half writes an item's text verbatim, appending no terminator,
//! and fails atomically: either the whole item is recorded as written or
//! nothing is.

use vstd::prelude::*;

use crate::traits::{ChatCommErr, ChatSink, ChatStream, Duplicable};

verus! {

/// The prefix of `s` up to and including its first line terminator, or
/// all of `s` if it has none.
pub open spec fn first_line(s: Seq<char>) -> Seq<char>
    decreases s.len(),
{
    if s.len() == 0 {
        Seq::empty()
    } else if s[0] == '\n' {
        seq!['\n']
    } else {
        seq![s[0]] + first_line(s.drop_first())
    }
}

/// A non-empty text starts a non-empty line, no longer than the text.
pub proof fn lemma_first_line_len(s: Seq<char>)
    ensures
        s.len() == 0 ==> first_line(s).len() == 0,
        s.len() > 0 ==> 1 <= first_line(s).len() <= s.len(),
    decreases s.len(),
{
    if s.len() > 0 && s[0] != '\n' {
        lemma_first_line_len(s.drop_first());
    }
}

/// `s` split into lines, each carrying its terminator; the last line
/// may lack one.
pub open spec fn lines_of(s: Seq<char>) -> Seq<Seq<char>>
    decreases s.len(),
    via lines_of_dec
{
    if s.len() == 0 {
        Seq::empty()
    } else {
        seq![first_line(s)] + lines_of(s.skip(first_line(s).len() as int))
    }
}

#[via_fn]
proof fn lines_of_dec(s: Seq<char>) {
    lemma_first_line_len(s);
}

/// If the first terminator of `s` sits at index `j`, the first line is
/// everything through it.
proof fn lemma_first_line_at(s: Seq<char>, j: int)
    requires
        0 <= j < s.len(),
        s[j] == '\n',
        forall|t: int| 0 <= t < j ==> s[t] != '\n',
    ensures
        first_line(s) =~= s.subrange(0, j + 1),
    decreases j,
{
    if j == 0 {
        assert(first_line(s) =~= s.subrange(0, 1));
    } else {
        let s1 = s.drop_first();
        assert(forall|t: int| 0 <= t < j - 1 ==> s1[t] != '\n');
        lemma_first_line_at(s1, j - 1);
        assert(first_line(s) =~= s.subrange(0, j + 1));
    }
}

/// A text without a terminator is one single line.
proof fn lemma_first_line_all(s: Seq<char>)
    requires
        forall|t: int| 0 <= t < s.len() ==> s[t] != '\n',
    ensures
        first_line(s) =~= s,
    decreases s.len(),
{
    if s.len() > 0 {
        lemma_first_line_all(s.drop_first());
        assert(first_line(s) =~= s);
    }
}

/// The index one past the first line terminator at or after `from`, or
/// the end of `s` if there is none.
fn scan_line(s: &str, from: usize, n: usize) -> (end: usize)
    requires
        n as nat == s@.len(),
        from <= n,
    ensures
        from <= end <= n,
        end > from && s@[end - 1] == '\n' ==> forall|t: int| from <= t < end - 1 ==> s@[t] != '\n',
        end == n && (end == from || s@[end - 1] != '\n') ==> forall|t: int|
            from <= t < n ==> s@[t] != '\n',
        end > from && s@[end - 1] != '\n' ==> end == n,
        end == from ==> end == n,
{
    let mut j = from;
    while j < n
        invariant
            from <= j <= n,
            n as nat == s@.len(),
            forall|t: int| from <= t < j ==> s@[t] != '\n',
        decreases n - j,
    {
        if s.get_char(j) == '\n' {
            return j + 1;
        }
        j = j + 1;
    }
    j
}

/// The receive half of a line-oriented connection, reading lines off a
/// fixed inbound byte stream.
pub struct LineStream {
    data: String,
    pos: usize,
}

impl LineStream {
    /// A receive half whose peer will deliver exactly `data`.
    pub fn new(data: String) -> (r: Self)
        ensures
            r.pending() == lines_of(data@),
    {
        let r = LineStream { data, pos: 0 };
        proof {
            assert(r.data@.skip(0) =~= r.data@);
        }
        r
    }
}

impl ChatStream for LineStream {
    type Item = String;

    /// The lines not yet yielded.
    closed spec fn pending(&self) -> Seq<Seq<char>> {
        if self.pos as int <= self.data@.len() {
            lines_of(self.data@.skip(self.pos as int))
        } else {
            Seq::empty()
        }
    }

    /// This model is deterministic: the terminal result comes exactly
    /// at the end of the byte stream (the zero-length read), never
    /// before.
    fn recv_msg(&mut self) -> (r: Result<String, ChatCommErr>)
        ensures
            r is Err <==> old(self).pending().len() == 0,
    {
        let n = self.data.as_str().unicode_len();
        if self.pos >= n {
            proof {
                if self.pos as int <= self.data@.len() {
                    assert(self.data@.skip(self.pos as int) =~= Seq::<char>::empty());
                }
            }
            return Err(ChatCommErr::new());
        }
        let end = scan_line(self.data.as_str(), self.pos, n);
        let line = self.data.as_str().substring_char(self.pos, end).to_owned();
        let ghost oldpos = self.pos as int;
        let ghost rest = self.data@.skip(oldpos);
        proof {
            if end > self.pos && self.data@[end - 1] == '\n' {
                assert(rest[end - 1 - oldpos] == '\n');
                assert(forall|t: int| 0 <= t < end - 1 - oldpos ==> rest[t] != '\n');
                lemma_first_line_at(rest, end - 1 - oldpos);
            } else {
                assert(forall|t: int| 0 <= t < rest.len() ==> rest[t] != '\n');
                lemma_first_line_all(rest);
            }
            assert(line@ =~= first_line(rest));
        }
        self.pos = end;
        proof {
            assert(self.data@.skip(end as int) =~= rest.skip(first_line(rest).len() as int));
            assert(old(self).pending() == seq![first_line(rest)] + lines_of(
                rest.skip(first_line(rest).len() as int),
            ));
            assert(line@ == old(self).pending()[0]);
            assert(self.pending() =~= old(self).pending().drop_first());
        }
        Ok(line)
    }
}

/// The total text a sequence of sent lines puts on the wire.
pub open spec fn concat_all(ls: Seq<Seq<char>>) -> Seq<char>
    decreases ls.len(),
{
    if ls.len() == 0 {
        Seq::empty()
    } else {
        concat_all(ls.drop_last()) + ls.last()
    }
}

/// Prepending one line distributes over concatenation.
proof fn lemma_concat_all_cons(x: Seq<char>, ls: Seq<Seq<char>>)
    ensures
        concat_all(seq![x] + ls) == x + concat_all(ls),
    decreases ls.len(),
{
    if ls.len() == 0 {
        let one = seq![x] + ls;
        assert(one.drop_last() =~= Seq::<Seq<char>>::empty());
        assert(one.last() == x);
        assert(concat_all(Seq::<Seq<char>>::empty()) =~= Seq::<char>::empty());
        assert(concat_all(one) == concat_all(one.drop_last()) + one.last());
        assert(concat_all(one) =~= x + concat_all(ls));
    } else {
        let s = seq![x] + ls;
        assert(s.drop_last() =~= seq![x] + ls.drop_last());
        assert(s.last() == ls.last());
        lemma_concat_all_cons(x, ls.drop_last());
        assert((x + concat_all(ls.drop_last())) + ls.last() =~= x + (concat_all(ls.drop_last())
            + ls.last()));
    }
}

/// Line framing loses and adds nothing: the lines of a text, written
/// back to back, give the text again.  The receive half yields exactly
/// `lines_of` of its input, so everything a line stream reads reaches
/// the bus byte for byte.
pub proof fn lemma_lines_roundtrip(s: Seq<char>)
    ensures
        concat_all(lines_of(s)) == s,
    decreases s.len(),
{
    if s.len() == 0 {
        assert(concat_all(lines_of(s)) =~= s);
    } else {
        lemma_first_line_len(s);
        let l = first_line(s).len() as int;
        lemma_lines_roundtrip(s.skip(l));
        lemma_concat_all_cons(first_line(s), lines_of(s.skip(l)));
        assert(first_line(s) =~= s.take(l)) by {
            lemma_first_line_is_prefix(s);
        }
        assert(s.take(l) + s.skip(l) =~= s);
    }
}

/// The first line is a prefix of the text.
proof fn lemma_first_line_is_prefix(s: Seq<char>)
    ensures
        first_line(s) =~= s.take(first_line(s).len() as int),
    decreases s.len(),
{
    if s.len() > 0 && s[0] != '\n' {
        lemma_first_line_is_prefix(s.drop_first());
        lemma_first_line_len(s.drop_first());
        assert(first_line(s) =~= s.take(first_line(s).len() as int));
    }
}

/// The send half of a line-oriented connection: records each item
/// written, in order.  If primed with `failing_after(k)`, the send after
/// `k` successful ones fails terminally, recording nothing.
pub struct LineSink {
    lines: Vec<String>,
    fail_after: Option<usize>,
}

impl LineSink {
    /// How many more sends this half will accept: `None` is unlimited;
    /// a send that finds `Some(0)` fails.
    pub closed spec fn fail_budget(&self) -> Option<nat> {
        match self.fail_after {
            None => None,
            Some(k) => Some(
                if self.lines@.len() <= k {
                    (k - self.lines@.len()) as nat
                } else {
                    0
                },
            ),
        }
    }

    /// A send half that accepts every line.
    pub fn new() -> (r: Self)
        ensures
            r.sent() == Seq::<Seq<char>>::empty(),
            r.fail_budget() is None,
    {
        let r = LineSink { lines: Vec::new(), fail_after: None };
        proof {
            assert(r.sent() =~= Seq::<Seq<char>>::empty());
        }
        r
    }

    /// A send half whose sends fail once `k` lines have been accepted.
    pub fn failing_after(k: usize) -> (r: Self)
        ensures
            r.sent() == Seq::<Seq<char>>::empty(),
            r.fail_budget() == Some(k as nat),
    {
        let r = LineSink { lines: Vec::new(), fail_after: Some(k) };
        proof {
            assert(r.sent() =~= Seq::<Seq<char>>::empty());
        }
        r
    }

    /// The lines accepted so far, oldest first.
    pub fn written(&self) -> (r: &Vec<String>)
        ensures
            r@.map_values(|s: String| s@) == self.sent(),
    {
        &self.lines
    }

    /// The byte stream this sink has produced: exactly the sent items'
    /// text, concatenated, with nothing added in between.
    pub fn wire(&self) -> (r: String)
        ensures
            r@ == concat_all(self.sent()),
    {
        let mut out = String::new();
        let mut i: usize = 0;
        proof {
            assert(self.sent().take(0) =~= Seq::<Seq<char>>::empty());
        }
        while i < self.lines.len()
            invariant
                i <= self.lines.len(),
                out@ == concat_all(self.sent().take(i as int)),
                self.sent() == self.lines@.map_values(|s: String| s@),
            decreases self.lines.len() - i,
        {
            let ghost prev = self.sent().take(i as int);
            out.append(self.lines[i].as_str());
            i = i + 1;
            proof {
                assert(self.sent().take(i as int).drop_last() =~= prev);
                assert(self.sent().take(i as int).last() == self.sent()[i - 1]);
            }
        }
        proof {
            assert(self.sent().take(self.lines@.len() as int) =~= self.sent());
        }
        out
    }
}

impl ChatSink for LineSink {
    type Item = String;

    /// The lines accepted so far.
    closed spec fn sent(&self) -> Seq<Seq<char>> {
        self.lines@.map_values(|s: String| s@)
    }

    /// This model is deterministic: the terminal result comes exactly
    /// when the failure budget is spent, and each accepted send uses
    /// one unit of it.
    fn send_msg(&mut self, msg: String) -> (r: Result<(), ChatCommErr>)
        ensures
            r is Err <==> old(self).fail_budget() == Some(0nat),
            final (self).fail_budget() == match old(self).fail_budget() {
                None => None::<nat>,
                Some(m) => if m == 0 {
                    Some(0nat)
                } else {
                    Some((m - 1) as nat)
                },
            },
    {
        let fails = match self.fail_after {
            Some(k) => self.lines.len() >= k,
            None => false,
        };
        if fails {
            Err(ChatCommErr::new())
        } else {
            let ghost prev = self.sent();
            let ghost mv = msg@;
            self.lines.push(msg);
            proof {
                assert(self.sent() =~= prev.push(mv));
            }
            Ok(())
        }
    }
}

} // verus!
