//! The framed transport binding: items are structured frames (text,
//! binary, or a control/close signal), as a websocket-style duplex
//! connection delivers them.
//!
//! The receive half maps the connection's "next frame or close/error"
//! result onto the Item/Terminal contract with no reinterpretation of
//! the payload; the send half forwards frames unchanged.  The two halves
//! are modelled over explicit frame scripts: the inbound half holds the
//! frames the peer will deliver, the outbound half records what was
//! sent and can be primed to fail.

use vstd::prelude::*;

use crate::traits::{ChatCommErr, ChatSink, ChatStream, Duplicable};

verus! {

/// One structured frame.
#[derive(Debug, Clone, PartialEq, Eq)]
pub enum Frame {
    Text(String),
    Binary(Vec<u8>),
    Close,
}

/// The abstract value of a frame.
pub enum FrameView {
    Text(Seq<char>),
    Binary(Seq<u8>),
    Close,
}

impl View for Frame {
    type V = FrameView;

    closed spec fn view(&self) -> FrameView {
        match self {
            Frame::Text(s) => FrameView::Text(s@),
            Frame::Binary(b) => FrameView::Binary(b@),
            Frame::Close => FrameView::Close,
        }
    }
}

impl Duplicable for Frame {
    fn dup(&self) -> (r: Self) {
        match self {
            Frame::Text(s) => Frame::Text(s.clone()),
            Frame::Binary(b) => {
                let c = b.clone();
                proof {
                    assert(c@ =~= b@);
                }
                Frame::Binary(c)
            },
            Frame::Close => Frame::Close,
        }
    }
}

/// The receive half of a framed connection: yields the scripted frames
/// in order, then reports the peer as gone.
pub struct FramedStream {
    frames: Vec<Frame>,
    pos: usize,
}

impl FramedStream {
    /// A receive half whose peer will deliver exactly `frames`.
    pub fn new(frames: Vec<Frame>) -> (r: Self)
        ensures
            r.pending() == frames@.map_values(|f: Frame| f@),
    {
        let r = FramedStream { frames, pos: 0 };
        proof {
            assert(r.pending() =~= r.frames@.map_values(|f: Frame| f@));
        }
        r
    }
}

impl ChatStream for FramedStream {
    type Item = Frame;

    /// The frames not yet yielded.
    closed spec fn pending(&self) -> Seq<FrameView> {
        let all = self.frames@.map_values(|f: Frame| f@);
        if self.pos as int <= all.len() {
            all.skip(self.pos as int)
        } else {
            Seq::empty()
        }
    }

    /// This model is deterministic: the terminal result comes exactly
    /// when the script is exhausted, never before.
    fn recv_msg(&mut self) -> (r: Result<Frame, ChatCommErr>)
        ensures
            r is Err <==> old(self).pending().len() == 0,
    {
        if self.pos < self.frames.len() {
            let f = self.frames[self.pos].dup();
            self.pos = self.pos + 1;
            proof {
                let all = self.frames@.map_values(|g: Frame| g@);
                assert(f@ == all[self.pos - 1]);
                assert(f@ == old(self).pending()[0]);
                assert(self.pending() =~= old(self).pending().drop_first());
            }
            Ok(f)
        } else {
            Err(ChatCommErr::new())
        }
    }
}

/// The send half of a framed connection: records the frames written, in
/// order.  If primed with `failing_after(k)`, the send after `k`
/// successful ones fails terminally, leaving the record unchanged.
pub struct FramedSink {
    written: Vec<Frame>,
    fail_after: Option<usize>,
}

impl FramedSink {
    /// How many more sends this half will accept: `None` is unlimited;
    /// a send that finds `Some(0)` fails.
    pub closed spec fn fail_budget(&self) -> Option<nat> {
        match self.fail_after {
            None => None,
            Some(k) => Some(
                if self.written@.len() <= k {
                    (k - self.written@.len()) as nat
                } else {
                    0
                },
            ),
        }
    }

    /// A send half that accepts every frame.
    pub fn new() -> (r: Self)
        ensures
            r.sent() == Seq::<FrameView>::empty(),
            r.fail_budget() is None,
    {
        let r = FramedSink { written: Vec::new(), fail_after: None };
        proof {
            assert(r.sent() =~= Seq::<FrameView>::empty());
        }
        r
    }

    /// A send half whose sends fail once `k` frames have been accepted.
    pub fn failing_after(k: usize) -> (r: Self)
        ensures
            r.sent() == Seq::<FrameView>::empty(),
            r.fail_budget() == Some(k as nat),
    {
        let r = FramedSink { written: Vec::new(), fail_after: Some(k) };
        proof {
            assert(r.sent() =~= Seq::<FrameView>::empty());
        }
        r
    }

    /// The frames accepted so far, oldest first.
    pub fn written(&self) -> (r: &Vec<Frame>)
        ensures
            r@.map_values(|f: Frame| f@) == self.sent(),
    {
        &self.written
    }
}

impl ChatSink for FramedSink {
    type Item = Frame;

    /// The frames accepted so far.
    closed spec fn sent(&self) -> Seq<FrameView> {
        self.written@.map_values(|f: Frame| f@)
    }

    /// This model is deterministic: the terminal result comes exactly
    /// when the failure budget is spent, and each accepted send uses
    /// one unit of it.
    fn send_msg(&mut self, msg: Frame) -> (r: Result<(), ChatCommErr>)
        ensures
            r is Err <==> old(self).fail_budget() == Some(0nat),
            final (self).fail_budget() == match old(self).fail_budget() {
                None => None::<nat>,
                Some(m) => if m == 0 {
                    Some(0nat)
                } else {
                    Some((m - 1) as nat)
                },
            },
    {
        let fails = match self.fail_after {
            Some(k) => self.written.len() >= k,
            None => false,
        };
        if fails {
            Err(ChatCommErr::new())
        } else {
            let ghost prev = self.sent();
            let ghost mv = msg@;
            self.written.push(msg);
            proof {
                assert(self.sent() =~= prev.push(mv));
            }
            Ok(())
        }
    }
}

} // verus!
