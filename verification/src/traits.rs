//! The transport capability pair: the minimal interface a transport must
//! satisfy to take part in the relay.
//!
//! A transport offers a receive operation that yields the next inbound
//! item or a terminal failure, and a send operation that delivers one
//! outbound item or a terminal failure.  Both are specified against a
//! ghost model: a stream knows the items it has yet to yield, a sink
//! knows the items it has accepted so far.

use vstd::prelude::*;

verus! {

/// Chat communication error: the terminal signal of a transport.
#[derive(Debug)]
pub struct ChatCommErr {
    msg: String,
}

/// The abstract value of a `ChatCommErr` is its description.
impl View for ChatCommErr {
    type V = Seq<char>;

    closed spec fn view(&self) -> Seq<char> {
        self.msg@
    }
}

impl ChatCommErr {
    /// The single description every transport failure carries.
    pub open spec fn spec_msg() -> Seq<char> {
        "Error Chatting"@
    }

    pub fn new() -> (r: Self)
        ensures
            r@ == Self::spec_msg(),
    {
        Self { msg: String::from_str("Error Chatting") }
    }

    /// The human-readable form of the error.
    pub fn message(&self) -> (r: String)
        ensures
            r@ == "Error "@ + self@,
    {
        let out = String::from_str("Error ");
        out.concat(self.msg.as_str())
    }
}

/// An item that can be duplicated: the bus hands a copy of a published
/// item to every subscription, so items must support this.
pub trait Duplicable: View + Sized {
    /// Produces a copy whose abstract value equals the original's.
    fn dup(&self) -> (r: Self)
        ensures
            r@ == self@,
    ;
}

impl Duplicable for String {
    fn dup(&self) -> (r: Self) {
        self.clone()
    }
}

/// The send capability: writes one item, or fails terminally.
///
/// `sent()` is the abstract log of items the sink has accepted; a failed
/// send leaves it unchanged (sends are atomic).  After a terminal result
/// the caller must stop issuing sends.
pub trait ChatSink: Sized {
    type Item: View;

    /// The items accepted so far, in order, by abstract value.
    spec fn sent(&self) -> Seq<<Self::Item as View>::V>;

    fn send_msg(&mut self, msg: Self::Item) -> (r: Result<(), ChatCommErr>)
        ensures
            match r {
                Ok(()) => final (self).sent() == old(self).sent().push(msg@),
                Err(_) => final (self).sent() == old(self).sent(),
            },
    ;
}

/// The receive capability: yields the next inbound item, or fails
/// terminally (peer close, stream error, or empty read).
///
/// `pending()` is the abstract queue of items the stream will still
/// yield; receives deliver it front to back and may stop early with a
/// terminal failure.  It is safe to keep calling `recv_msg` until then.
pub trait ChatStream: Sized {
    type Item: View;

    /// The items not yet yielded, front first, by abstract value.
    spec fn pending(&self) -> Seq<<Self::Item as View>::V>;

    fn recv_msg(&mut self) -> (r: Result<Self::Item, ChatCommErr>)
        ensures
            match r {
                Ok(item) => {
                    &&& old(self).pending().len() > 0
                    &&& item@ == old(self).pending()[0]
                    &&& final (self).pending() == old(self).pending().drop_first()
                },
                Err(_) => final (self).pending() == old(self).pending(),
            },
    ;
}

} // verus!
