//! Decisions of the TCP deployments: the echo service's reply, and the
//! origin-tagged chat variant that suppresses self-echo.
//!
//! The generic relay core delivers a publisher's own items back to it.
//! A deployment that wants self-echo suppression opts in by tagging
//! each published item with its origin's address and discarding matches
//! at the send step; those decisions live here, as plain functions the
//! I/O loops act on.

use vstd::prelude::*;

use crate::numbers::{trim, trim_spec};
use crate::traits::Duplicable;

verus! {

/// A message on the tagged chat bus.
#[derive(Debug, Clone)]
pub enum Msg {
    /// One line of chat text.
    Message(String),
    /// The peer with this address left.
    Disconnect(String),
}

/// The abstract value of a `Msg`.
pub enum MsgView {
    Message(Seq<char>),
    Disconnect(Seq<char>),
}

impl View for Msg {
    type V = MsgView;

    closed spec fn view(&self) -> MsgView {
        match self {
            Msg::Message(s) => MsgView::Message(s@),
            Msg::Disconnect(a) => MsgView::Disconnect(a@),
        }
    }
}

impl Duplicable for Msg {
    fn dup(&self) -> (r: Self) {
        match self {
            Msg::Message(s) => Msg::Message(s.clone()),
            Msg::Disconnect(a) => Msg::Disconnect(a.clone()),
        }
    }
}

/// A bus item tagged with the address it came from.
#[derive(Debug, Clone)]
pub struct Tagged {
    pub from: String,
    pub msg: Msg,
}

/// The abstract value of a `Tagged`.
pub struct TaggedView {
    pub from: Seq<char>,
    pub msg: MsgView,
}

impl View for Tagged {
    type V = TaggedView;

    closed spec fn view(&self) -> TaggedView {
        TaggedView { from: self.from@, msg: self.msg@ }
    }
}

impl Duplicable for Tagged {
    fn dup(&self) -> (r: Self) {
        Tagged { from: self.from.clone(), msg: self.msg.dup() }
    }
}

/// Whether an inbound line asks to leave the chat: its text, trimmed,
/// is exactly `exit`.
pub fn is_exit_line(line: &str) -> (r: bool)
    ensures
        r == (trim_spec(line@) == "exit"@),
{
    let t = trim(line);
    let a = String::from_str(t);
    let b = String::from_str("exit");
    a.eq(&b)
}

/// What the reading task publishes for one transport read.
#[derive(Debug)]
pub enum InboundStep {
    /// Publish this and keep reading.
    Publish(Msg),
    /// Publish this and stop: the peer left or the read failed.
    Leave(Msg),
}

/// The reading task's policy: a failed or empty read, or an `exit`
/// line, announces the departure of `addr`; any other line is
/// published as chat text, untrimmed.
pub fn inbound_step(addr: &String, read: Option<String>) -> (r: InboundStep)
    ensures
        match read {
            Some(line) => {
                &&& trim_spec(line@) != "exit"@ ==> r == InboundStep::Publish(Msg::Message(line))
                &&& trim_spec(line@) == "exit"@ ==> r == InboundStep::Leave(
                    Msg::Disconnect(*addr),
                )
            },
            None => r == InboundStep::Leave(Msg::Disconnect(*addr)),
        },
{
    match read {
        Some(line) => {
            if is_exit_line(line.as_str()) {
                InboundStep::Leave(Msg::Disconnect(addr.clone()))
            } else {
                InboundStep::Publish(Msg::Message(line))
            }
        },
        None => InboundStep::Leave(Msg::Disconnect(addr.clone())),
    }
}

/// What the writing task does with one bus item.
#[derive(Debug)]
pub enum OutboundStep {
    /// Write this text to the peer.
    Write(String),
    /// Nothing to do for this item.
    Ignore,
    /// The own peer left: stop the writing task.
    Stop,
}

/// The writing task's policy: chat text from another peer is written as
/// `origin > text`; the connection's own text is discarded (self-echo
/// suppression); a departure ends the task only when it is the own
/// peer's.
pub fn outbound_step(addr: &String, item: &Tagged) -> (r: OutboundStep)
    ensures
        match item@.msg {
            MsgView::Message(m) => {
                &&& item@.from != addr@ ==> (r matches OutboundStep::Write(w) && w@ == item@.from
                    + " > "@ + m)
                &&& item@.from == addr@ ==> r is Ignore
            },
            MsgView::Disconnect(a) => {
                &&& a == addr@ ==> r is Stop
                &&& a != addr@ ==> r is Ignore
            },
        },
{
    match &item.msg {
        Msg::Message(m) => {
            if item.from.eq(addr) {
                OutboundStep::Ignore
            } else {
                let w = item.from.clone().concat(" > ").concat(m.as_str());
                OutboundStep::Write(w)
            }
        },
        Msg::Disconnect(a) => {
            if a.eq(addr) {
                OutboundStep::Stop
            } else {
                OutboundStep::Ignore
            }
        },
    }
}

/// The echo service's reply to one inbound line.
pub fn echo_reply(line: &str) -> (r: String)
    ensures
        r@ == "Echo > "@ + line@,
{
    String::from_str("Echo > ").concat(line)
}

} // verus!
