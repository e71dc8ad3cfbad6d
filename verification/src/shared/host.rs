//! What the library asks of its host.
//!
//! Three things are floating-point work and are not done here: arithmetic
//! that rounds, reading a decimal numeral, and writing out a number that is
//! not integral. Wherever one is needed the library hands out a
//! [`HostRequest`] and goes on once it is given the [`HostReply`].
use vstd::prelude::*;

verus! {

/// The arithmetic that rounds.
#[derive(Clone, Copy, Debug, PartialEq, Eq, Structural)]
pub enum ArithmeticOp {
    Add,
    Subtract,
    Multiply,
    Divide,
    Modulo,
}

#[derive(Debug)]
pub enum HostRequest {
    /// The number that this text denotes, if it denotes one.
    ReadNumber(String),
    /// The text of this number.
    WriteNumber(u64),
    /// The result of `left op right`.
    Arithmetic { op: ArithmeticOp, left: u64, right: u64 },
}

pub enum HostRequestView {
    ReadNumber(Seq<char>),
    WriteNumber(u64),
    Arithmetic { op: ArithmeticOp, left: u64, right: u64 },
}

impl View for HostRequest {
    type V = HostRequestView;

    open spec fn view(&self) -> HostRequestView {
        match self {
            HostRequest::ReadNumber(s) => HostRequestView::ReadNumber(s@),
            HostRequest::WriteNumber(bits) => HostRequestView::WriteNumber(*bits),
            HostRequest::Arithmetic { op, left, right } => HostRequestView::Arithmetic {
                op: *op,
                left: *left,
                right: *right,
            },
        }
    }
}

#[derive(Debug)]
pub enum HostReply {
    /// The number read or computed.
    Number(u64),
    /// The text that was to be read denotes no number.
    NotANumber,
    /// The text of the number that was to be written.
    Text(String),
}

pub enum HostReplyView {
    Number(u64),
    NotANumber,
    Text(Seq<char>),
}

impl View for HostReply {
    type V = HostReplyView;

    open spec fn view(&self) -> HostReplyView {
        match self {
            HostReply::Number(bits) => HostReplyView::Number(*bits),
            HostReply::NotANumber => HostReplyView::NotANumber,
            HostReply::Text(s) => HostReplyView::Text(s@),
        }
    }
}

/// The view of a reply that may be missing.
pub open spec fn reply_view(reply: Option<HostReply>) -> Option<HostReplyView> {
    match reply {
        Some(r) => Some(r@),
        None => None,
    }
}

} // verus!
