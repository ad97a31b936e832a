//! Document nodes: the untyped values a parsed document holds, and the
//! checked conversions from a node into the type a key demands.

use vstd::prelude::*;
use crate::addr::{Ipv4Addr, spec_parse_ipv4, parse_ipv4};

verus! {

/// An untyped leaf of a parsed document.
pub enum Node {
    Null,
    Flag(bool),
    Unsigned(u64),
    Text(String),
}

/// The abstract value of a [`Node`]: the same shape, with text as a
/// character sequence.
pub enum DocValue {
    Null,
    Flag(bool),
    Unsigned(u64),
    Text(Seq<char>),
}

impl View for Node {
    type V = DocValue;

    open spec fn view(&self) -> DocValue {
        match self {
            Node::Null => DocValue::Null,
            Node::Flag(b) => DocValue::Flag(*b),
            Node::Unsigned(u) => DocValue::Unsigned(*u),
            Node::Text(s) => DocValue::Text(s@),
        }
    }
}

/// A type that a document node can be converted into, by that type's own
/// structural rules.
pub trait FromNode: View + Sized {
    /// Whether a node of this abstract shape converts successfully.
    spec fn accepts(v: DocValue) -> bool;

    /// The abstract value the conversion yields, when it succeeds.
    spec fn converted(v: DocValue) -> Self::V;

    /// Convert a node, reporting failure on any incompatible shape.
    fn from_node(n: &Node) -> (r: Option<Self>)
        ensures
            match r {
                Some(x) => Self::accepts(n@) && x@ == Self::converted(n@),
                None => !Self::accepts(n@),
            },
    ;
}

impl FromNode for u64 {
    open spec fn accepts(v: DocValue) -> bool {
        v is Unsigned
    }

    open spec fn converted(v: DocValue) -> u64 {
        v->Unsigned_0
    }

    fn from_node(n: &Node) -> (r: Option<u64>) {
        match n {
            Node::Unsigned(u) => Some(*u),
            _ => None,
        }
    }
}

impl FromNode for bool {
    open spec fn accepts(v: DocValue) -> bool {
        v is Flag
    }

    open spec fn converted(v: DocValue) -> bool {
        v->Flag_0
    }

    fn from_node(n: &Node) -> (r: Option<bool>) {
        match n {
            Node::Flag(b) => Some(*b),
            _ => None,
        }
    }
}

impl FromNode for String {
    open spec fn accepts(v: DocValue) -> bool {
        v is Text
    }

    open spec fn converted(v: DocValue) -> Seq<char> {
        v->Text_0
    }

    fn from_node(n: &Node) -> (r: Option<String>) {
        match n {
            Node::Text(s) => Some(s.clone()),
            _ => None,
        }
    }
}

impl FromNode for Ipv4Addr {
    /// Text that denotes a dotted-quad address.
    open spec fn accepts(v: DocValue) -> bool {
        v is Text && spec_parse_ipv4(v->Text_0) is Some
    }

    open spec fn converted(v: DocValue) -> Ipv4Addr {
        spec_parse_ipv4(v->Text_0)->0
    }

    fn from_node(n: &Node) -> (r: Option<Ipv4Addr>) {
        match n {
            Node::Text(s) => parse_ipv4(s.as_str()),
            _ => None,
        }
    }
}

} // verus!
