//! Tags: the labels that name a field or a variant in a self-describing
//! encoding.
//!
//! A type resolves to exactly one tag method for all of its direct members:
//! either every member is labelled by its declaration index, or every member
//! is labelled by a string name.

use vstd::prelude::*;

verus! {

/// How the members of one type are labelled on the wire.
#[derive(Clone, Copy, PartialEq, Eq, Structural, Debug)]
pub enum TagMethod {
    /// Members are labelled by their declaration index, as a number.
    Default,
    /// Members are labelled by their declared or renamed string name.
    Named,
}

/// One resolved tag value.
#[derive(Debug, PartialEq, Eq)]
pub enum TagValue {
    /// A numeric tag: the member's declaration index.
    Index(usize),
    /// A string tag: the member's name or its explicit rename.
    Name(String),
}

/// The ghost image of a tag value.
pub enum SpecTag {
    Index(int),
    Name(Seq<char>),
}

/// The ghost image of one tag value.
pub open spec fn view_tag(t: TagValue) -> SpecTag {
    match t {
        TagValue::Index(i) => SpecTag::Index(i as int),
        TagValue::Name(s) => SpecTag::Name(s@),
    }
}

impl TagValue {
    /// Builds an independent copy with the same ghost image.
    pub fn duplicate(&self) -> (r: TagValue)
        ensures
            view_tag(r) == view_tag(*self),
    {
        match self {
            TagValue::Index(i) => TagValue::Index(*i),
            TagValue::Name(s) => TagValue::Name(s.clone()),
        }
    }

    /// Decides whether two tags are the same label.
    pub fn matches(&self, other: &TagValue) -> (r: bool)
        ensures
            r == (view_tag(*self) == view_tag(*other)),
    {
        match (self, other) {
            (TagValue::Index(a), TagValue::Index(b)) => *a == *b,
            (TagValue::Name(a), TagValue::Name(b)) => a.eq(b),
            _ => false,
        }
    }
}

} // verus!
