//! Conversion between application values and element trees.

use crate::tree::{Element, ElementView};
use vstd::prelude::*;

verus! {

/// A value that can describe itself as an element tree.
pub trait ToXml {
    /// The tree that stands for this value.
    spec fn xml(&self) -> ElementView;

    /// Builds the tree that stands for this value.
    fn to_xml(&self) -> (e: Element)
        ensures
            e@ == self.xml(),
    ;
}

/// A value that can be rebuilt from an element tree, or not.
pub trait FromXml: Sized {
    /// What a tree that does not hold such a value is answered with.
    type Error;

    /// Whether `out` is an answer to `src`: the value that `src` holds, or
    /// the error that `src` calls for.
    spec fn parses(src: ElementView, out: Result<Self, Self::Error>) -> bool;

    /// Rebuilds a value from `src`, or says why `src` holds none.
    fn from_xml(src: &Element) -> (out: Result<Self, Self::Error>)
        ensures
            Self::parses(src@, out),
    ;
}

/// An error that can say in words what went wrong.
pub trait Describe {
    /// The words.
    spec fn text(&self) -> Seq<char>;

    /// The words, as a string.
    fn describe(&self) -> (s: String)
        ensures
            s@ == self.text(),
    ;
}

} // verus!
