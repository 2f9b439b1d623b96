//! The target contract: the application-defined type that says where the
//! UI currently is.
//!
//! A target can be parsed from a sequence of path segments and rendered back
//! into one.  The contract obliges an implementation to render at least one
//! slash-free segment and to parse its own rendering back to the same value;
//! the router's round-trip guarantees rest on exactly these obligations.

use vstd::prelude::*;
use crate::path::all_slash_free;

verus! {

/// An application-defined description of where the UI currently is.
///
/// Parsing an unmatched segment sequence yields `None`; that is a valid,
/// silent state for the router, never an error.
pub trait Target: Sized {
    /// What parsing a segment sequence yields.
    spec fn parse_spec(segments: Seq<Seq<char>>) -> Option<Self>;

    /// The segments this target renders to.
    spec fn render_spec(&self) -> Seq<Seq<char>>;

    /// A target renders to at least one segment, and no rendered segment
    /// contains a `/`.
    proof fn lemma_render_wf(&self)
        ensures
            self.render_spec().len() >= 1,
            all_slash_free(self.render_spec()),
    ;

    /// Parsing a target's own rendering yields that target back.
    proof fn lemma_parse_render(&self)
        ensures
            Self::parse_spec(self.render_spec()) == Some(*self),
    ;

    /// Parse a segment sequence into a target; `None` if nothing matches.
    fn parse_path(segments: &Vec<String>) -> (r: Option<Self>)
        ensures
            r == Self::parse_spec(segments.deep_view()),
    ;

    /// Render this target into a segment sequence.
    fn render_path(&self) -> (r: Vec<String>)
        ensures
            r.deep_view() == self.render_spec(),
    ;

    /// Decide equality of two targets.
    fn same(&self, other: &Self) -> (r: bool)
        ensures
            r == (*self == *other),
    ;

    /// Duplicate this target.
    fn dup(&self) -> (r: Self)
        ensures
            r == *self,
    ;
}

} // verus!
