//! The router core: the state machine that reacts to location changes and
//! navigation requests.
//!
//! The router holds the currently active target, parsed from the location
//! path, with a caller-supplied default substituted when nothing matches.
//! A location-change event re-parses the new path and updates the stored
//! target only when the parsed value differs from the stored one; a
//! navigation request leaves the state alone and yields the route to push
//! onto the history.  The browser subscription itself, and the context
//! propagation to descendant components, live in the embedding UI layer,
//! which drives these functions with plain values.

use vstd::prelude::*;
use crate::path::{
    join_route,
    lemma_route_round_trip,
    location_segments,
    route_chars,
    split_path,
};
use crate::target::Target;

verus! {

/// The context made available to descendant components: the currently
/// active target, if any.  Navigation requests travel back through the
/// embedding UI layer as [`Msg::ChangeTarget`] events.
pub struct RouterContext<T: Target> {
    /// The active target.
    pub active_target: Option<T>,
}

impl<T: Target> RouterContext<T> {
    /// Whether `target` is the active target; an absent active target
    /// matches nothing.
    pub open spec fn is_same_spec(&self, target: T) -> bool {
        match self.active_target {
            Some(current) => current == target,
            None => false,
        }
    }

    /// Check if the provided target is the active target.
    pub fn is_same(&self, target: &T) -> (r: bool)
        ensures
            r == self.is_same_spec(*target),
    {
        match &self.active_target {
            Some(current) => current.same(target),
            None => false,
        }
    }

    /// Check if the provided target is active; today this is plain equality
    /// with the active target.
    pub fn is_active(&self, target: &T) -> (r: bool)
        ensures
            r == self.is_same_spec(*target),
    {
        self.is_same(target)
    }

    /// Get the active target; this may be [`None`], in the case this branch
    /// doesn't have an active target.
    pub fn active(&self) -> (r: &Option<T>)
        ensures
            r == self.active_target,
    {
        &self.active_target
    }
}

/// The events the router reacts to: the location changed to a new path, or
/// a descendant asked to navigate to a target.
pub enum Msg<T: Target> {
    RouteChanged(String),
    ChangeTarget(T),
}

/// What a location path resolves to: its parsed target, or the supplied
/// default when nothing matches.
pub open spec fn parse_or_default<T: Target>(path: Seq<char>, default: Option<T>) -> Option<T> {
    match T::parse_spec(location_segments(path)) {
        Some(t) => Some(t),
        None => default,
    }
}

/// Top-level router state.
pub struct Router<T: Target> {
    /// The currently stored target.
    pub target: Option<T>,
    /// The context published to descendants.
    pub router: RouterContext<T>,
}

/// Duplicate an optional target.
fn dup_opt<T: Target>(o: &Option<T>) -> (r: Option<T>)
    ensures
        r == *o,
{
    match o {
        Some(t) => Some(t.dup()),
        None => None,
    }
}

/// Decide equality of two optional targets.
fn same_opt<T: Target>(a: &Option<T>, b: &Option<T>) -> (r: bool)
    ensures
        r == (*a == *b),
{
    match (a, b) {
        (Some(x), Some(y)) => x.same(y),
        (None, None) => true,
        _ => false,
    }
}

impl<T: Target> Router<T> {
    /// The published context always carries the stored target.
    pub open spec fn wf(&self) -> bool {
        self.router.active_target == self.target
    }

    /// Parse a location path into a target.
    pub fn parse_location(path: &str) -> (r: Option<T>)
        ensures
            r == T::parse_spec(location_segments(path@)),
    {
        let segs = split_path(path);
        T::parse_path(&segs)
    }

    /// Build the context published to descendants for a stored target.
    pub fn build_context(target: &Option<T>) -> (r: RouterContext<T>)
        ensures
            r.active_target == *target,
    {
        RouterContext { active_target: dup_opt(target) }
    }

    /// Set up the router for the current location path: parse it, fall back
    /// to the default when nothing matches, and publish the initial context.
    pub fn create(path: &str, default: &Option<T>) -> (r: Self)
        ensures
            r.target == parse_or_default::<T>(path@, *default),
            r.wf(),
    {
        let target = match Self::parse_location(path) {
            Some(t) => Some(t),
            None => dup_opt(default),
        };
        let router = Self::build_context(&target);
        Router { target, router }
    }

    /// Rebuild the published context from the stored target.
    pub fn sync_context(&mut self)
        ensures
            final(self).target == old(self).target,
            final(self).wf(),
    {
        self.router = Self::build_context(&self.target);
    }

    /// React to changed outside properties: republish the context without
    /// altering the stored target, and ask for a re-render.
    pub fn changed(&mut self) -> (r: bool)
        ensures
            final(self).target == old(self).target,
            final(self).wf(),
            r == true,
    {
        self.sync_context();
        true
    }

    /// React to one event.  The first result says whether a re-render is
    /// due; the second carries the route to push onto the history for a
    /// navigation request.  A location change stores the newly resolved
    /// target only when it differs from the stored one, so an event that
    /// re-parses to the stored value changes nothing and asks for no
    /// re-render.
    pub fn update(&mut self, default: &Option<T>, msg: Msg<T>) -> (r: (bool, Option<String>))
        requires
            old(self).wf(),
        ensures
            final(self).wf(),
            (match msg {
                Msg::RouteChanged(path) => {
                    let new_target = parse_or_default::<T>(path@, *default);
                    &&& r.1 is None
                    &&& final(self).target == new_target
                    &&& (r.0 <==> new_target != old(self).target)
                    &&& (!r.0 ==> *final(self) == *old(self))
                },
                Msg::ChangeTarget(t) => {
                    &&& *final(self) == *old(self)
                    &&& r.0 == false
                    &&& (r.1 matches Some(route) && route@ == route_chars(t.render_spec()))
                },
            }),
    {
        match msg {
            Msg::RouteChanged(path) => {
                let new_target = match Self::parse_location(path.as_str()) {
                    Some(t) => Some(t),
                    None => dup_opt(default),
                };
                if !same_opt(&new_target, &self.target) {
                    self.target = new_target;
                    self.sync_context();
                    (true, None)
                } else {
                    (false, None)
                }
            },
            Msg::ChangeTarget(target) => {
                let segs = target.render_path();
                let route = join_route(&segs);
                (false, Some(route))
            },
        }
    }
}

/// A location that matches no target resolves to nothing when no default is
/// configured.
pub proof fn lemma_unmatched_no_default<T: Target>(path: Seq<char>)
    requires
        T::parse_spec(location_segments(path)) is None,
    ensures
        parse_or_default::<T>(path, None) is None,
{
}

/// A location that matches no target resolves to the configured default.
pub proof fn lemma_unmatched_with_default<T: Target>(path: Seq<char>, d: T)
    requires
        T::parse_spec(location_segments(path)) is None,
    ensures
        parse_or_default::<T>(path, Some(d)) == Some(d),
{
}

/// Without an active target, no target whatsoever counts as the same.
pub proof fn lemma_no_active_never_same<T: Target>(ctx: RouterContext<T>, target: T)
    requires
        ctx.active_target is None,
    ensures
        !ctx.is_same_spec(target),
{
}

/// Round trip: when a path matches a target, the route rendered from that
/// target parses back to the very same target.
pub proof fn lemma_matched_target_round_trip<T: Target>(path: Seq<char>, t: T)
    requires
        T::parse_spec(location_segments(path)) == Some(t),
    ensures
        T::parse_spec(location_segments(route_chars(t.render_spec()))) == Some(t),
{
    t.lemma_render_wf();
    t.lemma_parse_render();
    lemma_route_round_trip(t.render_spec());
}

/// Navigating to a target and then observing the location change for the
/// pushed route makes exactly that target active, whatever the default.
pub proof fn lemma_navigate_round_trip<T: Target>(t: T, default: Option<T>)
    ensures
        parse_or_default::<T>(route_chars(t.render_spec()), default) == Some(t),
{
    t.lemma_render_wf();
    t.lemma_parse_render();
    lemma_route_round_trip(t.render_spec());
}

} // verus!
