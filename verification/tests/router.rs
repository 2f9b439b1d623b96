use yew_nested_router::demo::DemoTarget;
use yew_nested_router::router::{Msg, Router, RouterContext};
use yew_nested_router::target::Target;

fn make(path: &str, default: Option<DemoTarget>) -> Router<DemoTarget> {
    Router::create(path, &default)
}

#[test]
fn create_parses_matching_path() {
    let r = make("/users/42", None);
    assert_eq!(r.target, Some(DemoTarget::ViewUser(42)));
    assert_eq!(*r.router.active(), Some(DemoTarget::ViewUser(42)));
}

#[test]
fn create_parses_list_path() {
    let r = make("/users", None);
    assert_eq!(r.target, Some(DemoTarget::Users));
}

#[test]
fn unmatched_without_default_is_none() {
    let r = make("/nothing/here", None);
    assert_eq!(r.target, None);
    assert_eq!(*r.router.active(), None);
}

#[test]
fn unmatched_with_default_falls_back() {
    let r = make("/nothing/here", Some(DemoTarget::Users));
    assert_eq!(r.target, Some(DemoTarget::Users));
}

#[test]
fn empty_path_without_default_is_none() {
    let r = make("", None);
    assert_eq!(r.target, None);
}

#[test]
fn same_route_event_does_not_rerender() {
    let mut r = make("/users/7", None);
    let (rerender, action) = r.update(&None, Msg::RouteChanged("/users/7".to_string()));
    assert!(!rerender);
    assert_eq!(action, None);
    assert_eq!(r.target, Some(DemoTarget::ViewUser(7)));
}

#[test]
fn different_route_event_rerenders_and_updates() {
    let mut r = make("/users/7", None);
    let (rerender, action) = r.update(&None, Msg::RouteChanged("/users/8".to_string()));
    assert!(rerender);
    assert_eq!(action, None);
    assert_eq!(r.target, Some(DemoTarget::ViewUser(8)));
    assert_eq!(*r.router.active(), Some(DemoTarget::ViewUser(8)));
}

#[test]
fn route_event_to_unmatched_uses_default() {
    let mut r = make("/users/7", Some(DemoTarget::Users));
    let (rerender, _) = r.update(
        &Some(DemoTarget::Users),
        Msg::RouteChanged("/elsewhere".to_string()),
    );
    assert!(rerender);
    assert_eq!(r.target, Some(DemoTarget::Users));
}

#[test]
fn change_target_pushes_route_and_keeps_state() {
    let mut r = make("/users", None);
    let (rerender, action) = r.update(&None, Msg::ChangeTarget(DemoTarget::ViewUser(42)));
    assert!(!rerender);
    assert_eq!(action, Some("/users/42".to_string()));
    assert_eq!(r.target, Some(DemoTarget::Users));
}

#[test]
fn navigate_then_observe_makes_target_active() {
    let mut r = make("/users", None);
    let (_, action) = r.update(&None, Msg::ChangeTarget(DemoTarget::ViewUser(42)));
    let route = action.expect("navigation must yield a route");
    let (rerender, action) = r.update(&None, Msg::RouteChanged(route));
    assert!(rerender);
    assert_eq!(action, None);
    assert_eq!(*r.router.active(), Some(DemoTarget::ViewUser(42)));
}

#[test]
fn changed_keeps_target_and_rerenders() {
    let mut r = make("/users/3", None);
    assert!(r.changed());
    assert_eq!(r.target, Some(DemoTarget::ViewUser(3)));
    assert_eq!(*r.router.active(), Some(DemoTarget::ViewUser(3)));
}

#[test]
fn sync_context_republishes_stored_target() {
    let mut r = make("/users/3", None);
    r.router = RouterContext {
        active_target: None,
    };
    r.sync_context();
    assert_eq!(*r.router.active(), Some(DemoTarget::ViewUser(3)));
}

#[test]
fn is_same_matches_active_target() {
    let r = make("/users/5", None);
    assert!(r.router.is_same(&DemoTarget::ViewUser(5)));
    assert!(!r.router.is_same(&DemoTarget::ViewUser(6)));
    assert!(!r.router.is_same(&DemoTarget::Users));
}

#[test]
fn is_same_is_false_without_active_target() {
    let r = make("/unknown", None);
    assert_eq!(*r.router.active(), None);
    assert!(!r.router.is_same(&DemoTarget::Users));
    assert!(!r.router.is_same(&DemoTarget::ViewUser(0)));
}

#[test]
fn is_active_is_equality_today() {
    let r = make("/users/5", None);
    assert!(r.router.is_active(&DemoTarget::ViewUser(5)));
    assert!(!r.router.is_active(&DemoTarget::Users));
}

#[test]
fn parse_location_ignores_default() {
    assert_eq!(
        Router::<DemoTarget>::parse_location("/users/9"),
        Some(DemoTarget::ViewUser(9))
    );
    assert_eq!(Router::<DemoTarget>::parse_location("/users/9/extra"), None);
    assert_eq!(Router::<DemoTarget>::parse_location("/"), None);
}

#[test]
fn build_context_carries_target() {
    let ctx = Router::build_context(&Some(DemoTarget::ViewUser(1)));
    assert_eq!(*ctx.active(), Some(DemoTarget::ViewUser(1)));
    let ctx = Router::<DemoTarget>::build_context(&None);
    assert_eq!(*ctx.active(), None);
}

#[test]
fn view_user_round_trip_example() {
    let parsed = DemoTarget::parse_path(&vec!["users".to_string(), "42".to_string()]);
    assert_eq!(parsed, Some(DemoTarget::ViewUser(42)));
    let rendered = DemoTarget::ViewUser(42).render_path();
    assert_eq!(rendered, vec!["users".to_string(), "42".to_string()]);
    let reparsed = DemoTarget::parse_path(&rendered);
    assert_eq!(reparsed, Some(DemoTarget::ViewUser(42)));
}
