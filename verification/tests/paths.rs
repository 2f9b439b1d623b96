use yew_nested_router::path::{join_route, split_path};

#[test]
fn split_drops_piece_before_leading_slash() {
    assert_eq!(
        split_path("/users/42"),
        vec!["users".to_string(), "42".to_string()]
    );
}

#[test]
fn split_of_empty_path_has_no_segments() {
    assert_eq!(split_path(""), Vec::<String>::new());
}

#[test]
fn split_of_bare_slash_is_one_empty_segment() {
    assert_eq!(split_path("/"), vec!["".to_string()]);
}

#[test]
fn split_without_leading_slash_drops_first_piece() {
    assert_eq!(split_path("users/42"), vec!["42".to_string()]);
    assert_eq!(split_path("users"), Vec::<String>::new());
}

#[test]
fn split_keeps_empty_inner_segments() {
    assert_eq!(
        split_path("/a//b/"),
        vec![
            "a".to_string(),
            "".to_string(),
            "b".to_string(),
            "".to_string()
        ]
    );
}

#[test]
fn join_prefixes_slash_and_separates_segments() {
    assert_eq!(
        join_route(&vec!["users".to_string(), "42".to_string()]),
        "/users/42"
    );
    assert_eq!(join_route(&vec!["users".to_string()]), "/users");
}

#[test]
fn join_of_no_segments_is_bare_slash() {
    assert_eq!(join_route(&Vec::new()), "/");
}

#[test]
fn join_then_split_restores_segments() {
    let segs = vec!["a".to_string(), "b".to_string(), "c".to_string()];
    assert_eq!(split_path(&join_route(&segs)), segs);
}
