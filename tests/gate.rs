use page_restyle::gate::{body_to_serve, should_restyle, HTML_CONTENT_TYPE};

#[test]
fn html_utf8_is_restyled() {
    assert!(should_restyle(Some("text/html; charset=UTF-8")));
    assert!(should_restyle(Some(HTML_CONTENT_TYPE)));
}

#[test]
fn other_content_types_pass_through() {
    assert!(!should_restyle(None));
    assert!(!should_restyle(Some("text/html")));
    assert!(!should_restyle(Some("text/html; charset=utf-8")));
    assert!(!should_restyle(Some("application/json")));
    assert!(!should_restyle(Some("")));
}

#[test]
fn restyled_body_is_served() {
    assert_eq!(body_to_serve("old".to_string(), Some("new".to_string())), "new");
}

#[test]
fn original_body_is_served_on_failure() {
    assert_eq!(body_to_serve("old".to_string(), None), "old");
}
