use page_restyle::words::{heading_fragment_replacement, wrap_words};

#[test]
fn wraps_two_words() {
    assert_eq!(wrap_words("Example Domain"), "<span>Example</span><span>Domain</span>");
}

#[test]
fn wraps_single_word() {
    assert_eq!(wrap_words("Example"), "<span>Example</span>");
}

#[test]
fn empty_text_gives_one_empty_span() {
    assert_eq!(wrap_words(""), "<span></span>");
}

#[test]
fn leading_trailing_and_repeated_spaces_give_empty_spans() {
    assert_eq!(wrap_words(" a"), "<span></span><span>a</span>");
    assert_eq!(wrap_words("a "), "<span>a</span><span></span>");
    assert_eq!(wrap_words("a  b"), "<span>a</span><span></span><span>b</span>");
    assert_eq!(wrap_words(" "), "<span></span><span></span>");
}

#[test]
fn wraps_non_ascii_words() {
    assert_eq!(wrap_words("héllo wörld"), "<span>héllo</span><span>wörld</span>");
}

#[test]
fn only_space_separates_words() {
    assert_eq!(wrap_words("a\tb\nc"), "<span>a\tb\nc</span>");
}

#[test]
fn fragment_before_nested_tag_is_wrapped() {
    assert_eq!(
        heading_fragment_replacement("Example ", false),
        Some("<span>Example</span><span></span>".to_string())
    );
    assert_eq!(
        heading_fragment_replacement("Domain", false),
        Some("<span>Domain</span>".to_string())
    );
}

#[test]
fn last_fragment_is_left_alone() {
    assert_eq!(heading_fragment_replacement("", true), None);
    assert_eq!(heading_fragment_replacement("tail words", true), None);
}

#[test]
fn wrapping_splits_at_a_space() {
    let whole = wrap_words("Example Domain");
    let parts = format!("{}{}", wrap_words("Example"), wrap_words("Domain"));
    assert_eq!(whole, parts);
}
