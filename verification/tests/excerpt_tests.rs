use website::excerpt::{
    expand_markers, flatten_events, format_excerpt, MarkdownEvent, CROP_WORDS, HIGHLIGHT_CLOSE,
    HIGHLIGHT_OPEN,
};

#[test]
fn markers_are_the_two_neutral_characters() {
    assert_eq!(HIGHLIGHT_OPEN, '⚇');
    assert_eq!(HIGHLIGHT_CLOSE, '⚉');
    assert_eq!(CROP_WORDS, 20);
}

#[test]
fn events_flatten_to_their_texts_with_a_space_each() {
    let events = vec![
        MarkdownEvent::Other,
        MarkdownEvent::Text("a".to_string()),
        MarkdownEvent::Other,
        MarkdownEvent::Code("b c".to_string()),
        MarkdownEvent::Html("<i>".to_string()),
        MarkdownEvent::Text(String::new()),
    ];
    assert_eq!(flatten_events(&events), "a b c <i>  ");
    assert_eq!(flatten_events(&Vec::new()), "");
    assert_eq!(flatten_events(&vec![MarkdownEvent::Other]), "");
}

#[test]
fn markers_become_mark_elements_and_brackets_vanish() {
    assert_eq!(expand_markers("a⚇b⚉[c]"), "a<mark>b</mark>c");
    assert_eq!(expand_markers(""), "");
    assert_eq!(expand_markers("[[]]"), "");
    assert_eq!(expand_markers("⚉⚇"), "</mark><mark>");
    assert_eq!(expand_markers("plain text"), "plain text");
}

#[test]
fn excerpt_of_marked_text() {
    assert_eq!(format_excerpt("⚇rust⚉ is fast"), "<mark>rust</mark> is fast ");
}

#[test]
fn excerpt_of_nothing_is_empty() {
    assert_eq!(format_excerpt(""), "");
}

#[test]
fn excerpt_drops_brackets_of_broken_links() {
    assert_eq!(format_excerpt("hello ⚇world⚉ [x]"), "hello <mark>world</mark>   x  ");
}

#[test]
fn excerpt_drops_markdown_syntax() {
    assert_eq!(
        format_excerpt("a `code` and *emph* [link](http://x.y)"),
        "a  code  and  emph   link "
    );
}

#[test]
fn excerpt_holds_no_markup_from_the_document() {
    let excerpt = format_excerpt("<script>alert(1)</script> ⚇x⚉");
    assert_eq!(excerpt, " <mark>x</mark> ");
    let excerpt = format_excerpt("<div onclick=\"x()\">block <b>bold</b></div>\n\n⚇hit⚉ <img src=x>");
    assert!(!excerpt.contains("<div"));
    assert!(!excerpt.contains("<b>"));
    assert!(!excerpt.contains("<img"));
    assert!(!excerpt.contains("onclick"));
    assert!(excerpt.contains("<mark>hit</mark>"));
}

#[test]
fn excerpt_escapes_what_is_left() {
    assert_eq!(format_excerpt("fish & chips"), "fish &amp; chips ");
}
