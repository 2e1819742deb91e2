use website::hits::{FoundDocument, SearchHit, StoredField, StoredValue};
use website::page::{distinct_tags, holds_text, Frontmatter, IndexRecord, Page};
use website::text::{chars_of, same_chars, same_text, string_of};

fn strings(items: &[&str]) -> Vec<String> {
    items.iter().map(|s| s.to_string()).collect()
}

fn assembled(frontmatter: Frontmatter, heading: Option<&str>) -> Page {
    Page::assemble(
        frontmatter,
        heading.map(|h| h.to_string()),
        "# Heading\n\ntext".to_string(),
        "<h1>Heading</h1>\n<p>text</p>".to_string(),
        "notes/first".to_string(),
        1_700_000_000_000_000_000,
    )
}

#[test]
fn the_header_decides_id_title_and_tags() {
    let page = assembled(
        Frontmatter {
            id: Some(42),
            title: Some("Named".to_string()),
            tags: Some(strings(&["rust", "axum", "rust"])),
        },
        Some("Heading"),
    );
    assert_eq!(page.id, 42);
    assert_eq!(page.title, Some("Named".to_string()));
    assert_eq!(page.tags, strings(&["rust", "axum"]));
    assert_eq!(page.markdown, "# Heading\n\ntext");
    assert_eq!(page.html, "<h1>Heading</h1>\n<p>text</p>");
    assert_eq!(page.url, "notes/first");
    assert_eq!(page.modified, 1_700_000_000_000_000_000);
}

#[test]
fn without_a_header_title_the_heading_is_the_title_and_gives_the_id() {
    let page = assembled(Frontmatter { id: None, title: None, tags: None }, Some("Test Page"));
    assert_eq!(page.title, Some("Test Page".to_string()));
    assert_eq!(page.id, 0xac1b_f07e_cf78_97fd_608b);
    assert_eq!(page.tags, Vec::<String>::new());
}

#[test]
fn the_id_is_derived_from_the_header_title_before_the_heading() {
    let page = assembled(
        Frontmatter { id: None, title: Some("Test Page".to_string()), tags: None },
        Some("Other"),
    );
    assert_eq!(page.id, 0xac1b_f07e_cf78_97fd_608b);
}

#[test]
fn without_any_title_the_id_is_that_of_the_empty_text() {
    let page = assembled(Frontmatter { id: None, title: None, tags: None }, None);
    assert_eq!(page.title, None);
    assert_eq!(page.id, 0x98d8_6001_c324_468d_497f);
}

#[test]
fn unchanged_content_keeps_its_id() {
    let first = assembled(Frontmatter { id: None, title: None, tags: None }, Some("Same"));
    let second = assembled(Frontmatter { id: None, title: None, tags: None }, Some("Same"));
    assert_eq!(first.id, second.id);
    assert_eq!(first, second);
}

#[test]
fn tags_are_kept_once_in_order_of_first_occurrence() {
    assert_eq!(distinct_tags(strings(&["b", "a", "b", "c", "a", "a"])), strings(&["b", "a", "c"]));
    assert_eq!(distinct_tags(Vec::new()), Vec::<String>::new());
    assert_eq!(distinct_tags(strings(&["", ""])), strings(&[""]));
    assert!(holds_text(&strings(&["x", "y"]), "y"));
    assert!(!holds_text(&strings(&["x", "y"]), "z"));
    assert!(!holds_text(&Vec::new(), ""));
}

#[test]
fn the_record_holds_the_page_with_its_id_as_text() {
    let page = assembled(
        Frontmatter { id: Some(1), title: Some("T".to_string()), tags: Some(strings(&["x"])) },
        None,
    );
    assert_eq!(
        page.record(),
        IndexRecord {
            id: "00000000000000000000000001".to_string(),
            title: Some("T".to_string()),
            markdown: "# Heading\n\ntext".to_string(),
            modified: 1_700_000_000_000_000_000,
            url: "notes/first".to_string(),
            tags: strings(&["x"]),
        }
    );
}

#[test]
fn a_hit_read_from_a_record_refers_to_its_page() {
    for (id, title) in [(None, Some("Rust notes")), (Some(7u128), None), (Some(u128::MAX), Some(""))] {
        let page = assembled(
            Frontmatter { id, title: title.map(|t| t.to_string()), tags: None },
            None,
        );
        let record = page.record();
        let mut found = FoundDocument::new();
        found.push(StoredField { name: "id".to_string(), value: StoredValue::Text(record.id) });
        found.push(StoredField {
            name: "title".to_string(),
            value: match record.title {
                Some(t) => StoredValue::Text(t),
                None => StoredValue::Other,
            },
        });
        found.push(StoredField {
            name: "markdown".to_string(),
            value: StoredValue::Text(record.markdown),
        });
        found.push(StoredField { name: "modified".to_string(), value: StoredValue::Other });
        found.push(StoredField { name: "url".to_string(), value: StoredValue::Text(record.url) });
        found.push(StoredField { name: "tags".to_string(), value: StoredValue::Other });
        found.push(StoredField::formatted_body("⚇text⚉".to_string()));
        let hit = SearchHit::try_from_document(&found).unwrap();
        assert_eq!(hit.id, page.id);
        assert_eq!(hit.url, page.url);
        assert_eq!(hit.title, page.title.clone().unwrap_or_default());
        assert_eq!(hit.excerpt, "<mark>text</mark> ");
    }
}

#[test]
fn texts_and_their_characters() {
    assert_eq!(chars_of("aé⚇"), vec!['a', 'é', '⚇']);
    assert_eq!(chars_of(""), Vec::<char>::new());
    assert_eq!(string_of(&vec!['a', 'é', '⚇']), "aé⚇");
    assert_eq!(string_of(&Vec::new()), "");
    assert!(same_text("abc", "abc"));
    assert!(same_text("", ""));
    assert!(!same_text("abc", "abd"));
    assert!(!same_text("abc", "ab"));
    assert!(!same_text("", "a"));
    assert!(same_chars(&vec!['x'], &vec!['x']));
    assert!(!same_chars(&vec!['x'], &vec!['y']));
}
