use autebooks::html::{
    find_image_sources, keep_present, pick_first_attribute, pick_first_non_empty, QuickSelect,
};
use scraper::Selector;

#[test]
fn test_selectors() {
    assert!(Selector::parse("img").is_ok());
}

#[test]
fn the_selectors_of_the_library_are_selectors() {
    for selector in [
        "title",
        "body",
        "img",
        "meta[name=chapterurl]",
        "meta[name=published]",
        "meta[name=generator]",
        ".chapter-content",
        ".authors-note-start",
        ".authors-note-end",
        ".author-note-portlet",
    ] {
        assert!(Selector::parse(selector).is_ok(), "{selector}");
    }
}

#[test]
fn inner_html_of_first_match() {
    let document = "<html><head><title>One</title></head><body><p>a</p><p>b</p></body></html>";
    assert_eq!(document.get_inner_html_of("title"), Some("One".to_string()));
    assert_eq!(document.get_inner_html_of("p"), Some("a".to_string()));
    assert_eq!(document.get_inner_html_of("h1"), None);
    // An empty first match counts as no match.
    assert_eq!("<p></p><p>b</p>".get_inner_html_of("p"), None);
    // A selector that cannot be read matches nothing.
    assert_eq!(document.get_inner_html_of("p["), None);
}

#[test]
fn meta_content_of_first_match() {
    let document = "<html><head><meta name=\"generator\" content=\"autebook\"><meta name=\"empty\" content=\"\"><meta name=\"bare\"></head><body></body></html>";
    assert_eq!(
        document.get_meta_content_of("meta[name=generator]"),
        Some("autebook".to_string())
    );
    assert_eq!(document.get_meta_content_of("meta[name=empty]"), None);
    assert_eq!(document.get_meta_content_of("meta[name=bare]"), None);
    assert_eq!(document.get_meta_content_of("meta[name=missing]"), None);
}

#[test]
fn image_sources_in_document_order() {
    let fragment = "<p><img src=\"https://a.example/1.png\"></p><img alt=\"no source\"><img src=\"2.jpg\">";
    assert_eq!(
        find_image_sources(fragment),
        vec!["https://a.example/1.png".to_string(), "2.jpg".to_string()]
    );
    assert_eq!(find_image_sources("<p>no image</p>"), Vec::<String>::new());
}

#[test]
fn picking_from_matches() {
    assert_eq!(pick_first_non_empty(None), None);
    assert_eq!(pick_first_non_empty(Some(vec![])), None);
    assert_eq!(pick_first_non_empty(Some(vec!["".to_string(), "b".to_string()])), None);
    assert_eq!(
        pick_first_non_empty(Some(vec!["a".to_string(), "b".to_string()])),
        Some("a".to_string())
    );
    assert_eq!(pick_first_attribute(None), None);
    assert_eq!(pick_first_attribute(Some(vec![None, Some("x".to_string())])), None);
    assert_eq!(
        pick_first_attribute(Some(vec![Some("x".to_string()), None])),
        Some("x".to_string())
    );
    assert_eq!(
        keep_present(vec![None, Some("a".to_string()), None, Some("b".to_string())]),
        vec!["a".to_string(), "b".to_string()]
    );
}
