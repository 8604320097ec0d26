use pagewatch::extract::{extract, extract_html, ExtractError, MatchRule};

#[test]
fn relative_href_gains_page_origin() {
    let content = r#"<html><body><div class="item"><a href="/offer">deal</a></div></body></html>"#;
    let matches = extract_html(content, "div.item", "https://example.com").unwrap();
    assert_eq!(
        matches,
        vec![r#"<div class="item"><a href="https://example.com/offer">deal</a></div>"#.to_string()]
    );
}

#[test]
fn protocol_relative_src_gains_https() {
    let content = r#"<html><body><p class="pic"><img src="//cdn.example.com/a.png"></p></body></html>"#;
    let matches = extract_html(content, "p.pic", "https://example.com").unwrap();
    assert_eq!(matches.len(), 1);
    assert!(matches[0].contains(r#"src="https://cdn.example.com/a.png""#));
    assert!(!matches[0].contains(r#"src="//"#));
}

#[test]
fn srcset_attribute_is_stripped() {
    let content =
        r#"<html><body><p class="pic"><img src="/a.png" srcset="/a-1x.png 1x, /a-2x.png 2x"></p></body></html>"#;
    let matches = extract_html(content, "p.pic", "https://example.com").unwrap();
    assert_eq!(matches.len(), 1);
    assert!(!matches[0].contains("srcset"));
    // A single-slash src is not protocol-relative, so it stays as it is.
    assert!(matches[0].contains(r#"src="/a.png""#));
}

#[test]
fn every_selected_element_is_emitted_in_document_order() {
    let content = r#"<html><body><li class="row">one</li><p>x</p><li class="row">two</li></body></html>"#;
    let matches = extract_html(content, "li.row", "https://example.com").unwrap();
    assert_eq!(
        matches,
        vec![
            r#"<li class="row">one</li>"#.to_string(),
            r#"<li class="row">two</li>"#.to_string(),
        ]
    );
}

#[test]
fn invalid_selector_is_a_fatal_parse_error() {
    let content = "<html><body><p>x</p></body></html>";
    assert!(extract_html(content, "p[", "https://example.com").is_none());
    let rule = MatchRule::HtmlSelect {
        selector: "p[".to_string(),
        origin: "https://example.com".to_string(),
    };
    assert_eq!(extract(content, &rule), Err(ExtractError::InvalidSelector));
}

#[test]
fn html_extract_twice_is_byte_identical() {
    let content = r#"<html><body><div class="x"><a href="/a">a</a></div></body></html>"#;
    let rule = MatchRule::HtmlSelect {
        selector: "div.x".to_string(),
        origin: "https://example.com".to_string(),
    };
    let first = extract(content, &rule).unwrap();
    let second = extract(content, &rule).unwrap();
    assert_eq!(first, second);
    assert!(!first.is_empty());
}
