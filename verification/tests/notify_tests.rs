use pagewatch::notify::{fmt_count, render_email, render_subject, render_webhook_payload};

#[test]
fn counts_render_in_decimal() {
    assert_eq!(fmt_count(0), "0");
    assert_eq!(fmt_count(7), "7");
    assert_eq!(fmt_count(42), "42");
    assert_eq!(fmt_count(10_000), "10000");
}

#[test]
fn subject_names_count_and_url() {
    assert_eq!(
        render_subject(2, "https://example.com/x"),
        "Found 2 match(es) for https://example.com/x"
    );
}

#[test]
fn email_text_body_joins_matches_with_separator() {
    let matches = vec!["first".to_string(), "second".to_string(), "third".to_string()];
    let e = render_email("https://example.com", &matches);
    assert_eq!(e.subject, "Found 3 match(es) for https://example.com");
    assert_eq!(e.text_body, "Results:\nfirst\n---\nsecond\n---\nthird");
}

#[test]
fn email_text_body_with_single_match_has_no_separator() {
    let matches = vec!["only".to_string()];
    let e = render_email("https://example.com", &matches);
    assert_eq!(e.text_body, "Results:\nonly");
}

#[test]
fn email_html_body_embeds_title_link_and_cells() {
    let matches = vec!["<p>a</p>".to_string(), "<p>b</p>".to_string()];
    let e = render_email("https://example.com", &matches);
    let html = &e.html_body;
    assert!(html.starts_with("<!DOCTYPE html>"));
    assert!(html.contains("<title>Found 2 match(es) for https://example.com</title>"));
    assert!(html.contains(r#"<h2><a class="url" href="https://example.com">https://example.com</h2></a><br>"#));
    assert!(html.contains("<td><p>a</p><td><br/><td><p>b</p><td>"));
    assert!(html.contains("max-width: 440px;"));
    assert!(html.ends_with("</body></html>"));
}

#[test]
fn webhook_message_carries_prefix_count_and_url() {
    let p = render_webhook_payload(
        "[deal] ",
        4,
        "https://example.com/x",
        "+15550001111",
        vec!["+15550002222".to_string()],
    );
    assert_eq!(p.text_mode, "styled");
    assert_eq!(p.number, "+15550001111");
    assert_eq!(p.recipients, vec!["+15550002222".to_string()]);
    assert_eq!(p.message, "[deal] Found 4 match(es) at https://example.com/x");
}

#[test]
fn webhook_message_without_prefix() {
    let p = render_webhook_payload("", 1, "https://example.com", "+1", vec![]);
    assert_eq!(p.message, "Found 1 match(es) at https://example.com");
}

#[test]
fn email_html_body_is_exactly_the_template() {
    let matches = vec!["m1".to_string()];
    let e = render_email("https://e.x", &matches);
    let expected = format!(
        "{}{}",
        "<!DOCTYPE html>\n<html lang=\"en\">\n<head>\n<meta charset=\"UTF-8\">\n<meta name=\"viewport\" content=\"width=device-width, initial-scale=1.0\">\n<style>\n.container {\nmax-width: 440px;\n}\n.container img {\nmax-width: 440px;\nheight: unset;\n}\n</style>\n",
        "<title>Found 1 match(es) for https://e.x</title></head><body><h2><a class=\"url\" href=\"https://e.x\">https://e.x</h2></a><br><table class=\"container\"><tbody><td>m1<td></tbody></table></body></html>"
    );
    assert_eq!(e.html_body, expected);
}
