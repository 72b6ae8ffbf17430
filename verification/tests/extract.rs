use crawler::extract::get_links;
use crawler::html::{HtmlAttr, HtmlToken, LinkQueue};
use crawler::urls::{parse_seed, SeedError};

fn anchor(href: &str) -> HtmlToken {
    HtmlToken::StartTag {
        name: "a".to_string(),
        attrs: vec![HtmlAttr { name: "href".to_string(), value: href.to_string() }],
    }
}

#[test]
fn resolve_relative_against_domain_base() {
    // The base's path and query are dropped: the href resolves against
    // scheme + host only.
    let base = parse_seed("https://example.com/a/b?x=1").unwrap();
    let tokens = vec![anchor("/c/d")];
    let links = get_links(&base, &tokens);
    assert_eq!(links.len(), 1);
    assert_eq!(links[0].as_str(), "https://example.com/c/d");
}

#[test]
fn resolve_relative_file_name() {
    let base = parse_seed("https://example.com/").unwrap();
    let tokens = vec![anchor("page2.html")];
    let links = get_links(&base, &tokens);
    assert_eq!(links.len(), 1);
    assert_eq!(links[0].as_str(), "https://example.com/page2.html");
}

#[test]
fn relative_name_resolves_at_root_even_under_deep_base() {
    // Even from a page deep in the site, a bare file name resolves at the
    // root, because the domain base cleared the base's path.
    let base = parse_seed("https://example.com/deep/dir/page?q=7").unwrap();
    let tokens = vec![anchor("other.html")];
    let links = get_links(&base, &tokens);
    assert_eq!(links.len(), 1);
    assert_eq!(links[0].as_str(), "https://example.com/other.html");
}

#[test]
fn absolute_href_passes_through() {
    let base = parse_seed("https://example.com/a/b?x=1").unwrap();
    let tokens = vec![anchor("https://other.com/x")];
    let links = get_links(&base, &tokens);
    assert_eq!(links.len(), 1);
    assert_eq!(links[0].as_str(), "https://other.com/x");
}

#[test]
fn mailto_href_is_not_filtered() {
    let base = parse_seed("https://example.com/").unwrap();
    let tokens = vec![anchor("mailto:someone@example.com")];
    let links = get_links(&base, &tokens);
    assert_eq!(links.len(), 1);
    assert_eq!(links[0].as_str(), "mailto:someone@example.com");
}

#[test]
fn three_anchors_in_document_order() {
    let base = parse_seed("https://example.com/a/b?x=1").unwrap();
    let tokens = vec![
        HtmlToken::Other,
        anchor("/one"),
        HtmlToken::StartTag { name: "div".to_string(), attrs: vec![] },
        anchor("two.html"),
        HtmlToken::Other,
        anchor("https://other.com/three"),
    ];
    let links = get_links(&base, &tokens);
    let texts: Vec<&str> = links.iter().map(|u| u.as_str()).collect();
    assert_eq!(
        texts,
        vec![
            "https://example.com/one",
            "https://example.com/two.html",
            "https://other.com/three",
        ],
    );
}

#[test]
fn malformed_href_is_skipped() {
    // "http://" has an empty host: neither absolute nor a relative
    // reference, so it is dropped while the rest survives.
    let base = parse_seed("https://example.com/").unwrap();
    let tokens = vec![anchor("/keep"), anchor("http://"), anchor("/also")];
    let links = get_links(&base, &tokens);
    let texts: Vec<&str> = links.iter().map(|u| u.as_str()).collect();
    assert_eq!(texts, vec!["https://example.com/keep", "https://example.com/also"]);
}

#[test]
fn non_anchor_tags_and_other_attributes_are_ignored() {
    let base = parse_seed("https://example.com/").unwrap();
    let tokens = vec![
        HtmlToken::StartTag {
            name: "link".to_string(),
            attrs: vec![HtmlAttr { name: "href".to_string(), value: "/style.css".to_string() }],
        },
        HtmlToken::StartTag {
            name: "a".to_string(),
            attrs: vec![
                HtmlAttr { name: "id".to_string(), value: "/nope".to_string() },
                HtmlAttr { name: "href".to_string(), value: "/yes".to_string() },
            ],
        },
        HtmlToken::StartTag { name: "a".to_string(), attrs: vec![] },
        HtmlToken::Other,
    ];
    let links = get_links(&base, &tokens);
    assert_eq!(links.len(), 1);
    assert_eq!(links[0].as_str(), "https://example.com/yes");
}

#[test]
fn every_href_attribute_of_one_tag_counts() {
    let base = parse_seed("https://example.com/").unwrap();
    let tokens = vec![HtmlToken::StartTag {
        name: "a".to_string(),
        attrs: vec![
            HtmlAttr { name: "href".to_string(), value: "/first".to_string() },
            HtmlAttr { name: "href".to_string(), value: "/second".to_string() },
        ],
    }];
    let links = get_links(&base, &tokens);
    let texts: Vec<&str> = links.iter().map(|u| u.as_str()).collect();
    assert_eq!(texts, vec!["https://example.com/first", "https://example.com/second"]);
}

#[test]
fn link_queue_collects_in_order() {
    let mut queue = LinkQueue::new();
    queue.process_token(&anchor("/x"));
    queue.process_token(&HtmlToken::Other);
    queue.process_token(&anchor("y.html"));
    let links = queue.into_links();
    assert_eq!(links, vec!["/x".to_string(), "y.html".to_string()]);
}

#[test]
fn seed_must_be_absolute() {
    let url = parse_seed("https://www.crawler-test.com/").unwrap();
    assert_eq!(url.as_str(), "https://www.crawler-test.com/");

    assert_eq!(parse_seed("github.com/about").unwrap_err(), SeedError::NotAbsolute);
    assert_eq!(parse_seed("http://").unwrap_err(), SeedError::Malformed);
}
