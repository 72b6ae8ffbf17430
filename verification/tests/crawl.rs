use crawler::crawl::Crawler;
use crawler::html::{HtmlAttr, HtmlToken};
use crawler::urls::parse_seed;

fn anchor(href: &str) -> HtmlToken {
    HtmlToken::StartTag {
        name: "a".to_string(),
        attrs: vec![HtmlAttr { name: "href".to_string(), value: href.to_string() }],
    }
}

#[test]
fn depth_one_fetches_only_the_seed() {
    let seed = parse_seed("https://seed.test/").unwrap();
    let mut c = Crawler::new(vec![seed], 1, 1);

    let urls = c.start_round().expect("round 1 runs");
    assert_eq!(urls.len(), 1);
    assert_eq!(urls[0].as_str(), "https://seed.test/");

    let emits = c.page_fetched(&urls[0], Ok(vec![anchor("/p1"), anchor("/p2")]));
    assert_eq!(
        emits,
        vec!["https://seed.test/p1".to_string(), "https://seed.test/p2".to_string()],
    );
    c.finish_round();

    // The links of round 1 are emitted but never fetched.
    assert!(c.start_round().is_none());
    assert!(c.is_done());
    assert!(c.into_result().is_ok());
}

#[test]
fn depth_two_runs_exactly_two_rounds() {
    let seed = parse_seed("https://site.test/").unwrap();
    let mut c = Crawler::new(vec![seed], 1, 2);

    let r1 = c.start_round().expect("round 1 runs");
    assert_eq!(r1.len(), 1);
    let emits = c.page_fetched(&r1[0], Ok(vec![anchor("/a"), anchor("/b")]));
    assert_eq!(
        emits,
        vec!["https://site.test/a".to_string(), "https://site.test/b".to_string()],
    );
    c.finish_round();

    let r2 = c.start_round().expect("round 2 runs");
    let texts: Vec<&str> = r2.iter().map(|u| u.as_str()).collect();
    assert_eq!(texts, vec!["https://site.test/a", "https://site.test/b"]);
    for u in r2.iter() {
        let emitted = c.page_fetched(u, Ok(vec![anchor("/c")]));
        assert_eq!(emitted, vec!["https://site.test/c".to_string()]);
    }
    c.finish_round();

    // Round 3 never starts: the /c links were extracted and emitted in
    // round 2 but are not fetched.
    assert!(c.start_round().is_none());
    assert!(c.into_result().is_ok());
}

#[test]
fn cycle_is_refetched_until_depth_runs_out() {
    let seed = parse_seed("https://loop.test/").unwrap();
    let mut c = Crawler::new(vec![seed], 1, 3);

    for _round in 0..3 {
        let urls = c.start_round().expect("round within the bound");
        assert_eq!(urls.len(), 1);
        // The page links back to itself; no deduplication, so it is the
        // next round's frontier again.
        assert_eq!(urls[0].as_str(), "https://loop.test/");
        let emits = c.page_fetched(&urls[0], Ok(vec![anchor("https://loop.test/")]));
        assert_eq!(emits, vec!["https://loop.test/".to_string()]);
        c.finish_round();
    }

    // The crawl still ends, solely because the depth is bounded.
    assert!(c.start_round().is_none());
    assert!(c.into_result().is_ok());
}

#[test]
fn failed_fetch_does_not_block_siblings() {
    let a = parse_seed("https://one.test/").unwrap();
    let b = parse_seed("https://two.test/").unwrap();
    let mut c = Crawler::new(vec![a, b], 1, 1);

    let urls = c.start_round().expect("round 1 runs");
    assert_eq!(urls.len(), 2);

    let e1 = c.page_fetched(&urls[0], Err("connection refused".to_string()));
    assert!(e1.is_empty());
    assert!(c.has_failed());

    // The sibling's links are still extracted and emitted.
    let e2 = c.page_fetched(&urls[1], Ok(vec![anchor("/alive")]));
    assert_eq!(e2, vec!["https://two.test/alive".to_string()]);
    c.finish_round();

    match c.into_result() {
        Err(e) => assert_eq!(e.message(), "connection refused"),
        Ok(()) => panic!("the failed fetch must fail the crawl"),
    }
}

#[test]
fn first_failure_is_the_one_reported() {
    let a = parse_seed("https://one.test/").unwrap();
    let b = parse_seed("https://two.test/").unwrap();
    let mut c = Crawler::new(vec![a, b], 1, 1);

    let urls = c.start_round().expect("round 1 runs");
    c.page_fetched(&urls[0], Err("first".to_string()));
    c.page_fetched(&urls[1], Err("second".to_string()));
    c.finish_round();

    match c.into_result() {
        Err(e) => assert_eq!(e.message(), "first"),
        Ok(()) => panic!("the failed fetches must fail the crawl"),
    }
}

#[test]
fn starting_beyond_the_bound_does_nothing() {
    let seed = parse_seed("https://seed.test/").unwrap();
    let mut c = Crawler::new(vec![seed], 2, 1);
    assert!(c.start_round().is_none());
    assert!(c.is_done());
    assert!(c.into_result().is_ok());
}

#[test]
fn empty_frontier_rounds_are_vacuous() {
    let mut c = Crawler::new(Vec::new(), 1, 2);
    let r1 = c.start_round().expect("round 1 runs");
    assert!(r1.is_empty());
    c.finish_round();
    let r2 = c.start_round().expect("round 2 runs");
    assert!(r2.is_empty());
    c.finish_round();
    assert!(c.start_round().is_none());
    assert!(c.into_result().is_ok());
}

#[test]
fn malformed_link_on_a_page_is_skipped_not_fatal() {
    let seed = parse_seed("https://seed.test/").unwrap();
    let mut c = Crawler::new(vec![seed], 1, 1);
    let urls = c.start_round().expect("round 1 runs");
    let emits = c.page_fetched(&urls[0], Ok(vec![anchor("http://"), anchor("/fine")]));
    assert_eq!(emits, vec!["https://seed.test/fine".to_string()]);
    c.finish_round();
    assert!(c.into_result().is_ok());
}
