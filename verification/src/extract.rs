//! Link extraction: from a page's token stream to absolute URLs.
//!
//! `get_links` captures the href of every anchor start tag, in document
//! order, and resolves each against the page's URL: absolute hrefs stand as
//! parsed, relative references resolve against the page's domain base, and
//! a malformed href is skipped rather than aborting the crawl.

use vstd::prelude::*;

use crate::html::{collect_hrefs, strs_view, tokens_hrefs, HtmlToken};
use crate::urls::{resolve_link, resolved_link, urls_view, CrawlUrl, ParseOutcome, parse_of};

verus! {

/// The URLs a list of hrefs resolves to, in order; an href that fails to
/// resolve is skipped.
pub open spec fn resolved_links(page: Seq<char>, hrefs: Seq<Seq<char>>) -> Seq<Seq<char>>
    decreases hrefs.len(),
{
    if hrefs.len() == 0 {
        Seq::empty()
    } else {
        resolved_links(page, hrefs.drop_last()) + (match resolved_link(page, hrefs.last()) {
            Some(u) => seq![u],
            None => Seq::empty(),
        })
    }
}

proof fn lemma_resolved_links_step(page: Seq<char>, hrefs: Seq<Seq<char>>, i: int)
    requires
        0 <= i < hrefs.len(),
    ensures
        resolved_links(page, hrefs.take(i + 1)) == resolved_links(page, hrefs.take(i)) + (
        match resolved_link(page, hrefs[i]) {
            Some(u) => seq![u],
            None => Seq::<Seq<char>>::empty(),
        }),
{
    let t = hrefs.take(i + 1);
    assert(t.drop_last() =~= hrefs.take(i));
    assert(t.last() == hrefs[i]);
}

fn resolve_all(page: &CrawlUrl, hrefs: &Vec<String>) -> (out: Vec<CrawlUrl>)
    ensures
        urls_view(out@) == resolved_links(page@, strs_view(hrefs@)),
{
    let mut out: Vec<CrawlUrl> = Vec::new();
    proof {
        assert(urls_view(out@) =~= Seq::<Seq<char>>::empty());
        assert(strs_view(hrefs@).take(0) =~= Seq::<Seq<char>>::empty());
    }
    let mut i: usize = 0;
    while i < hrefs.len()
        invariant
            i <= hrefs.len(),
            strs_view(hrefs@).len() == hrefs@.len(),
            urls_view(out@) == resolved_links(page@, strs_view(hrefs@).take(i as int)),
        decreases hrefs.len() - i,
    {
        let ghost before = urls_view(out@);
        match resolve_link(page, hrefs[i].as_str()) {
            Some(u) => {
                proof {
                    assert(strs_view(hrefs@)[i as int] == hrefs@[i as int]@);
                }
                out.push(u);
                proof {
                    assert(urls_view(out@) =~= before + seq![out@.last()@]);
                    lemma_resolved_links_step(page@, strs_view(hrefs@), i as int);
                }
            },
            None => {
                proof {
                    assert(strs_view(hrefs@)[i as int] == hrefs@[i as int]@);
                    lemma_resolved_links_step(page@, strs_view(hrefs@), i as int);
                    assert(before =~= before + Seq::<Seq<char>>::empty());
                }
            },
        }
        i = i + 1;
    }
    proof {
        assert(strs_view(hrefs@).take(hrefs@.len() as int) =~= strs_view(hrefs@));
    }
    out
}

/// The links of one fetched page: the URL of every href of every anchor
/// start tag in the token stream, in document order, each resolved against
/// the page's URL; hrefs that resolve to nothing are skipped.
pub fn get_links(page: &CrawlUrl, tokens: &Vec<HtmlToken>) -> (links: Vec<CrawlUrl>)
    ensures
        urls_view(links@) == resolved_links(page@, tokens_hrefs(tokens@)),
{
    let hrefs = collect_hrefs(tokens);
    resolve_all(page, &hrefs)
}

/// When every href of a page resolves, extraction keeps them all: there are
/// exactly as many URLs as hrefs, and the i-th URL is the resolution of the
/// i-th href.
pub proof fn lemma_all_hrefs_resolve(page: Seq<char>, hrefs: Seq<Seq<char>>)
    requires
        forall|i: int| 0 <= i < hrefs.len() ==> resolved_link(page, hrefs[i]) is Some,
    ensures
        resolved_links(page, hrefs).len() == hrefs.len(),
        forall|i: int|
            0 <= i < hrefs.len() ==> resolved_links(page, hrefs)[i] == resolved_link(
                page,
                hrefs[i],
            ).unwrap(),
    decreases hrefs.len(),
{
    if hrefs.len() > 0 {
        let d = hrefs.drop_last();
        assert forall|i: int| 0 <= i < d.len() implies resolved_link(page, d[i]) is Some by {
            assert(d[i] == hrefs[i]);
        }
        lemma_all_hrefs_resolve(page, d);
        assert(resolved_link(page, hrefs.last()) is Some);
        assert forall|i: int|
            0 <= i < hrefs.len() implies resolved_links(page, hrefs)[i] == resolved_link(
            page,
            hrefs[i],
        ).unwrap() by {
            if i < hrefs.len() - 1 {
                assert(d[i] == hrefs[i]);
            } else {
                assert(hrefs[i] == hrefs.last());
            }
        }
    }
}

/// An absolute href passes through extraction unchanged aside from the
/// parser's normalization: it resolves to exactly what it parses as, on
/// every page.
pub proof fn lemma_absolute_href_passes_through(page: Seq<char>, href: Seq<char>)
    requires
        parse_of(href) is Absolute,
    ensures
        resolved_link(page, href) == Some(parse_of(href)->Absolute_0),
{
}

/// Whatever a resolvable href resolves to is among the page's links —
/// also when it equals a URL seen or fetched before, since extraction
/// neither filters nor deduplicates. A page whose link graph cycles back
/// to an earlier page therefore puts that page up for fetching again.
pub proof fn lemma_resolvable_href_is_kept(page: Seq<char>, hrefs: Seq<Seq<char>>, i: int)
    requires
        0 <= i < hrefs.len(),
        resolved_link(page, hrefs[i]) is Some,
    ensures
        resolved_links(page, hrefs).contains(resolved_link(page, hrefs[i]).unwrap()),
    decreases hrefs.len(),
{
    let u = resolved_link(page, hrefs[i]).unwrap();
    let p = resolved_links(page, hrefs.drop_last());
    if i == hrefs.len() - 1 {
        assert(resolved_links(page, hrefs)[p.len() as int] == u);
    } else {
        assert(hrefs.drop_last()[i] == hrefs[i]);
        lemma_resolvable_href_is_kept(page, hrefs.drop_last(), i);
        let j = choose|j: int| 0 <= j < p.len() && p[j] == u;
        assert(resolved_links(page, hrefs)[j] == u);
        assert(resolved_links(page, hrefs).contains(u));
    }
}

/// Each href is resolved on its own: the resolutions of two href lists in a
/// row are the two lists of resolutions in a row. In particular a repeated
/// href keeps repeating; extraction deduplicates nothing.
pub proof fn lemma_resolved_links_concat(page: Seq<char>, a: Seq<Seq<char>>, b: Seq<Seq<char>>)
    ensures
        resolved_links(page, a + b) == resolved_links(page, a) + resolved_links(page, b),
    decreases b.len(),
{
    if b.len() == 0 {
        assert(a + b =~= a);
        assert(resolved_links(page, b) =~= Seq::<Seq<char>>::empty());
        assert(resolved_links(page, a) =~= resolved_links(page, a) + Seq::<Seq<char>>::empty());
    } else {
        lemma_resolved_links_concat(page, a, b.drop_last());
        assert((a + b).drop_last() =~= a + b.drop_last());
        assert((a + b).last() == b.last());
        assert(resolved_links(page, a + b) == resolved_links(page, (a + b).drop_last()) + (
        match resolved_link(page, (a + b).last()) {
            Some(u) => seq![u],
            None => Seq::<Seq<char>>::empty(),
        }));
    }
}

} // verus!
