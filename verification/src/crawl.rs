//! Crawl orchestration: depth-bounded rounds of fetch, extract, emit.
//!
//! A crawl is a sequence of rounds. Round 1 fetches the seed frontier; each
//! page fetched contributes the links extracted from it both to the next
//! round's frontier and, as strings, to the result sink. The crawl ends as
//! soon as the depth passes the bound: the links found in the last round
//! are extracted and emitted but never fetched. Nothing is deduplicated, so
//! a cycle in the link graph refetches a page at the next depth; the crawl
//! terminates solely because the depth grows by one per round.
//!
//! The caller drives the rounds and performs what the library cannot: it
//! fetches each URL of a round (concurrently if it likes), tokenizes the
//! bodies, reports every page through `page_fetched`, sends the returned
//! strings to the sink, and closes the round. A failed fetch is reported
//! too: the first failure becomes the crawl's error, while every other page
//! of every round is still processed in full.

use vstd::prelude::*;

use crate::extract::{get_links, resolved_links};
use crate::html::{strs_view, tokens_hrefs, HtmlToken};
use crate::urls::{urls_view, CrawlUrl};

verus! {

/// The failure a finished crawl reports: the first fetch that failed.
#[derive(Debug)]
pub struct CrawlError {
    msg: String,
}

impl View for CrawlError {
    type V = Seq<char>;

    closed spec fn view(&self) -> Seq<char> {
        self.msg@
    }
}

impl CrawlError {
    pub fn message(&self) -> (r: &str)
        ensures
            r@ == self@,
    {
        self.msg.as_str()
    }
}

/// One crawl in progress: the frontier still to fetch at the current depth,
/// the links gathered for the next depth, and the first failure seen.
///
/// The ghost fields record the crawl's history: every URL handed out to be
/// fetched, every link string handed out for the sink, the number of rounds
/// begun, and the seed frontier and depth the crawl started from.
pub struct Crawler {
    max: u32,
    current: u32,
    round_open: bool,
    frontier: Vec<CrawlUrl>,
    next: Vec<CrawlUrl>,
    error: Option<String>,
    start_depth: Ghost<u32>,
    seed: Ghost<Seq<Seq<char>>>,
    rounds: Ghost<nat>,
    fetched: Ghost<Seq<Seq<char>>>,
    emitted: Ghost<Seq<Seq<char>>>,
}

impl Crawler {
    /// The depth of the round being fetched (or, between rounds, of the
    /// round a `start_round` would begin).
    pub closed spec fn depth(self) -> int {
        self.current as int
    }

    /// The depth bound: rounds run while `depth() <= max_depth()`.
    pub closed spec fn max_depth(self) -> int {
        self.max as int
    }

    /// True between `start_round` and `finish_round`.
    pub closed spec fn in_round(self) -> bool {
        self.round_open
    }

    /// The depth the crawl started at (1 for a seed crawl).
    pub closed spec fn start_depth(self) -> int {
        self.start_depth@ as int
    }

    /// The frontier the crawl started with.
    pub closed spec fn seed(self) -> Seq<Seq<char>> {
        self.seed@
    }

    /// How many rounds have begun.
    pub closed spec fn rounds(self) -> nat {
        self.rounds@
    }

    /// Every URL handed out to be fetched, oldest first.
    pub closed spec fn fetched(self) -> Seq<Seq<char>> {
        self.fetched@
    }

    /// Every link handed out for the result sink, oldest first.
    pub closed spec fn emitted(self) -> Seq<Seq<char>> {
        self.emitted@
    }

    /// The URLs waiting to be fetched by the current or next round.
    pub closed spec fn frontier_view(self) -> Seq<Seq<char>> {
        urls_view(self.frontier@)
    }

    /// The links gathered so far for the round after this one.
    pub closed spec fn next_view(self) -> Seq<Seq<char>> {
        urls_view(self.next@)
    }

    /// Whether some fetch has failed.
    pub closed spec fn failed(self) -> bool {
        self.error is Some
    }

    /// The first failure's message.
    pub closed spec fn error_view(self) -> Seq<char> {
        self.error->Some_0@
    }

    /// A crawl is done between rounds once the depth has passed the bound.
    pub open spec fn done(self) -> bool {
        !self.in_round() && self.depth() > self.max_depth()
    }

    /// The crawler's invariant, established by `new` and kept by every
    /// step. The depth always equals the starting depth plus the rounds
    /// begun (one less while a round is open); a round only opens while the
    /// depth is within the bound, so the depth never passes one beyond the
    /// bound (unless the crawl started beyond it and did nothing); before
    /// the first round nothing was fetched and the frontier is the seed,
    /// and the first round fetches exactly the seed.
    pub closed spec fn inv(self) -> bool {
        &&& self.max <= 255
        &&& self.round_open ==> self.current <= self.max
        &&& self.round_open ==> self.rounds@ >= 1
        &&& !self.round_open ==> self.current as int == self.start_depth@ + self.rounds@
        &&& self.round_open ==> self.current as int == self.start_depth@ + self.rounds@ - 1
        &&& self.current as int <= self.max as int + 1 || (self.rounds@ == 0 && self.current
            == self.start_depth@)
        &&& self.rounds@ == 0 ==> self.fetched@ == Seq::<Seq<char>>::empty() && urls_view(
            self.frontier@,
        ) == self.seed@ && !self.round_open
        &&& self.rounds@ == 1 ==> self.fetched@ == self.seed@
    }

    /// A crawl over `pages`, with `current` the depth they stand at and
    /// `max` the depth bound.
    pub fn new(pages: Vec<CrawlUrl>, current: u8, max: u8) -> (c: Crawler)
        ensures
            c.inv(),
            c.depth() == current as int,
            c.max_depth() == max as int,
            c.start_depth() == current as int,
            !c.in_round(),
            c.rounds() == 0,
            c.fetched() == Seq::<Seq<char>>::empty(),
            c.emitted() == Seq::<Seq<char>>::empty(),
            c.frontier_view() == urls_view(pages@),
            c.seed() == urls_view(pages@),
            c.next_view() == Seq::<Seq<char>>::empty(),
            !c.failed(),
    {
        let ghost seed_view = urls_view(pages@);
        let c = Crawler {
            max: max as u32,
            current: current as u32,
            round_open: false,
            frontier: pages,
            next: Vec::new(),
            error: None,
            start_depth: Ghost(current as u32),
            seed: Ghost(seed_view),
            rounds: Ghost(0nat),
            fetched: Ghost(Seq::empty()),
            emitted: Ghost(Seq::empty()),
        };
        proof {
            assert(c.next_view() =~= Seq::<Seq<char>>::empty());
        }
        c
    }

    /// Begin the round at the current depth: hand out its frontier to be
    /// fetched, or nothing when the depth has passed the bound. The handed
    /// out URLs count as fetched; nothing beyond the bound is ever fetched.
    pub fn start_round(&mut self) -> (r: Option<Vec<CrawlUrl>>)
        requires
            old(self).inv(),
            !old(self).in_round(),
        ensures
            final(self).inv(),
            r is Some <==> old(self).depth() <= old(self).max_depth(),
            final(self).depth() == old(self).depth(),
            final(self).max_depth() == old(self).max_depth(),
            final(self).start_depth() == old(self).start_depth(),
            final(self).seed() == old(self).seed(),
            final(self).next_view() == old(self).next_view(),
            final(self).emitted() == old(self).emitted(),
            final(self).failed() == old(self).failed(),
            old(self).failed() ==> final(self).error_view() == old(self).error_view(),
            match r {
                Some(urls) => {
                    &&& urls_view(urls@) == old(self).frontier_view()
                    &&& final(self).in_round()
                    &&& final(self).rounds() == old(self).rounds() + 1
                    &&& final(self).fetched() == old(self).fetched() + old(self).frontier_view()
                    &&& final(self).frontier_view() == Seq::<Seq<char>>::empty()
                },
                None => *final(self) == *old(self),
            },
    {
        if self.current > self.max {
            return None;
        }
        let mut out: Vec<CrawlUrl> = Vec::new();
        core::mem::swap(&mut out, &mut self.frontier);
        self.round_open = true;
        self.rounds = Ghost(self.rounds@ + 1);
        self.fetched = Ghost(self.fetched@ + urls_view(out@));
        proof {
            assert(self.frontier_view() =~= Seq::<Seq<char>>::empty());
        }
        Some(out)
    }

    /// Report one page of the open round. On a fetched body (given as its
    /// token stream) the page's links are extracted, added to the next
    /// frontier, and returned as the strings to send to the sink. On a
    /// failed fetch nothing is extracted or emitted and the failure is
    /// recorded, the first one becoming the crawl's error. A page is
    /// processed the same way whether or not an earlier page failed.
    pub fn page_fetched(&mut self, page: &CrawlUrl, outcome: Result<Vec<HtmlToken>, String>) -> (emits: Vec<String>)
        requires
            old(self).inv(),
            old(self).in_round(),
        ensures
            final(self).inv(),
            final(self).in_round(),
            final(self).depth() == old(self).depth(),
            final(self).max_depth() == old(self).max_depth(),
            final(self).start_depth() == old(self).start_depth(),
            final(self).seed() == old(self).seed(),
            final(self).rounds() == old(self).rounds(),
            final(self).fetched() == old(self).fetched(),
            final(self).frontier_view() == old(self).frontier_view(),
            match outcome {
                Ok(tokens) => {
                    &&& strs_view(emits@) == resolved_links(page@, tokens_hrefs(tokens@))
                    &&& final(self).next_view() == old(self).next_view() + resolved_links(
                        page@,
                        tokens_hrefs(tokens@),
                    )
                    &&& final(self).emitted() == old(self).emitted() + resolved_links(
                        page@,
                        tokens_hrefs(tokens@),
                    )
                    &&& final(self).failed() == old(self).failed()
                    &&& old(self).failed() ==> final(self).error_view() == old(self).error_view()
                },
                Err(m) => {
                    &&& emits@ == Seq::<String>::empty()
                    &&& final(self).next_view() == old(self).next_view()
                    &&& final(self).emitted() == old(self).emitted()
                    &&& final(self).failed()
                    &&& final(self).error_view() == (if old(self).failed() {
                        old(self).error_view()
                    } else {
                        m@
                    })
                },
            },
    {
        match outcome {
            Ok(tokens) => {
                let mut links = get_links(page, &tokens);
                let ghost found = resolved_links(page@, tokens_hrefs(tokens@));
                let mut emits: Vec<String> = Vec::new();
                proof {
                    assert(strs_view(emits@) =~= found.take(0));
                }
                let mut i: usize = 0;
                while i < links.len()
                    invariant
                        i <= links.len(),
                        urls_view(links@) == found,
                        strs_view(emits@) == found.take(i as int),
                    decreases links.len() - i,
                {
                    let ghost before = strs_view(emits@);
                    let t = links[i].to_text();
                    proof {
                        assert(urls_view(links@)[i as int] == links@[i as int]@);
                    }
                    emits.push(t);
                    proof {
                        assert(strs_view(emits@) =~= before.push(found[i as int]));
                        assert(found.take(i + 1) =~= found.take(i as int).push(found[i as int]));
                    }
                    i = i + 1;
                }
                proof {
                    assert(found.take(links@.len() as int) =~= found);
                }
                self.next.append(&mut links);
                self.emitted = Ghost(self.emitted@ + found);
                proof {
                    assert(self.next_view() =~= old(self).next_view() + found);
                }
                emits
            },
            Err(m) => {
                if self.error.is_none() {
                    self.error = Some(m);
                }
                let emits: Vec<String> = Vec::new();
                proof {
                    assert(emits@ =~= Seq::<String>::empty());
                }
                emits
            },
        }
    }

    /// Close the round: the links it gathered become the frontier of the
    /// next depth, and the depth grows by one.
    pub fn finish_round(&mut self)
        requires
            old(self).inv(),
            old(self).in_round(),
        ensures
            final(self).inv(),
            !final(self).in_round(),
            final(self).depth() == old(self).depth() + 1,
            final(self).max_depth() == old(self).max_depth(),
            final(self).start_depth() == old(self).start_depth(),
            final(self).seed() == old(self).seed(),
            final(self).rounds() == old(self).rounds(),
            final(self).fetched() == old(self).fetched(),
            final(self).emitted() == old(self).emitted(),
            final(self).frontier_view() == old(self).next_view(),
            final(self).next_view() == Seq::<Seq<char>>::empty(),
            final(self).failed() == old(self).failed(),
            old(self).failed() ==> final(self).error_view() == old(self).error_view(),
    {
        self.current = self.current + 1;
        self.round_open = false;
        let mut moved: Vec<CrawlUrl> = Vec::new();
        core::mem::swap(&mut moved, &mut self.next);
        self.frontier = moved;
        proof {
            assert(self.next_view() =~= Seq::<Seq<char>>::empty());
        }
    }

    /// The depth the crawl currently stands at.
    pub fn current_depth(&self) -> (r: u32)
        ensures
            r as int == self.depth(),
    {
        self.current
    }

    /// The depth bound the crawl was given.
    pub fn depth_bound(&self) -> (r: u32)
        ensures
            r as int == self.max_depth(),
    {
        self.max
    }

    /// True once the crawl is over: the depth has passed the bound.
    pub fn is_done(&self) -> (r: bool)
        requires
            !self.in_round(),
        ensures
            r == self.done(),
    {
        self.current > self.max
    }

    /// Whether some fetch has failed so far.
    pub fn has_failed(&self) -> (r: bool)
        ensures
            r == self.failed(),
    {
        self.error.is_some()
    }

    /// The crawl's outcome: `Ok` when every fetch succeeded, else the first
    /// failure.
    pub fn into_result(self) -> (r: Result<(), CrawlError>)
        ensures
            r is Ok <==> !self.failed(),
            r is Err ==> r->Err_0@ == self.error_view(),
    {
        match self.error {
            None => Ok(()),
            Some(m) => Err(CrawlError { msg: m }),
        }
    }
}

/// Depth termination: a crawl that began at depth 1 and is done ran exactly
/// `max_depth` rounds of fetching, and stopped at depth `max_depth + 1`.
pub proof fn lemma_round_count(c: Crawler)
    requires
        c.inv(),
        c.done(),
        c.start_depth() == 1,
        c.max_depth() >= 1,
    ensures
        c.rounds() == c.max_depth(),
        c.depth() == c.max_depth() + 1,
{
}

/// With depth bound 1, a finished crawl fetched exactly its seed frontier,
/// in one round: the links of the seed pages were gathered and emitted but
/// never handed out to fetch.
pub proof fn lemma_depth_one_fetches_seed_only(c: Crawler)
    requires
        c.inv(),
        c.done(),
        c.start_depth() == 1,
        c.max_depth() == 1,
    ensures
        c.rounds() == 1,
        c.fetched() == c.seed(),
{
    lemma_round_count(c);
}

} // verus!
