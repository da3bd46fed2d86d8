//! That a crawl comes to its end: on a site that holds finitely many pages,
//! the workers run out of work after a bounded number of turns, and the
//! monitor then finds the run over.
//!
//! The workers are taken one after the other here. What the renderer gives
//! for a page, and what a request for a link is answered with, are any two
//! functions: the site and its neighbours.

use crate::link_scanner::{link_turn_spec, CheckState, LinkActionView, LinkEventView};
use crate::monitor::quiescent;
use crate::page_scanner::{
    is_followed, lemma_pending, page_links, page_turn_spec, pending, record_spec, targets_of,
    CrawlState, PageActionView, PageEventView, RenderingView,
};
use crate::results::LinkView;
use vstd::prelude::*;

verus! {

/// Whether every page of a sequence lies in a set of pages.
pub open spec fn within(universe: Set<Seq<char>>, pages: Seq<Seq<char>>) -> bool {
    forall|i: int| 0 <= i < pages.len() ==> universe.contains(#[trigger] pages[i])
}

/// The pages that a rendering makes the scanner queue: the targets of its
/// followed links.
pub open spec fn followed_targets(
    scope: Set<Seq<char>>,
    follow: bool,
    page: Seq<char>,
    rendering: RenderingView,
) -> Seq<Seq<char>> {
    targets_of(
        page_links(page, rendering.hrefs, rendering.srcs).filter(is_followed(scope, follow)),
    )
}

/// Whether what an event makes the scanner queue lies in a set of pages.
pub open spec fn event_within(
    scope: Set<Seq<char>>,
    follow: bool,
    universe: Set<Seq<char>>,
    event: PageEventView,
) -> bool {
    match event {
        PageEventView::Rendered(page, Ok(rendering)) => within(
            universe,
            followed_targets(scope, follow, page, rendering),
        ),
        _ => true,
    }
}

/// Whether a site stays within a set of pages: whatever page is rendered, the
/// pages that it makes the scanner queue lie in the set.
pub open spec fn site_within(
    scope: Set<Seq<char>>,
    follow: bool,
    universe: Set<Seq<char>>,
    site: spec_fn(Seq<char>) -> Result<RenderingView, Seq<char>>,
) -> bool {
    forall|page: Seq<char>|
        event_within(scope, follow, universe, PageEventView::Rendered(page, #[trigger] site(page)))
}

/// The pages of a set that were not rendered yet.
pub open spec fn unrendered(universe: Set<Seq<char>>, rendered: Seq<Seq<char>>) -> Set<Seq<char>> {
    universe.difference(rendered.to_set())
}

/// The page scanner at work on a site: it takes a turn, the page that it
/// asks for is rendered, it takes the next turn with what the page gave, and
/// so on until it pauses, or until `turns` pages were rendered. Gives the
/// state after the last turn and what that turn asked for.
pub open spec fn crawl_pages(
    scope: Set<Seq<char>>,
    follow: bool,
    site: spec_fn(Seq<char>) -> Result<RenderingView, Seq<char>>,
    state: CrawlState,
    event: PageEventView,
    turns: nat,
) -> (CrawlState, PageActionView)
    decreases turns,
{
    let (after, action) = page_turn_spec(scope, follow, state, event, false);
    match action {
        PageActionView::Render(page) => if turns > 0 {
            crawl_pages(
                scope,
                follow,
                site,
                after,
                PageEventView::Rendered(page, site(page)),
                (turns - 1) as nat,
            )
        } else {
            (after, action)
        },
        _ => (after, action),
    }
}

/// A link scanner at work: it takes a turn, the link that it asks for is
/// requested, it takes the next turn with the answer, and so on until it
/// pauses, or until `turns` links were requested. Gives the state after the
/// last turn and what that turn asked for.
pub open spec fn check_links(
    answers: spec_fn(LinkView) -> Result<u16, Seq<char>>,
    state: CheckState,
    event: LinkEventView,
    turns: nat,
) -> (CheckState, LinkActionView)
    decreases turns,
{
    let (after, action) = link_turn_spec(state, event, false);
    match action {
        LinkActionView::Check(link) => if turns > 0 {
            check_links(
                answers,
                after,
                LinkEventView::Checked(link, answers(link)),
                (turns - 1) as nat,
            )
        } else {
            (after, action)
        },
        _ => (after, action),
    }
}

/// On a site that stays within a finite set of pages, the page scanner
/// pauses, with the queue of pages empty, after it has rendered at most as
/// many pages as the set holds that were not rendered before. Every
/// rendering has then been recorded as a result.
pub proof fn lemma_crawl_pages_drains(
    scope: Set<Seq<char>>,
    follow: bool,
    site: spec_fn(Seq<char>) -> Result<RenderingView, Seq<char>>,
    universe: Set<Seq<char>>,
    state: CrawlState,
    event: PageEventView,
    turns: nat,
)
    requires
        universe.finite(),
        site_within(scope, follow, universe, site),
        within(universe, state.pages),
        event_within(scope, follow, universe, event),
        turns >= unrendered(universe, state.rendered).len(),
    ensures
        ({
            let (after, action) = crawl_pages(scope, follow, site, state, event, turns);
            &&& action is Sleep
            &&& after.pages.len() == 0
            &&& after.results.len() >= state.results.len() + (if event is Rendered {
                1nat
            } else {
                0nat
            })
        }),
    decreases turns,
{
    let recorded = match event {
        PageEventView::Rendered(page, outcome) => record_spec(scope, follow, state, page, outcome),
        _ => state,
    };
    assert(within(universe, recorded.pages)) by {
        match event {
            PageEventView::Rendered(page, Ok(rendering)) => {
                let queued = followed_targets(scope, follow, page, rendering);
                assert(recorded.pages == state.pages + queued);
                assert forall|i: int| 0 <= i < recorded.pages.len() implies universe.contains(
                    #[trigger] recorded.pages[i],
                ) by {
                    if i < state.pages.len() {
                        assert(recorded.pages[i] == state.pages[i]);
                    } else {
                        assert(recorded.pages[i] == queued[i - state.pages.len()]);
                    }
                }
            },
            _ => {},
        }
    }
    lemma_pending(recorded.rendered, recorded.pages);
    let waiting = pending(recorded.rendered, recorded.pages);
    let (after, action) = page_turn_spec(scope, follow, state, event, false);
    match action {
        PageActionView::Render(page) => {
            assert(page == waiting.last());
            assert(waiting.last() == recorded.pages[waiting.len() - 1]);
            assert(universe.contains(page));
            assert(!state.rendered.contains(page));
            let before = unrendered(universe, state.rendered);
            assert(before.contains(page));
            assert(unrendered(universe, after.rendered) =~= before.remove(page)) by {
                assert forall|other: Seq<char>|
                    after.rendered.to_set().contains(other) <==> (state.rendered.to_set().contains(
                        other,
                    ) || other == page) by {
                    if state.rendered.contains(other) {
                        let i = state.rendered.index_of(other);
                        assert(after.rendered[i] == other);
                    }
                    if other == page {
                        assert(after.rendered[after.rendered.len() - 1] == page);
                    }
                    if after.rendered.contains(other) && other != page {
                        let i = after.rendered.index_of(other);
                        assert(state.rendered[i] == other);
                    }
                }
            }
            vstd::set_lib::lemma_set_difference_len(universe, state.rendered.to_set());
            assert(before.finite());
            assert(within(universe, after.pages)) by {
                assert forall|i: int| 0 <= i < after.pages.len() implies universe.contains(
                    #[trigger] after.pages[i],
                ) by {
                    assert(after.pages[i] == recorded.pages[i]);
                }
            }
            lemma_crawl_pages_drains(
                scope,
                follow,
                site,
                universe,
                after,
                PageEventView::Rendered(page, site(page)),
                (turns - 1) as nat,
            );
        },
        _ => {},
    }
}

/// A link scanner pauses, with the queue of links empty, after it has
/// requested as many links as the queue held, and it has then reported on
/// every one of them.
pub proof fn lemma_check_links_drains(
    answers: spec_fn(LinkView) -> Result<u16, Seq<char>>,
    state: CheckState,
    event: LinkEventView,
    turns: nat,
)
    requires
        turns >= state.links.len(),
    ensures
        ({
            let (after, action) = check_links(answers, state, event, turns);
            &&& action is Sleep
            &&& after.links.len() == 0
            &&& after.results.len() == state.results.len() + state.links.len() + (if event
                is Checked {
                1nat
            } else {
                0nat
            })
        }),
    decreases turns,
{
    let (after, action) = link_turn_spec(state, event, false);
    match action {
        LinkActionView::Check(link) => {
            lemma_check_links_drains(
                answers,
                after,
                LinkEventView::Checked(link, answers(link)),
                (turns - 1) as nat,
            );
        },
        _ => {},
    }
}

/// A crawl comes to its end. On a site that stays within a finite set of
/// pages, the page scanner, started on a seed, has dealt with every page
/// after at most as many renderings as the set holds. A link scanner has then
/// dealt with every link after as many requests as there are links. At that
/// point both queues are empty and there are results, which is when the
/// monitor finds the run over.
pub proof fn lemma_crawl_reaches_quiescence(
    scope: Set<Seq<char>>,
    follow: bool,
    site: spec_fn(Seq<char>) -> Result<RenderingView, Seq<char>>,
    answers: spec_fn(LinkView) -> Result<u16, Seq<char>>,
    universe: Set<Seq<char>>,
    seed: Seq<char>,
)
    requires
        universe.finite(),
        universe.contains(seed),
        site_within(scope, follow, universe, site),
    ensures
        ({
            let start = CrawlState {
                rendered: Seq::empty(),
                pages: seq![seed],
                links: Seq::empty(),
                results: Seq::empty(),
            };
            let (crawled, _) = crawl_pages(
                scope,
                follow,
                site,
                start,
                PageEventView::Started,
                universe.len(),
            );
            let (checked, _) = check_links(
                answers,
                CheckState { links: crawled.links, results: crawled.results },
                LinkEventView::Started,
                crawled.links.len(),
            );
            quiescent(crawled.pages.len(), checked.links.len(), checked.results.len())
        }),
{
    let start = CrawlState {
        rendered: Seq::empty(),
        pages: seq![seed],
        links: Seq::empty(),
        results: Seq::empty(),
    };
    assert(unrendered(universe, start.rendered) =~= universe);
    assert(universe.len() >= 1) by {
        if universe.len() == 0 {
            assert(universe =~= Set::empty());
        }
    }
    // The first turn hands out the seed.
    let (first, action) = page_turn_spec(scope, follow, start, PageEventView::Started, false);
    assert(pending(start.rendered, start.pages) == start.pages);
    assert(action == PageActionView::Render(seed));
    assert(first.rendered =~= seq![seed]);
    assert(first.pages =~= Seq::<Seq<char>>::empty());
    assert(unrendered(universe, first.rendered) =~= universe.remove(seed)) by {
        assert(first.rendered[0] == seed);
    }
    lemma_crawl_pages_drains(
        scope,
        follow,
        site,
        universe,
        first,
        PageEventView::Rendered(seed, site(seed)),
        (universe.len() - 1) as nat,
    );
    let (crawled, _) = crawl_pages(
        scope,
        follow,
        site,
        start,
        PageEventView::Started,
        universe.len(),
    );
    assert(crawled.results.len() >= 1);
    lemma_check_links_drains(
        answers,
        CheckState { links: crawled.links, results: crawled.results },
        LinkEventView::Started,
        crawled.links.len(),
    );
}

} // verus!
