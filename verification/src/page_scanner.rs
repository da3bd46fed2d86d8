//! The page scanner: the single worker that renders pages, finds their
//! references and sorts them into pages to crawl and links to check.

use crate::results::{
    results_view, Link, LinkView, Reason, ReasonView, ScanResult, ScanResultView,
};
use crate::unique::{distinct, lemma_distinct_push, lemma_push_new};
use crate::url_utils::{
    canonical, canonical_spec, contains_url, host_url_from, host_url_spec, strings_view,
    urls_view, Url,
};
use vstd::prelude::*;

verus! {

/// A page is the canonical URL at which it is found.
pub type Page = Url;

/// A page that could not be rendered, and why.
#[derive(Debug)]
pub struct PageFailure {
    pub page: Url,
    pub reason: Reason,
}

/// A `PageFailure` as contracts speak of it.
pub struct PageFailureView {
    pub page: Seq<char>,
    pub reason: ReasonView,
}

impl View for PageFailure {
    type V = PageFailureView;

    open spec fn view(&self) -> PageFailureView {
        PageFailureView { page: self.page@, reason: self.reason@ }
    }
}

impl Clone for PageFailure {
    fn clone(&self) -> (copy: Self)
        ensures
            copy@ == self@,
    {
        PageFailure { page: self.page.clone(), reason: self.reason.clone() }
    }
}

/// What the scanner is allowed to follow.
#[derive(Debug)]
pub struct PageScannerOptions {
    /// The host forms of the URLs that are in scope.
    pub scope: Vec<Url>,
    /// Whether references into the scope are crawled in turn.
    pub follow: bool,
}

/// The canonical form of a raw reference found on the page `base`, if it has one.
pub open spec fn target_of(base: Seq<char>) -> spec_fn(Seq<char>) -> Option<Seq<char>> {
    |raw: Seq<char>|
        match canonical_spec(base, raw) {
            Ok(target) => Some(target),
            Err(_) => None,
        }
}

/// The canonical forms of the raw references found on the page `base`, in
/// their order; references without one are left out.
pub open spec fn canonical_targets(base: Seq<char>, raw: Seq<Seq<char>>) -> Seq<Seq<char>> {
    raw.filter_map(target_of(base))
}

/// The links of the page `base`, given the raw values of its `href` and `src`
/// attributes: one link for each canonical target, in order of first occurrence.
pub open spec fn page_links(base: Seq<char>, hrefs: Seq<Seq<char>>, srcs: Seq<Seq<char>>) -> Seq<
    LinkView,
> {
    distinct(canonical_targets(base, hrefs + srcs)).map_values(
        |target: Seq<char>| LinkView { source: base, link: target },
    )
}

/// The views of a sequence of links, one by one.
pub open spec fn links_view(links: Seq<Link>) -> Seq<LinkView> {
    links.map_values(|link: Link| link@)
}

/// The canonical targets of a sequence of raw references with one more at its end.
proof fn lemma_canonical_targets_push(base: Seq<char>, raw: Seq<Seq<char>>, next: Seq<char>)
    ensures
        canonical_targets(base, raw.push(next)) == (match canonical_spec(base, next) {
            Ok(target) => canonical_targets(base, raw).push(target),
            Err(_) => canonical_targets(base, raw),
        }),
{
    assert(raw.push(next).drop_last() =~= raw);
    match canonical_spec(base, next) {
        Ok(target) => {
            assert(canonical_targets(base, raw) + seq![target] =~= canonical_targets(
                base,
                raw,
            ).push(target));
        },
        Err(_) => {},
    }
}

/// Adds to `found` the canonical targets of `raw` that it does not hold yet.
fn add_targets(base: &Url, raw: &Vec<String>, found: &mut Vec<Url>, Ghost(before): Ghost<
    Seq<Seq<char>>,
>)
    requires
        urls_view(old(found)@) == distinct(canonical_targets(base@, before)),
    ensures
        urls_view(final(found)@) == distinct(
            canonical_targets(base@, before + strings_view(raw@)),
        ),
{
    let mut i: usize = 0;
    proof {
        assert(before + strings_view(raw@).take(0) =~= before);
    }
    while i < raw.len()
        invariant
            i <= raw.len(),
            urls_view(found@) == distinct(
                canonical_targets(base@, before + strings_view(raw@).take(i as int)),
            ),
        decreases raw.len() - i,
    {
        let ghost done = before + strings_view(raw@).take(i as int);
        proof {
            assert(before + strings_view(raw@).take(i + 1) =~= done.push(raw@[i as int]@));
            lemma_canonical_targets_push(base@, done, raw@[i as int]@);
        }
        match canonical(base, raw[i].as_str()) {
            Ok(target) => {
                proof {
                    lemma_distinct_push(canonical_targets(base@, done), target@);
                }
                if !contains_url(found, &target) {
                    proof {
                        assert(urls_view(found@.push(target)) =~= urls_view(found@).push(target@));
                    }
                    found.push(target);
                }
            },
            Err(_) => {},
        }
        i += 1;
    }
    proof {
        assert(strings_view(raw@).take(i as int) =~= strings_view(raw@));
    }
}

/// The raw values of the `href` and of the `src` attributes of a rendered page.
#[derive(Debug)]
pub struct Rendering {
    pub hrefs: Vec<String>,
    pub srcs: Vec<String>,
}

/// A `Rendering` as contracts speak of it.
pub struct RenderingView {
    pub hrefs: Seq<Seq<char>>,
    pub srcs: Seq<Seq<char>>,
}

impl View for Rendering {
    type V = RenderingView;

    open spec fn view(&self) -> RenderingView {
        RenderingView { hrefs: strings_view(self.hrefs@), srcs: strings_view(self.srcs@) }
    }
}

/// The view of what the renderer gave: the page's raw references, or the
/// message of its failure.
pub open spec fn outcome_view(outcome: Result<Rendering, String>) -> Result<
    RenderingView,
    Seq<char>,
> {
    match outcome {
        Ok(rendering) => Ok(rendering@),
        Err(message) => Err(message@),
    }
}

/// What happened since the scanner's last turn.
#[derive(Debug)]
pub enum PageEvent {
    /// Nothing yet: this is the scanner's first turn.
    Started,
    /// The scanner found no page to render and has waited.
    Idled,
    /// The renderer is done with the page that the last turn handed out: it
    /// gives the page's raw references, or the message of its failure.
    Rendered(Page, Result<Rendering, String>),
}

/// A `PageEvent` as contracts speak of it.
pub enum PageEventView {
    Started,
    Idled,
    Rendered(Seq<char>, Result<RenderingView, Seq<char>>),
}

impl View for PageEvent {
    type V = PageEventView;

    open spec fn view(&self) -> PageEventView {
        match self {
            PageEvent::Started => PageEventView::Started,
            PageEvent::Idled => PageEventView::Idled,
            PageEvent::Rendered(page, outcome) => PageEventView::Rendered(
                page@,
                outcome_view(*outcome),
            ),
        }
    }
}

/// What the scanner asks for at the end of a turn.
#[derive(Debug)]
pub enum PageAction {
    /// Render this page, and come back with what it holds.
    Render(Page),
    /// No page is pending: wait a moment, and come back.
    Sleep,
    /// The run is over.
    Exit,
}

/// A `PageAction` as contracts speak of it.
pub enum PageActionView {
    Render(Seq<char>),
    Sleep,
    Exit,
}

impl View for PageAction {
    type V = PageActionView;

    open spec fn view(&self) -> PageActionView {
        match self {
            PageAction::Render(page) => PageActionView::Render(page@),
            PageAction::Sleep => PageActionView::Sleep,
            PageAction::Exit => PageActionView::Exit,
        }
    }
}

/// The state of a crawl as the page scanner sees it: the pages handed to the
/// renderer so far, in order, and the contents of the three queues.
pub struct CrawlState {
    pub rendered: Seq<Seq<char>>,
    pub pages: Seq<Seq<char>>,
    pub links: Seq<LinkView>,
    pub results: Seq<ScanResultView>,
}

/// Whether a URL lies in the scope: whether its host form is one of the scope's.
pub open spec fn in_scope(scope: Set<Seq<char>>, target: Seq<char>) -> bool {
    match host_url_spec(target) {
        Ok(host) => scope.contains(host),
        Err(_) => false,
    }
}

/// The test that a link is crawled: links are followed, and its target lies in the scope.
pub open spec fn is_followed(scope: Set<Seq<char>>, follow: bool) -> spec_fn(LinkView) -> bool {
    |link: LinkView| follow && in_scope(scope, link.link)
}

/// The test that a link is checked for liveness: that it is not crawled.
pub open spec fn is_checked(scope: Set<Seq<char>>, follow: bool) -> spec_fn(LinkView) -> bool {
    |link: LinkView| !(follow && in_scope(scope, link.link))
}

/// The targets of a sequence of links, one by one.
pub open spec fn targets_of(links: Seq<LinkView>) -> Seq<Seq<char>> {
    links.map_values(|link: LinkView| link.link)
}

/// The state after the outcome of rendering `page` is recorded.
///
/// A failure adds a `PageFailure` to the results. A success adds a
/// `PageSuccess`, queues the targets of the page's followed links as pages and
/// its other links for checking, each in the order of the page's links.
pub open spec fn record_spec(
    scope: Set<Seq<char>>,
    follow: bool,
    state: CrawlState,
    page: Seq<char>,
    outcome: Result<RenderingView, Seq<char>>,
) -> CrawlState {
    match outcome {
        Ok(rendering) => {
            let found = page_links(page, rendering.hrefs, rendering.srcs);
            CrawlState {
                rendered: state.rendered,
                pages: state.pages + targets_of(found.filter(is_followed(scope, follow))),
                links: state.links + found.filter(is_checked(scope, follow)),
                results: state.results.push(ScanResultView::PageSuccess(page)),
            }
        },
        Err(message) => CrawlState {
            rendered: state.rendered,
            pages: state.pages,
            links: state.links,
            results: state.results.push(
                ScanResultView::PageFailure(
                    PageFailureView { page, reason: ReasonView::Other(message) },
                ),
            ),
        },
    }
}

/// The queue of pages after the pages at its end that were rendered before
/// are dropped: it is empty, or its last page was never rendered.
pub open spec fn pending(rendered: Seq<Seq<char>>, pages: Seq<Seq<char>>) -> Seq<Seq<char>>
    decreases pages.len(),
{
    if pages.len() > 0 && rendered.contains(pages.last()) {
        pending(rendered, pages.drop_last())
    } else {
        pages
    }
}

/// The search for a page to render: the pages rendered and the queue of
/// pages after it, and what the scanner asks for. That is the last pending
/// page, which then counts as rendered, or a pause.
pub open spec fn next_page_spec(rendered: Seq<Seq<char>>, pages: Seq<Seq<char>>) -> (
    Seq<Seq<char>>,
    Seq<Seq<char>>,
    PageActionView,
) {
    let waiting = pending(rendered, pages);
    if waiting.len() == 0 {
        (rendered, waiting, PageActionView::Sleep)
    } else {
        (rendered.push(waiting.last()), waiting.drop_last(), PageActionView::Render(waiting.last()))
    }
}

/// The state after the scanner has looked for a page to render, and what it asks for.
pub open spec fn dispatch_spec(state: CrawlState) -> (CrawlState, PageActionView) {
    let (rendered, pages, action) = next_page_spec(state.rendered, state.pages);
    (CrawlState { rendered, pages, links: state.links, results: state.results }, action)
}

/// One turn of the page scanner: the state after it, and what the scanner asks for.
///
/// The outcome of a rendering is recorded first. After anything but the start
/// the shutdown flag is then obeyed. Otherwise the scanner looks for the next
/// page to render.
pub open spec fn page_turn_spec(
    scope: Set<Seq<char>>,
    follow: bool,
    state: CrawlState,
    event: PageEventView,
    exit: bool,
) -> (CrawlState, PageActionView) {
    match event {
        PageEventView::Started => dispatch_spec(state),
        PageEventView::Idled => if exit {
            (state, PageActionView::Exit)
        } else {
            dispatch_spec(state)
        },
        PageEventView::Rendered(page, outcome) => {
            let recorded = record_spec(scope, follow, state, page, outcome);
            if exit {
                (recorded, PageActionView::Exit)
            } else {
                dispatch_spec(recorded)
            }
        },
    }
}

/// The page scanner: it remembers which pages were handed to the renderer,
/// and knows what it may follow.
#[derive(Debug)]
pub struct PageScanner {
    seen: Vec<Url>,
    options: PageScannerOptions,
}

impl PageScanner {
    /// The pages handed to the renderer so far, in order.
    pub closed spec fn rendered(&self) -> Seq<Seq<char>> {
        urls_view(self.seen@)
    }

    /// The host forms that are in scope.
    pub closed spec fn scope(&self) -> Set<Seq<char>> {
        urls_view(self.options.scope@).to_set()
    }

    /// Whether references into the scope are crawled.
    pub closed spec fn follow(&self) -> bool {
        self.options.follow
    }

    /// No page was handed to the renderer twice.
    pub open spec fn wf(&self) -> bool {
        self.rendered().no_duplicates()
    }

    /// The state of the crawl, given the contents of the three queues.
    pub open spec fn state(
        &self,
        pages: Seq<Url>,
        links: Seq<Link>,
        results: Seq<ScanResult>,
    ) -> CrawlState {
        CrawlState {
            rendered: self.rendered(),
            pages: urls_view(pages),
            links: links_view(links),
            results: results_view(results),
        }
    }

    /// A scanner that has rendered nothing yet.
    pub fn new(options: PageScannerOptions) -> (scanner: Self)
        ensures
            scanner.wf(),
            scanner.rendered() == Seq::<Seq<char>>::empty(),
            scanner.scope() == urls_view(options.scope@).to_set(),
            scanner.follow() == options.follow,
    {
        let scanner = PageScanner { seen: Vec::new(), options };
        assert(scanner.rendered() =~= Seq::<Seq<char>>::empty());
        scanner
    }

    /// The links of the page `url`, from the raw values of its `href` and of
    /// its `src` attributes: each value is canonicalized against the page,
    /// those that cannot be are dropped, and each target is kept once.
    pub fn page_to_hrefs(&self, url: &Page, hrefs: &Vec<String>, srcs: &Vec<String>) -> (links:
        Vec<Link>)
        ensures
            links_view(links@) == page_links(url@, strings_view(hrefs@), strings_view(srcs@)),
    {
        let mut found: Vec<Url> = Vec::new();
        proof {
            assert(urls_view(found@) =~= distinct(
                canonical_targets(url@, Seq::<Seq<char>>::empty()),
            ));
            assert(Seq::<Seq<char>>::empty() + strings_view(hrefs@) =~= strings_view(hrefs@));
        }
        add_targets(url, hrefs, &mut found, Ghost(Seq::empty()));
        add_targets(url, srcs, &mut found, Ghost(strings_view(hrefs@)));
        let mut links: Vec<Link> = Vec::new();
        let mut i: usize = 0;
        while i < found.len()
            invariant
                i <= found.len(),
                links.len() == i,
                forall|k: int|
                    0 <= k < i ==> (#[trigger] links@[k])@ == (LinkView {
                        source: url@,
                        link: found@[k]@,
                    }),
            decreases found.len() - i,
        {
            links.push(Link { source: url.clone(), link: found[i].clone() });
            i += 1;
        }
        proof {
            assert(links_view(links@) =~= page_links(
                url@,
                strings_view(hrefs@),
                strings_view(srcs@),
            ));
        }
        links
    }

    /// Whether a link is crawled rather than checked.
    pub fn follows(&self, link: &Link) -> (followed: bool)
        ensures
            followed == is_followed(self.scope(), self.follow())(link@),
    {
        if !self.options.follow {
            return false;
        }
        match host_url_from(&link.link) {
            Ok(host) => contains_url(&self.options.scope, &host),
            Err(_) => false,
        }
    }
}

/// The followed and the checked links of a sequence of links with one more at its end.
proof fn lemma_route_push(scope: Set<Seq<char>>, follow: bool, links: Seq<LinkView>, next: LinkView)
    ensures
        targets_of(links.push(next).filter(is_followed(scope, follow))) == if is_followed(
            scope,
            follow,
        )(next) {
            targets_of(links.filter(is_followed(scope, follow))).push(next.link)
        } else {
            targets_of(links.filter(is_followed(scope, follow)))
        },
        links.push(next).filter(is_checked(scope, follow)) == if is_followed(scope, follow)(next) {
            links.filter(is_checked(scope, follow))
        } else {
            links.filter(is_checked(scope, follow)).push(next)
        },
{
    links.lemma_filter_push(next, is_followed(scope, follow));
    links.lemma_filter_push(next, is_checked(scope, follow));
    if is_followed(scope, follow)(next) {
        assert(targets_of(links.filter(is_followed(scope, follow)).push(next)) =~= targets_of(
            links.filter(is_followed(scope, follow)),
        ).push(next.link));
    }
}

impl PageScanner {
    /// Records the outcome of rendering `page`.
    ///
    /// A failure is reported as a `PageFailure` with the renderer's message.
    /// A success is reported as a `PageSuccess`; the page's links are then
    /// sorted: the target of a followed link is queued as a page, any other
    /// link is queued for checking.
    pub fn record(
        &self,
        page: Page,
        outcome: Result<Rendering, String>,
        pages: &mut Vec<Page>,
        links: &mut Vec<Link>,
        results: &mut Vec<ScanResult>,
    )
        ensures
            self.state(final(pages)@, final(links)@, final(results)@) == record_spec(
                self.scope(),
                self.follow(),
                self.state(old(pages)@, old(links)@, old(results)@),
                page@,
                outcome_view(outcome),
            ),
    {
        let ghost before = self.state(pages@, links@, results@);
        match outcome {
            Ok(rendering) => {
                let found = self.page_to_hrefs(&page, &rendering.hrefs, &rendering.srcs);
                let ghost all = links_view(found@);
                let ghost scope = self.scope();
                let ghost follow = self.follow();
                proof {
                    assert(results_view(results@.push(ScanResult::PageSuccess(page)))
                        =~= results_view(results@).push(ScanResultView::PageSuccess(page@)));
                    broadcast use Seq::lemma_filter_len;

                    assert(all.take(0).filter(is_followed(scope, follow)).len() == 0);
                    assert(all.take(0).filter(is_checked(scope, follow)).len() == 0);
                    assert(before.pages + targets_of(all.take(0).filter(is_followed(scope, follow)))
                        =~= before.pages);
                    assert(before.links + all.take(0).filter(is_checked(scope, follow))
                        =~= before.links);
                }
                results.push(ScanResult::PageSuccess(page));
                let mut i: usize = 0;
                while i < found.len()
                    invariant
                        i <= found.len(),
                        all == links_view(found@),
                        scope == self.scope(),
                        follow == self.follow(),
                        urls_view(pages@) == before.pages + targets_of(
                            all.take(i as int).filter(is_followed(scope, follow)),
                        ),
                        links_view(links@) == before.links + all.take(i as int).filter(
                            is_checked(scope, follow),
                        ),
                    decreases found.len() - i,
                {
                    let link = found[i].clone();
                    proof {
                        assert(all.take(i + 1) =~= all.take(i as int).push(link@));
                        lemma_route_push(scope, follow, all.take(i as int), link@);
                    }
                    if self.follows(&link) {
                        proof {
                            assert(urls_view(pages@.push(link.link)) =~= urls_view(pages@).push(
                                link@.link,
                            ));
                        }
                        pages.push(link.link);
                    } else {
                        proof {
                            assert(links_view(links@.push(link)) =~= links_view(links@).push(
                                link@,
                            ));
                        }
                        links.push(link);
                    }
                    i += 1;
                }
                proof {
                    assert(all.take(i as int) =~= all);
                }
            },
            Err(message) => {
                let failure = PageFailure { page, reason: Reason::Other(message) };
                proof {
                    assert(results_view(results@.push(ScanResult::PageFailure(failure)))
                        =~= results_view(results@).push(ScanResultView::PageFailure(failure@)));
                }
                results.push(ScanResult::PageFailure(failure));
            },
        }
    }

    /// Takes pages from the end of the queue until one was never rendered:
    /// that page is handed out and from now on counts as rendered. Pages that
    /// were rendered before are dropped. Without such a page the queue ends
    /// up empty and the scanner has to wait.
    pub fn next_page(&mut self, pages: &mut Vec<Page>) -> (action: PageAction)
        requires
            old(self).wf(),
        ensures
            final(self).wf(),
            final(self).scope() == old(self).scope(),
            final(self).follow() == old(self).follow(),
            (final(self).rendered(), urls_view(final(pages)@), action@) == next_page_spec(
                old(self).rendered(),
                urls_view(old(pages)@),
            ),
    {
        let ghost rendered = self.rendered();
        let ghost waiting = pending(rendered, urls_view(pages@));
        loop
            invariant
                self.wf(),
                self.rendered() == rendered,
                rendered == old(self).rendered(),
                self.scope() == old(self).scope(),
                self.follow() == old(self).follow(),
                waiting == pending(rendered, urls_view(old(pages)@)),
                pending(rendered, urls_view(pages@)) == waiting,
            decreases pages.len(),
        {
            let ghost queued = urls_view(pages@);
            match pages.pop() {
                None => {
                    proof {
                        assert(urls_view(pages@) =~= waiting);
                    }
                    return PageAction::Sleep;
                },
                Some(page) => {
                    proof {
                        assert(queued.last() == page@);
                        assert(urls_view(pages@) =~= queued.drop_last());
                    }
                    if !contains_url(&self.seen, &page) {
                        let handed = page.clone();
                        proof {
                            assert(urls_view(self.seen@.push(handed)) =~= rendered.push(page@));
                            lemma_push_new(rendered, page@);
                        }
                        self.seen.push(handed);
                        return PageAction::Render(page);
                    }
                },
            }
        }
    }

    /// One turn of the scanner's loop.
    ///
    /// `event` says what happened since the last turn and `exit` is the
    /// shutdown flag as it stands now. The scanner records the outcome of a
    /// rendering, obeys the flag if this is not its first turn, and otherwise
    /// looks for the next page to render. What it returns is to be done
    /// before the next turn.
    pub fn start(
        &mut self,
        event: PageEvent,
        exit: bool,
        pages: &mut Vec<Page>,
        links: &mut Vec<Link>,
        results: &mut Vec<ScanResult>,
    ) -> (action: PageAction)
        requires
            old(self).wf(),
        ensures
            final(self).wf(),
            final(self).scope() == old(self).scope(),
            final(self).follow() == old(self).follow(),
            (final(self).state(final(pages)@, final(links)@, final(results)@), action@)
                == page_turn_spec(
                old(self).scope(),
                old(self).follow(),
                old(self).state(old(pages)@, old(links)@, old(results)@),
                event@,
                exit,
            ),
    {
        match event {
            PageEvent::Started => {},
            PageEvent::Idled => {
                if exit {
                    return PageAction::Exit;
                }
            },
            PageEvent::Rendered(page, outcome) => {
                self.record(page, outcome, pages, links, results);
                if exit {
                    return PageAction::Exit;
                }
            },
        }
        self.next_page(pages)
    }
}

/// What is left of the queue of pages is its beginning, and it is empty or
/// ends in a page that was never rendered; what was dropped was rendered.
pub proof fn lemma_pending(rendered: Seq<Seq<char>>, pages: Seq<Seq<char>>)
    ensures
        pending(rendered, pages).len() <= pages.len(),
        pending(rendered, pages) == pages.take(pending(rendered, pages).len() as int),
        pending(rendered, pages).len() > 0 ==> !rendered.contains(
            pending(rendered, pages).last(),
        ),
        forall|k: int|
            pending(rendered, pages).len() <= k < pages.len() ==> rendered.contains(
                #[trigger] pages[k],
            ),
    decreases pages.len(),
{
    if pages.len() > 0 && rendered.contains(pages.last()) {
        let shorter = pages.drop_last();
        lemma_pending(rendered, shorter);
        let left = pending(rendered, pages);
        assert(left =~= pages.take(left.len() as int));
        assert forall|k: int| left.len() <= k < pages.len() implies rendered.contains(
            #[trigger] pages[k],
        ) by {
            if k < shorter.len() {
                assert(shorter[k] == pages[k]);
            }
        }
    } else {
        assert(pages =~= pages.take(pages.len() as int));
    }
}

/// A turn of the scanner hands out a page only if it was never rendered, and
/// from then on the page counts as rendered. Nothing else changes the pages
/// that count as rendered.
pub proof fn lemma_turn_renders_new_page(
    scope: Set<Seq<char>>,
    follow: bool,
    state: CrawlState,
    event: PageEventView,
    exit: bool,
)
    requires
        state.rendered.no_duplicates(),
    ensures
        ({
            let (after, action) = page_turn_spec(scope, follow, state, event, exit);
            &&& after.rendered.no_duplicates()
            &&& match action {
                PageActionView::Render(page) => !state.rendered.contains(page) && after.rendered
                    == state.rendered.push(page),
                _ => after.rendered == state.rendered,
            }
        }),
{
    let recorded = match event {
        PageEventView::Rendered(page, outcome) => record_spec(scope, follow, state, page, outcome),
        _ => state,
    };
    assert(recorded.rendered == state.rendered);
    lemma_pending(recorded.rendered, recorded.pages);
    let (after, action) = page_turn_spec(scope, follow, state, event, exit);
    if let PageActionView::Render(page) = action {
        lemma_push_new(state.rendered, page);
    }
}

/// One turn of a run: what happened before it, and the shutdown flag at its time.
pub struct Turn {
    pub event: PageEventView,
    pub exit: bool,
}

/// The state after a run of turns, whatever the events were.
pub open spec fn run_spec(
    scope: Set<Seq<char>>,
    follow: bool,
    state: CrawlState,
    turns: Seq<Turn>,
) -> CrawlState
    decreases turns.len(),
{
    if turns.len() == 0 {
        state
    } else {
        page_turn_spec(
            scope,
            follow,
            run_spec(scope, follow, state, turns.drop_last()),
            turns.last().event,
            turns.last().exit,
        ).0
    }
}

/// The pages that the scanner handed to the renderer in a run of turns, in order.
pub open spec fn handed_out(
    scope: Set<Seq<char>>,
    follow: bool,
    state: CrawlState,
    turns: Seq<Turn>,
) -> Seq<Seq<char>>
    decreases turns.len(),
{
    if turns.len() == 0 {
        Seq::empty()
    } else {
        let before = handed_out(scope, follow, state, turns.drop_last());
        match page_turn_spec(
            scope,
            follow,
            run_spec(scope, follow, state, turns.drop_last()),
            turns.last().event,
            turns.last().exit,
        ).1 {
            PageActionView::Render(page) => before.push(page),
            _ => before,
        }
    }
}

/// In any run, whatever the events, no page is handed to the renderer more
/// than once, nor one that was rendered before the run: the pages rendered
/// before, followed by the pages handed out, hold no page twice.
pub proof fn lemma_rendered_at_most_once(
    scope: Set<Seq<char>>,
    follow: bool,
    state: CrawlState,
    turns: Seq<Turn>,
)
    requires
        state.rendered.no_duplicates(),
    ensures
        run_spec(scope, follow, state, turns).rendered == state.rendered + handed_out(
            scope,
            follow,
            state,
            turns,
        ),
        (state.rendered + handed_out(scope, follow, state, turns)).no_duplicates(),
        state.rendered.len() == 0 ==> handed_out(scope, follow, state, turns).no_duplicates(),
    decreases turns.len(),
{
    if turns.len() == 0 {
        assert(state.rendered + handed_out(scope, follow, state, turns) =~= state.rendered);
    } else {
        let earlier = turns.drop_last();
        lemma_rendered_at_most_once(scope, follow, state, earlier);
        let before = run_spec(scope, follow, state, earlier);
        lemma_turn_renders_new_page(scope, follow, before, turns.last().event, turns.last().exit);
        let out = handed_out(scope, follow, state, earlier);
        match page_turn_spec(scope, follow, before, turns.last().event, turns.last().exit).1 {
            PageActionView::Render(page) => {
                assert((state.rendered + out).push(page) =~= state.rendered + out.push(page));
            },
            _ => {},
        }
    }
    if state.rendered.len() == 0 {
        assert(state.rendered + handed_out(scope, follow, state, turns) =~= handed_out(
            scope,
            follow,
            state,
            turns,
        ));
    }
}

/// A filter that no element passes gives the empty sequence, and one that
/// every element passes gives the sequence back.
proof fn lemma_filter_uniform<T>(s: Seq<T>, pass: spec_fn(T) -> bool)
    ensures
        (forall|x: T| !#[trigger] pass(x)) ==> s.filter(pass) == Seq::<T>::empty(),
        (forall|x: T| #[trigger] pass(x)) ==> s.filter(pass) == s,
    decreases s.len(),
{
    if s.len() == 0 {
        broadcast use Seq::lemma_filter_len;

        assert(s.filter(pass) =~= s);
    } else {
        lemma_filter_uniform(s.drop_last(), pass);
        s.drop_last().lemma_filter_push(s.last(), pass);
        assert(s.drop_last().push(s.last()) =~= s);
    }
}

/// Every link of a page goes one way and one way only: it is crawled or it
/// is checked, so the two kinds together are as many as the links.
pub proof fn lemma_links_are_partitioned(scope: Set<Seq<char>>, follow: bool, links: Seq<LinkView>)
    ensures
        links.filter(is_followed(scope, follow)).len() + links.filter(
            is_checked(scope, follow),
        ).len() == links.len(),
        forall|link: LinkView| #[trigger]
            is_followed(scope, follow)(link) != is_checked(scope, follow)(link),
    decreases links.len(),
{
    if links.len() == 0 {
        broadcast use Seq::lemma_filter_len;

    } else {
        let rest = links.drop_last();
        lemma_links_are_partitioned(scope, follow, rest);
        rest.lemma_filter_push(links.last(), is_followed(scope, follow));
        rest.lemma_filter_push(links.last(), is_checked(scope, follow));
        assert(rest.push(links.last()) =~= links);
    }
}

/// Where links are not followed, recording a rendered page leaves the queue
/// of pages as it was and queues every link of the page for checking.
pub proof fn lemma_unfollowed_links_are_checked(
    scope: Set<Seq<char>>,
    state: CrawlState,
    page: Seq<char>,
    rendering: RenderingView,
)
    ensures
        record_spec(scope, false, state, page, Ok(rendering)).pages == state.pages,
        record_spec(scope, false, state, page, Ok(rendering)).links == state.links + page_links(
            page,
            rendering.hrefs,
            rendering.srcs,
        ),
{
    let found = page_links(page, rendering.hrefs, rendering.srcs);
    lemma_filter_uniform(found, is_followed(scope, false));
    lemma_filter_uniform(found, is_checked(scope, false));
    assert(targets_of(Seq::<LinkView>::empty()) =~= Seq::<Seq<char>>::empty());
    assert(state.pages + Seq::<Seq<char>>::empty() =~= state.pages);
}

/// Where links are not followed, the queue of pages never grows: after any
/// run, whatever the events, it is a beginning of what it was at the start.
pub proof fn lemma_unfollowed_pages_never_grow(
    scope: Set<Seq<char>>,
    state: CrawlState,
    turns: Seq<Turn>,
)
    ensures
        run_spec(scope, false, state, turns).pages.len() <= state.pages.len(),
        run_spec(scope, false, state, turns).pages == state.pages.take(
            run_spec(scope, false, state, turns).pages.len() as int,
        ),
    decreases turns.len(),
{
    if turns.len() == 0 {
        assert(state.pages =~= state.pages.take(state.pages.len() as int));
    } else {
        lemma_unfollowed_pages_never_grow(scope, state, turns.drop_last());
        let before = run_spec(scope, false, state, turns.drop_last());
        let recorded = match turns.last().event {
            PageEventView::Rendered(page, Ok(rendering)) => {
                lemma_unfollowed_links_are_checked(scope, before, page, rendering);
                record_spec(scope, false, before, page, Ok(rendering))
            },
            PageEventView::Rendered(page, Err(message)) => record_spec(
                scope,
                false,
                before,
                page,
                Err(message),
            ),
            _ => before,
        };
        assert(recorded.pages == before.pages);
        lemma_pending(recorded.rendered, recorded.pages);
        let after = run_spec(scope, false, state, turns);
        assert(after.pages =~= state.pages.take(after.pages.len() as int));
    }
}

/// Where every page that is rendered lies in a finite set of pages, no more
/// pages are rendered than the set holds.
pub proof fn lemma_renderings_bounded(rendered: Seq<Seq<char>>, universe: Set<Seq<char>>)
    requires
        rendered.no_duplicates(),
        universe.finite(),
        forall|i: int| 0 <= i < rendered.len() ==> universe.contains(#[trigger] rendered[i]),
    ensures
        rendered.len() <= universe.len(),
{
    rendered.unique_seq_to_set();
    assert(rendered.to_set().subset_of(universe)) by {
        assert forall|page: Seq<char>| rendered.to_set().contains(page) implies universe.contains(
            page,
        ) by {
            let i = rendered.index_of(page);
            assert(rendered[i] == page);
        }
    }
    vstd::set_lib::lemma_len_subset(rendered.to_set(), universe);
}

/// In any run in which every page handed to the renderer lies in a finite
/// set of pages, no more pages are handed out than the set holds: a finite
/// scope is crawled in finitely many renderings.
pub proof fn lemma_run_renderings_bounded(
    scope: Set<Seq<char>>,
    follow: bool,
    state: CrawlState,
    turns: Seq<Turn>,
    universe: Set<Seq<char>>,
)
    requires
        state.rendered.len() == 0,
        universe.finite(),
        forall|i: int|
            0 <= i < handed_out(scope, follow, state, turns).len() ==> universe.contains(
                #[trigger] handed_out(scope, follow, state, turns)[i],
            ),
    ensures
        handed_out(scope, follow, state, turns).len() <= universe.len(),
{
    lemma_rendered_at_most_once(scope, follow, state, turns);
    lemma_renderings_bounded(handed_out(scope, follow, state, turns), universe);
}

/// A turn of the page scanner only adds to the results: a turn that records
/// the outcome of a rendering adds exactly one result at the end, any other
/// turn leaves the results as they were. And the scanner pauses only when it
/// has emptied the queue of pages.
pub proof fn lemma_turn_results(
    scope: Set<Seq<char>>,
    follow: bool,
    state: CrawlState,
    event: PageEventView,
    exit: bool,
)
    ensures
        ({
            let (after, action) = page_turn_spec(scope, follow, state, event, exit);
            &&& after.results.len() == state.results.len() + (if event is Rendered {
                1nat
            } else {
                0nat
            })
            &&& after.results.take(state.results.len() as int) == state.results
            &&& action is Sleep ==> after.pages.len() == 0
        }),
{
    let (after, action) = page_turn_spec(scope, follow, state, event, exit);
    assert(after.results.take(state.results.len() as int) =~= state.results);
}

} // verus!
