//! What the workers report, and how the reports of one run are drawn together.

use crate::page_scanner::{PageFailure, PageFailureView};
use crate::unique::{distinct, lemma_distinct_contains, lemma_distinct_no_duplicates, lemma_distinct_push};
use crate::url_utils::Url;
use vstd::prelude::*;
use vstd::std_specs::cmp::PartialEqSpecImpl;

verus! {

/// Why a page or a link did not succeed.
#[derive(Debug)]
pub enum Reason {
    /// The server answered with this HTTP status.
    Code(u16),
    /// The request or the rendering failed; holds the message of the failure.
    Other(String),
}

/// A `Reason` as contracts speak of it.
pub enum ReasonView {
    Code(u16),
    Other(Seq<char>),
}

impl View for Reason {
    type V = ReasonView;

    open spec fn view(&self) -> ReasonView {
        match self {
            Reason::Code(status) => ReasonView::Code(*status),
            Reason::Other(message) => ReasonView::Other(message@),
        }
    }
}

impl Clone for Reason {
    fn clone(&self) -> (copy: Self)
        ensures
            copy@ == self@,
    {
        match self {
            Reason::Code(status) => Reason::Code(*status),
            Reason::Other(message) => Reason::Other(message.clone()),
        }
    }
}

impl PartialEq for Reason {
    /// Two reasons are equal when they are of the same kind and hold the same
    /// status, or the same message.
    fn eq(&self, other: &Self) -> (equal: bool) {
        match (self, other) {
            (Reason::Code(a), Reason::Code(b)) => *a == *b,
            (Reason::Other(a), Reason::Other(b)) => *a == *b,
            _ => false,
        }
    }
}

impl PartialEqSpecImpl for Reason {
    open spec fn obeys_eq_spec() -> bool {
        true
    }

    open spec fn eq_spec(&self, other: &Self) -> bool {
        self@ == other@
    }
}

impl Eq for Reason {

}

/// A reference from one page to a URL.
#[derive(Debug)]
pub struct Link {
    /// The page on which the reference was found.
    pub source: Url,
    /// The URL that the reference points to.
    pub link: Url,
}

/// A `Link` as contracts speak of it.
pub struct LinkView {
    pub source: Seq<char>,
    pub link: Seq<char>,
}

impl View for Link {
    type V = LinkView;

    open spec fn view(&self) -> LinkView {
        LinkView { source: self.source@, link: self.link@ }
    }
}

impl Clone for Link {
    fn clone(&self) -> (copy: Self)
        ensures
            copy@ == self@,
    {
        Link { source: self.source.clone(), link: self.link.clone() }
    }
}

/// A link whose target did not answer with success, and why.
#[derive(Debug)]
pub struct LinkFailure {
    pub link: Link,
    pub reason: Reason,
}

/// A `LinkFailure` as contracts speak of it.
pub struct LinkFailureView {
    pub link: LinkView,
    pub reason: ReasonView,
}

impl View for LinkFailure {
    type V = LinkFailureView;

    open spec fn view(&self) -> LinkFailureView {
        LinkFailureView { link: self.link@, reason: self.reason@ }
    }
}

impl Clone for LinkFailure {
    fn clone(&self) -> (copy: Self)
        ensures
            copy@ == self@,
    {
        LinkFailure { link: self.link.clone(), reason: self.reason.clone() }
    }
}

/// What a worker reports of one page or one link.
#[derive(Debug)]
pub enum ScanResult {
    LinkFailure(LinkFailure),
    PageFailure(PageFailure),
    PageSuccess(Url),
    LinkSuccess(Link),
}

/// A `ScanResult` as contracts speak of it.
pub enum ScanResultView {
    LinkFailure(LinkFailureView),
    PageFailure(PageFailureView),
    PageSuccess(Seq<char>),
    LinkSuccess(LinkView),
}

impl View for ScanResult {
    type V = ScanResultView;

    open spec fn view(&self) -> ScanResultView {
        match self {
            ScanResult::LinkFailure(failure) => ScanResultView::LinkFailure(failure@),
            ScanResult::PageFailure(failure) => ScanResultView::PageFailure(failure@),
            ScanResult::PageSuccess(page) => ScanResultView::PageSuccess(page@),
            ScanResult::LinkSuccess(link) => ScanResultView::LinkSuccess(link@),
        }
    }
}

/// The views of a sequence of results, one by one.
pub open spec fn results_view(results: Seq<ScanResult>) -> Seq<ScanResultView> {
    results.map_values(|result: ScanResult| result@)
}

/// The views of a sequence of link failures, one by one.
pub open spec fn link_failures_view(failures: Seq<LinkFailure>) -> Seq<LinkFailureView> {
    failures.map_values(|failure: LinkFailure| failure@)
}

/// The views of a sequence of page failures, one by one.
pub open spec fn page_failures_view(failures: Seq<PageFailure>) -> Seq<PageFailureView> {
    failures.map_values(|failure: PageFailure| failure@)
}

/// The number of pages reported as rendered.
pub open spec fn count_ok_pages(results: Seq<ScanResultView>) -> nat {
    results.filter(|result: ScanResultView| result is PageSuccess).len()
}

/// The number of links reported as live.
pub open spec fn count_ok_links(results: Seq<ScanResultView>) -> nat {
    results.filter(|result: ScanResultView| result is LinkSuccess).len()
}

/// The link failures among the results, in their order.
pub open spec fn link_failures_in(results: Seq<ScanResultView>) -> Seq<LinkFailureView> {
    results.filter_map(
        |result: ScanResultView|
            match result {
                ScanResultView::LinkFailure(failure) => Some(failure),
                _ => None,
            },
    )
}

/// The page failures among the results, in their order.
pub open spec fn page_failures_in(results: Seq<ScanResultView>) -> Seq<PageFailureView> {
    results.filter_map(
        |result: ScanResultView|
            match result {
                ScanResultView::PageFailure(failure) => Some(failure),
                _ => None,
            },
    )
}

/// The outcome of one run: how many pages and links were fine, and which were not.
#[derive(Debug)]
pub struct Report {
    pub ok_pages: u32,
    pub ok_links: u32,
    pub link_failures: Vec<LinkFailure>,
    pub page_failures: Vec<PageFailure>,
}

/// A `Report` as contracts speak of it.
pub struct ReportView {
    pub ok_pages: nat,
    pub ok_links: nat,
    pub link_failures: Seq<LinkFailureView>,
    pub page_failures: Seq<PageFailureView>,
}

impl View for Report {
    type V = ReportView;

    open spec fn view(&self) -> ReportView {
        ReportView {
            ok_pages: self.ok_pages as nat,
            ok_links: self.ok_links as nat,
            link_failures: link_failures_view(self.link_failures@),
            page_failures: page_failures_view(self.page_failures@),
        }
    }
}

/// The report on a sequence of results: the successes counted, the failures
/// listed in the order of the sequence.
pub open spec fn report_of(results: Seq<ScanResultView>) -> ReportView {
    ReportView {
        ok_pages: count_ok_pages(results),
        ok_links: count_ok_links(results),
        link_failures: link_failures_in(results),
        page_failures: page_failures_in(results),
    }
}

/// The report on a sequence of results to which one more is added.
proof fn lemma_report_of_push(results: Seq<ScanResultView>, result: ScanResultView)
    ensures
        count_ok_pages(results.push(result)) == count_ok_pages(results) + (if result
            is PageSuccess {
            1nat
        } else {
            0nat
        }),
        count_ok_links(results.push(result)) == count_ok_links(results) + (if result
            is LinkSuccess {
            1nat
        } else {
            0nat
        }),
        link_failures_in(results.push(result)) == (match result {
            ScanResultView::LinkFailure(failure) => link_failures_in(results).push(failure),
            _ => link_failures_in(results),
        }),
        page_failures_in(results.push(result)) == (match result {
            ScanResultView::PageFailure(failure) => page_failures_in(results).push(failure),
            _ => page_failures_in(results),
        }),
{
    broadcast use Seq::lemma_filter_len_push;

    assert(results.push(result).drop_last() =~= results);
}

/// No more successes are counted than there are results.
proof fn lemma_counts_bounded(results: Seq<ScanResultView>)
    ensures
        count_ok_pages(results) <= results.len(),
        count_ok_links(results) <= results.len(),
{
    broadcast use Seq::lemma_filter_len;

}

/// Empties the queue of results and draws them together into the report of
/// the run. The results are taken from the end of the queue, so the failures
/// stand in the report in the reverse of the order in which they were queued.
pub fn collect_results(results: &mut Vec<ScanResult>) -> (report: Report)
    requires
        old(results).len() <= u32::MAX,
    ensures
        final(results)@.len() == 0,
        report@ == report_of(results_view(old(results)@).reverse()),
{
    let ghost all = results_view(results@);
    let ghost mut drained: Seq<ScanResultView> = Seq::empty();
    let mut ok_pages: u32 = 0;
    let mut ok_links: u32 = 0;
    let mut link_failures: Vec<LinkFailure> = Vec::new();
    let mut page_failures: Vec<PageFailure> = Vec::new();
    proof {
        assert(link_failures_view(link_failures@) =~= link_failures_in(drained));
        assert(page_failures_view(page_failures@) =~= page_failures_in(drained));
        lemma_counts_bounded(drained);
    }
    loop
        invariant
            all.len() <= u32::MAX,
            all.len() == results.len() + drained.len(),
            forall|i: int| 0 <= i < results.len() ==> all[i] == (#[trigger] results@[i])@,
            forall|i: int|
                0 <= i < drained.len() ==> #[trigger] drained[i] == all[all.len() - 1 - i],
            ok_pages == count_ok_pages(drained),
            ok_links == count_ok_links(drained),
            link_failures_view(link_failures@) == link_failures_in(drained),
            page_failures_view(page_failures@) == page_failures_in(drained),
        ensures
            results.len() == 0,
        decreases results.len(),
    {
        let next = results.pop();
        match next {
            None => {
                break ;
            },
            Some(result) => {
                proof {
                    lemma_report_of_push(drained, result@);
                    drained = drained.push(result@);
                    lemma_counts_bounded(drained);
                }
                match result {
                    ScanResult::LinkSuccess(_) => {
                        ok_links += 1;
                    },
                    ScanResult::PageSuccess(_) => {
                        ok_pages += 1;
                    },
                    ScanResult::LinkFailure(failure) => {
                        proof {
                            assert(link_failures_view(link_failures@.push(failure))
                                =~= link_failures_view(link_failures@).push(failure@));
                        }
                        link_failures.push(failure);
                    },
                    ScanResult::PageFailure(failure) => {
                        proof {
                            assert(page_failures_view(page_failures@.push(failure))
                                =~= page_failures_view(page_failures@).push(failure@));
                        }
                        page_failures.push(failure);
                    },
                }
            },
        }
    }
    proof {
        assert(drained =~= all.reverse());
    }
    Report { ok_pages, ok_links, link_failures, page_failures }
}

/// The link failures that share one reason.
#[derive(Debug)]
pub struct FailureGroup {
    pub reason: Reason,
    pub failures: Vec<LinkFailure>,
}

/// A `FailureGroup` as contracts speak of it.
pub struct FailureGroupView {
    pub reason: ReasonView,
    pub failures: Seq<LinkFailureView>,
}

impl View for FailureGroup {
    type V = FailureGroupView;

    open spec fn view(&self) -> FailureGroupView {
        FailureGroupView {
            reason: self.reason@,
            failures: link_failures_view(self.failures@),
        }
    }
}

/// The views of a sequence of groups, one by one.
pub open spec fn groups_view(groups: Seq<FailureGroup>) -> Seq<FailureGroupView> {
    groups.map_values(|group: FailureGroup| group@)
}

/// The reasons of a sequence of failures, one by one.
pub open spec fn reasons_in(failures: Seq<LinkFailureView>) -> Seq<ReasonView> {
    failures.map_values(|failure: LinkFailureView| failure.reason)
}

/// The test that a failure has the given reason.
pub open spec fn has_reason(reason: ReasonView) -> spec_fn(LinkFailureView) -> bool {
    |failure: LinkFailureView| failure.reason == reason
}

/// The failures that have the given reason, in their order.
pub open spec fn with_reason(failures: Seq<LinkFailureView>, reason: ReasonView) -> Seq<
    LinkFailureView,
> {
    failures.filter(has_reason(reason))
}

/// The failures grouped by reason: one group for each reason that occurs, in
/// the order in which the reasons first occur, and in each group the failures
/// with that reason, in their order.
pub open spec fn grouped(failures: Seq<LinkFailureView>) -> Seq<FailureGroupView> {
    distinct(reasons_in(failures)).map_values(
        |reason: ReasonView| FailureGroupView { reason, failures: with_reason(failures, reason) },
    )
}

/// No failure has a reason that does not occur among the reasons.
proof fn lemma_with_reason_absent(failures: Seq<LinkFailureView>, reason: ReasonView)
    requires
        !reasons_in(failures).contains(reason),
    ensures
        with_reason(failures, reason) == Seq::<LinkFailureView>::empty(),
    decreases failures.len(),
{
    if failures.len() == 0 {
        broadcast use Seq::lemma_filter_len;

        assert(with_reason(failures, reason) =~= Seq::<LinkFailureView>::empty());
    } else {
        let rest = failures.drop_last();
        let last = failures.last();
        assert(failures =~= rest.push(last));
        assert(reasons_in(failures)[failures.len() - 1] == last.reason);
        assert forall|i: int| 0 <= i < rest.len() implies reasons_in(rest)[i] != reason by {
            assert(reasons_in(failures)[i] == reasons_in(rest)[i]);
        }
        lemma_with_reason_absent(rest, reason);
        rest.lemma_filter_push(last, has_reason(reason));
    }
}

/// The groups of a sequence of failures to which one more is added: the
/// failure joins the group of its reason, or founds a new group at the end.
proof fn lemma_grouped_push(failures: Seq<LinkFailureView>, failure: LinkFailureView)
    ensures
        reasons_in(failures.push(failure)) == reasons_in(failures).push(failure.reason),
        distinct(reasons_in(failures.push(failure))) == if distinct(reasons_in(failures)).contains(
            failure.reason,
        ) {
            distinct(reasons_in(failures))
        } else {
            distinct(reasons_in(failures)).push(failure.reason)
        },
        forall|reason: ReasonView| #[trigger]
            with_reason(failures.push(failure), reason) == if failure.reason == reason {
                with_reason(failures, reason).push(failure)
            } else {
                with_reason(failures, reason)
            },
        !distinct(reasons_in(failures)).contains(failure.reason) ==> with_reason(
            failures,
            failure.reason,
        ) == Seq::<LinkFailureView>::empty(),
        distinct(reasons_in(failures)).no_duplicates(),
{
    assert(reasons_in(failures.push(failure)) =~= reasons_in(failures).push(failure.reason));
    lemma_distinct_push(reasons_in(failures), failure.reason);
    lemma_distinct_no_duplicates(reasons_in(failures));
    lemma_distinct_contains(reasons_in(failures), failure.reason);
    if !distinct(reasons_in(failures)).contains(failure.reason) {
        lemma_with_reason_absent(failures, failure.reason);
    }
    assert forall|reason: ReasonView| #[trigger]
        with_reason(failures.push(failure), reason) == if failure.reason == reason {
            with_reason(failures, reason).push(failure)
        } else {
            with_reason(failures, reason)
        } by {
        failures.lemma_filter_push(failure, has_reason(reason));
    }
}

/// Groups link failures by their reason: under each reason that occurs, in
/// order of first occurrence, the links that failed with it.
pub fn group_by_reason(link_failures: &Vec<LinkFailure>) -> (groups: Vec<FailureGroup>)
    ensures
        groups_view(groups@) == grouped(link_failures_view(link_failures@)),
{
    let ghost all = link_failures_view(link_failures@);
    let mut groups: Vec<FailureGroup> = Vec::new();
    let mut i: usize = 0;
    while i < link_failures.len()
        invariant
            i <= link_failures.len(),
            all == link_failures_view(link_failures@),
            groups.len() == distinct(reasons_in(all.take(i as int))).len(),
            forall|k: int|
                0 <= k < groups.len() ==> (#[trigger] groups@[k])@ == (FailureGroupView {
                    reason: distinct(reasons_in(all.take(i as int)))[k],
                    failures: with_reason(
                        all.take(i as int),
                        distinct(reasons_in(all.take(i as int)))[k],
                    ),
                }),
        decreases link_failures.len() - i,
    {
        let failure = link_failures[i].clone();
        let ghost before = all.take(i as int);
        let ghost reasons = distinct(reasons_in(before));
        proof {
            assert(all.take(i + 1) =~= before.push(failure@));
            lemma_grouped_push(before, failure@);
        }
        let mut j: usize = 0;
        while j < groups.len() && !(groups[j].reason == failure.reason)
            invariant
                j <= groups.len(),
                forall|k: int| 0 <= k < j ==> (#[trigger] groups@[k])@.reason != failure@.reason,
            decreases groups.len() - j,
        {
            j += 1;
        }
        if j < groups.len() {
            let mut group = groups.remove(j);
            proof {
                assert(reasons[j as int] == failure@.reason);
                assert(link_failures_view(group.failures@.push(failure)) =~= link_failures_view(
                    group.failures@,
                ).push(failure@));
            }
            group.failures.push(failure);
            groups.insert(j, group);
        } else {
            proof {
                assert(!reasons.contains(failure@.reason)) by {
                    if reasons.contains(failure@.reason) {
                        let k = reasons.index_of(failure@.reason);
                        assert(groups@[k]@.reason == failure@.reason);
                    }
                }
            }
            let reason = failure.reason.clone();
            let mut failures: Vec<LinkFailure> = Vec::new();
            failures.push(failure);
            proof {
                assert(link_failures_view(failures@) =~= seq![failure@]);
                assert(Seq::<LinkFailureView>::empty().push(failure@) =~= seq![failure@]);
            }
            groups.push(FailureGroup { reason, failures });
        }
        i += 1;
    }
    proof {
        assert(all.take(i as int) =~= all);
        assert(groups_view(groups@) =~= grouped(all));
    }
    groups
}

} // verus!
