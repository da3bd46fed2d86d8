//! The link scanners: the workers that check, one link at a time, whether
//! the target of a link answers.

use crate::page_scanner::links_view;
use crate::results::{
    results_view, Link, LinkFailure, LinkFailureView, LinkView, Reason, ReasonView, ScanResult,
    ScanResultView,
};
use vstd::prelude::*;

verus! {

/// Whether an HTTP status says that the target is there: any status of the
/// 2xx or of the 3xx class.
pub open spec fn status_is_success(status: u16) -> bool {
    200 <= status < 400
}

/// The view of the answer to a request: the status, or the message of the failure.
pub open spec fn response_view(response: Result<u16, String>) -> Result<u16, Seq<char>> {
    match response {
        Ok(status) => Ok(status),
        Err(message) => Err(message@),
    }
}

/// What is reported of a link, given the answer to the request for its target.
///
/// A status of success makes a `LinkSuccess`. Any other status makes a
/// `LinkFailure` with that status as its reason. A request that failed makes
/// a `LinkFailure` with the message of the failure as its reason.
pub open spec fn classify(link: LinkView, response: Result<u16, Seq<char>>) -> ScanResultView {
    match response {
        Ok(status) => if status_is_success(status) {
            ScanResultView::LinkSuccess(link)
        } else {
            ScanResultView::LinkFailure(LinkFailureView { link, reason: ReasonView::Code(status) })
        },
        Err(message) => ScanResultView::LinkFailure(
            LinkFailureView { link, reason: ReasonView::Other(message) },
        ),
    }
}

/// What happened since the scanner's last turn.
#[derive(Debug)]
pub enum LinkEvent {
    /// Nothing yet: this is the scanner's first turn.
    Started,
    /// The scanner found no link to check and has waited.
    Idled,
    /// The request for the target of the link that the last turn handed out
    /// is done: it gives the status of the answer, or the message of its failure.
    Checked(Link, Result<u16, String>),
}

/// A `LinkEvent` as contracts speak of it.
pub enum LinkEventView {
    Started,
    Idled,
    Checked(LinkView, Result<u16, Seq<char>>),
}

impl View for LinkEvent {
    type V = LinkEventView;

    open spec fn view(&self) -> LinkEventView {
        match self {
            LinkEvent::Started => LinkEventView::Started,
            LinkEvent::Idled => LinkEventView::Idled,
            LinkEvent::Checked(link, response) => LinkEventView::Checked(
                link@,
                response_view(*response),
            ),
        }
    }
}

/// What the scanner asks for at the end of a turn.
#[derive(Debug)]
pub enum LinkAction {
    /// Request the target of this link, and come back with the answer.
    Check(Link),
    /// No link is pending: wait a moment, and come back.
    Sleep,
    /// The run is over.
    Exit,
}

/// A `LinkAction` as contracts speak of it.
pub enum LinkActionView {
    Check(LinkView),
    Sleep,
    Exit,
}

impl View for LinkAction {
    type V = LinkActionView;

    open spec fn view(&self) -> LinkActionView {
        match self {
            LinkAction::Check(link) => LinkActionView::Check(link@),
            LinkAction::Sleep => LinkActionView::Sleep,
            LinkAction::Exit => LinkActionView::Exit,
        }
    }
}

/// The two queues that a link scanner works on.
pub struct CheckState {
    pub links: Seq<LinkView>,
    pub results: Seq<ScanResultView>,
}

/// The state after the scanner has looked for a link to check, and what it
/// asks for: the last link of the queue, or a pause.
pub open spec fn next_link_spec(state: CheckState) -> (CheckState, LinkActionView) {
    if state.links.len() == 0 {
        (state, LinkActionView::Sleep)
    } else {
        (
            CheckState { links: state.links.drop_last(), results: state.results },
            LinkActionView::Check(state.links.last()),
        )
    }
}

/// One turn of a link scanner: the state after it, and what the scanner asks for.
///
/// The answer to a request is reported first. After anything but the start
/// the shutdown flag is then obeyed. Otherwise the scanner takes the next
/// link to check.
pub open spec fn link_turn_spec(state: CheckState, event: LinkEventView, exit: bool) -> (
    CheckState,
    LinkActionView,
) {
    match event {
        LinkEventView::Started => next_link_spec(state),
        LinkEventView::Idled => if exit {
            (state, LinkActionView::Exit)
        } else {
            next_link_spec(state)
        },
        LinkEventView::Checked(link, response) => {
            let reported = CheckState {
                links: state.links,
                results: state.results.push(classify(link, response)),
            };
            if exit {
                (reported, LinkActionView::Exit)
            } else {
                next_link_spec(reported)
            }
        },
    }
}

/// The state of the two queues.
pub open spec fn check_state(links: Seq<Link>, results: Seq<ScanResult>) -> CheckState {
    CheckState { links: links_view(links), results: results_view(results) }
}

/// Classifies an HTTP status.
pub fn is_success(status: u16) -> (live: bool)
    ensures
        live == status_is_success(status),
{
    200 <= status && status < 400
}

/// A link scanner. It keeps nothing between its turns.
#[derive(Debug)]
pub struct LinkScanner {}

impl LinkScanner {
    /// A new link scanner.
    pub fn new() -> (scanner: Self) {
        LinkScanner {  }
    }

    /// Reports on a link, given the answer to the request for its target:
    /// exactly one result is added to the results.
    pub fn check_link(&mut self, l: Link, response: Result<u16, String>, results: &mut Vec<ScanResult>)
        ensures
            results_view(final(results)@) == results_view(old(results)@).push(
                classify(l@, response_view(response)),
            ),
    {
        let result = match response {
            Ok(status) => {
                if is_success(status) {
                    ScanResult::LinkSuccess(l)
                } else {
                    ScanResult::LinkFailure(LinkFailure { link: l, reason: Reason::Code(status) })
                }
            },
            Err(message) => ScanResult::LinkFailure(
                LinkFailure { link: l, reason: Reason::Other(message) },
            ),
        };
        proof {
            assert(results_view(results@.push(result)) =~= results_view(results@).push(result@));
        }
        results.push(result);
    }

    /// One turn of the scanner's loop.
    ///
    /// `event` says what happened since the last turn and `exit` is the
    /// shutdown flag as it stands now. The scanner reports on the link that
    /// was checked, obeys the flag if this is not its first turn, and
    /// otherwise takes the next link from the end of the queue. What it
    /// returns is to be done before the next turn.
    pub fn start(
        &mut self,
        event: LinkEvent,
        exit: bool,
        links: &mut Vec<Link>,
        results: &mut Vec<ScanResult>,
    ) -> (action: LinkAction)
        ensures
            (check_state(final(links)@, final(results)@), action@) == link_turn_spec(
                check_state(old(links)@, old(results)@),
                event@,
                exit,
            ),
    {
        match event {
            LinkEvent::Started => {},
            LinkEvent::Idled => {
                if exit {
                    return LinkAction::Exit;
                }
            },
            LinkEvent::Checked(link, response) => {
                self.check_link(link, response, results);
                if exit {
                    return LinkAction::Exit;
                }
            },
        }
        let ghost queued = links_view(links@);
        match links.pop() {
            Some(link) => {
                proof {
                    assert(links_view(links@) =~= queued.drop_last());
                    assert(queued.last() == link@);
                }
                LinkAction::Check(link)
            },
            None => LinkAction::Sleep,
        }
    }
}

/// A turn of a link scanner only adds to the results: a turn that reports on
/// a checked link adds exactly one result at the end, any other turn leaves
/// the results as they were. A turn takes at most one link from the queue,
/// the one that it hands out, and the scanner pauses only when the queue of
/// links is empty.
pub proof fn lemma_link_turn(state: CheckState, event: LinkEventView, exit: bool)
    ensures
        ({
            let (after, action) = link_turn_spec(state, event, exit);
            &&& after.results.len() == state.results.len() + (if event is Checked {
                1nat
            } else {
                0nat
            })
            &&& after.results.take(state.results.len() as int) == state.results
            &&& action matches LinkActionView::Check(link) ==> state.links == after.links.push(link)
            &&& action !is Check ==> after.links == state.links
            &&& action is Sleep ==> after.links.len() == 0
        }),
{
    let (after, action) = link_turn_spec(state, event, exit);
    assert(after.results.take(state.results.len() as int) =~= state.results);
    if let LinkActionView::Check(link) = action {
        assert(state.links =~= after.links.push(link));
    }
}

} // verus!
