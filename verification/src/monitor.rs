//! The monitor: it watches the lengths of the three queues, says what to
//! show of the progress, and is the one to find that the run is over.
//!
//! What the monitor sees is the state of the queues at one moment. A worker
//! that has taken an item and not yet queued what follows from it is not
//! seen: the monitor may find the run over while that item is still at work.

use vstd::prelude::*;

verus! {

/// The run is over when no page and no link is pending and at least one
/// result has come in.
pub open spec fn quiescent(pages: nat, links: nat, results: nat) -> bool {
    pages == 0 && links == 0 && results != 0
}

/// The larger of two numbers.
pub open spec fn larger(a: nat, b: nat) -> nat {
    if a >= b {
        a
    } else {
        b
    }
}

/// What one look at the queues gives: the lengths and positions of the three
/// progress bars, and whether the run is over.
#[derive(Debug, Clone, Copy, PartialEq, Eq)]
pub struct Progress {
    /// The length of each of the three bars: all that is pending or done.
    pub total: u64,
    /// The position of the bar of pending pages.
    pub pages_todo: u64,
    /// The position of the bar of pending links.
    pub links_todo: u64,
    /// The position of the bar of results: the most results seen so far.
    pub results_done: u64,
    /// Whether the run is over.
    pub finished: bool,
}

/// The monitor. It remembers the largest number of results that it has seen.
#[derive(Debug)]
pub struct Monitor {
    results_max: usize,
}

impl Monitor {
    /// The largest number of results seen so far.
    pub closed spec fn high_water(&self) -> nat {
        self.results_max as nat
    }

    /// A monitor that has seen nothing yet.
    pub fn new() -> (monitor: Self)
        ensures
            monitor.high_water() == 0,
    {
        Monitor { results_max: 0 }
    }

    /// One look at the queues, given their three lengths.
    ///
    /// Each bar is as long as all the work that is pending or done. The bar
    /// of results never moves back. The run is over exactly when the queues
    /// are quiescent.
    pub fn start(&mut self, pages: usize, links: usize, results: usize) -> (progress: Progress)
        requires
            pages + links + results <= usize::MAX,
        ensures
            final(self).high_water() == larger(old(self).high_water(), results as nat),
            progress.total == pages + links + results,
            progress.pages_todo == pages,
            progress.links_todo == links,
            progress.results_done == final(self).high_water(),
            progress.finished == quiescent(pages as nat, links as nat, results as nat),
    {
        let total = pages + links + results;
        if results > self.results_max {
            self.results_max = results;
        }
        Progress {
            total: total as u64,
            pages_todo: pages as u64,
            links_todo: links as u64,
            results_done: self.results_max as u64,
            finished: pages == 0 && links == 0 && results != 0,
        }
    }
}

} // verus!
