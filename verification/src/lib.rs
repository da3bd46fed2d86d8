//! The core of a broken-link finder: a crawl that starts at one URL, renders
//! the pages within its scope, checks every other link for an answer, and
//! reports what is broken.
//!
//! The library decides; it does no input or output. The workers of a run are
//! state machines: a turn takes what happened since the last turn and the
//! queues of pending work, and gives what is to be done next (render a page,
//! request a URL, wait, stop). Whoever runs them does that and comes back.
//!
//! - `url_utils`: URLs and their canonical form.
//! - `page_scanner`: the worker that renders pages and sorts their links.
//! - `link_scanner`: the workers that check links.
//! - `monitor`: progress, and the end of the run.
//! - `quiescence`: that a crawl of a finite site comes to its end.
//! - `results`: what the workers report, and the report of a run.
//! - `present`: the report as the lines to print.
//! - `unique`: sequences without repetition.
//!
//! Two helpers of sibling tools stand beside them: `vm`, a small stack
//! machine compiled to Brainfuck, and `press`, the length field of a
//! compressed file.

pub mod link_scanner;
pub mod monitor;
pub mod page_scanner;
pub mod present;
pub mod quiescence;
pub mod press;
pub mod results;
pub mod unique;
pub mod url_utils;
pub mod vm;
