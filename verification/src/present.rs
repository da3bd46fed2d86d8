//! The report of a run as text: the lines that are printed at its end.

use crate::page_scanner::PageFailureView;
use crate::results::{
    group_by_reason, grouped, groups_view, link_failures_view, page_failures_view, FailureGroup,
    FailureGroupView, LinkFailureView, Reason, ReasonView, Report, ReportView,
};
use crate::url_utils::strings_view;
use vstd::prelude::*;

verus! {

/// The character of a decimal digit.
pub open spec fn digit(d: nat) -> char {
    if d == 0 {
        '0'
    } else if d == 1 {
        '1'
    } else if d == 2 {
        '2'
    } else if d == 3 {
        '3'
    } else if d == 4 {
        '4'
    } else if d == 5 {
        '5'
    } else if d == 6 {
        '6'
    } else if d == 7 {
        '7'
    } else if d == 8 {
        '8'
    } else {
        '9'
    }
}

/// A number in decimal notation, without leading zeros.
pub open spec fn decimal(n: nat) -> Seq<char>
    decreases n,
{
    if n < 10 {
        seq![digit(n)]
    } else {
        decimal(n / 10).push(digit(n % 10))
    }
}

/// The text of one decimal digit.
fn digit_str(d: u64) -> (text: &'static str)
    requires
        d < 10,
    ensures
        text@ == seq![digit(d as nat)],
{
    proof {
        reveal_strlit("0");
        reveal_strlit("1");
        reveal_strlit("2");
        reveal_strlit("3");
        reveal_strlit("4");
        reveal_strlit("5");
        reveal_strlit("6");
        reveal_strlit("7");
        reveal_strlit("8");
        reveal_strlit("9");
    }
    let text = if d == 0 {
        "0"
    } else if d == 1 {
        "1"
    } else if d == 2 {
        "2"
    } else if d == 3 {
        "3"
    } else if d == 4 {
        "4"
    } else if d == 5 {
        "5"
    } else if d == 6 {
        "6"
    } else if d == 7 {
        "7"
    } else if d == 8 {
        "8"
    } else {
        "9"
    };
    assert(text@ =~= seq![digit(d as nat)]);
    text
}

/// Appends a number in decimal notation to a text.
pub fn push_decimal(text: &mut String, n: u64)
    ensures
        final(text)@ == old(text)@ + decimal(n as nat),
    decreases n,
{
    if n >= 10 {
        push_decimal(text, n / 10);
    }
    text.append(digit_str(n % 10));
    assert(text@ =~= old(text)@ + decimal(n as nat));
}

/// What `{:?}` shows of a string: the string between double quotes, with its
/// special characters escaped.
pub uninterp spec fn str_debug(text: Seq<char>) -> Seq<char>;

/// Formats a string with `{:?}`, which calls `<str as core::fmt::Debug>::fmt`.
/// Nothing is claimed of the result but that it is a function of the string.
#[verifier::external_body]
fn debug_string(text: &str) -> (shown: String)
    ensures
        shown@ == str_debug(text@),
{
    format!("{:?}", text)
}

/// A reason as it is shown: `Code(404)`, or `Other("the message")`.
pub open spec fn reason_text(reason: ReasonView) -> Seq<char> {
    match reason {
        ReasonView::Code(status) => "Code("@ + decimal(status as nat) + ")"@,
        ReasonView::Other(message) => "Other("@ + str_debug(message) + ")"@,
    }
}

/// Appends a reason, as it is shown, to a text.
pub fn push_reason(text: &mut String, reason: &Reason)
    ensures
        final(text)@ == old(text)@ + reason_text(reason@),
{
    match reason {
        Reason::Code(status) => {
            text.append("Code(");
            push_decimal(text, *status as u64);
            text.append(")");
            assert(text@ =~= old(text)@ + reason_text(reason@));
        },
        Reason::Other(message) => {
            text.append("Other(");
            let shown = debug_string(message.as_str());
            text.append(shown.as_str());
            text.append(")");
            assert(text@ =~= old(text)@ + reason_text(reason@));
        },
    }
}

/// The line that counts the pages that were fine.
pub open spec fn ok_pages_line(count: nat) -> Seq<char> {
    "OK Pages: "@ + decimal(count)
}

/// The line that counts the links that were fine.
pub open spec fn ok_links_line(count: nat) -> Seq<char> {
    "OK Links: "@ + decimal(count)
}

/// The line that heads the failures of one reason.
pub open spec fn group_heading(reason: ReasonView) -> Seq<char> {
    "Link failures due to "@ + reason_text(reason) + ":"@
}

/// The line of one failed link: from where it points to where.
pub open spec fn link_failure_line(failure: LinkFailureView) -> Seq<char> {
    "\t"@ + failure.link.source + " -> "@ + failure.link.link + " "@
}

/// The line of one failed page.
pub open spec fn page_failure_line(failure: PageFailureView) -> Seq<char> {
    "Page failure: "@ + failure.page + " due to "@ + reason_text(failure.reason)
}

/// The lines of one group: its heading, then its links.
pub open spec fn group_lines(group: FailureGroupView) -> Seq<Seq<char>> {
    seq![group_heading(group.reason)] + group.failures.map_values(
        |failure: LinkFailureView| link_failure_line(failure),
    )
}

/// The lines of a sequence of groups, group after group.
pub open spec fn groups_lines(groups: Seq<FailureGroupView>) -> Seq<Seq<char>>
    decreases groups.len(),
{
    if groups.len() == 0 {
        Seq::empty()
    } else {
        groups_lines(groups.drop_last()) + group_lines(groups.last())
    }
}

/// The lines of a report: the number of pages that were fine, the number of
/// links that were fine, the failed links grouped by reason, then the failed
/// pages.
pub open spec fn report_lines(report: ReportView) -> Seq<Seq<char>> {
    seq![ok_pages_line(report.ok_pages), ok_links_line(report.ok_links)] + groups_lines(
        grouped(report.link_failures),
    ) + report.page_failures.map_values(|failure: PageFailureView| page_failure_line(failure))
}

/// Appends the lines of one group.
fn push_group(lines: &mut Vec<String>, group: &FailureGroup)
    ensures
        strings_view(final(lines)@) == strings_view(old(lines)@) + group_lines(group@),
{
    let ghost before = strings_view(lines@);
    let ghost failures = group@.failures;
    let mut heading = String::from_str("Link failures due to ");
    push_reason(&mut heading, &group.reason);
    heading.append(":");
    proof {
        assert(heading@ =~= group_heading(group@.reason));
        assert(strings_view(lines@.push(heading)) =~= before.push(heading@));
    }
    lines.push(heading);
    let mut i: usize = 0;
    while i < group.failures.len()
        invariant
            i <= group.failures.len(),
            failures == link_failures_view(group.failures@),
            strings_view(lines@) == before + seq![group_heading(group@.reason)]
                + failures.take(i as int).map_values(
                |failure: LinkFailureView| link_failure_line(failure),
            ),
        decreases group.failures.len() - i,
    {
        let failure = &group.failures[i];
        let mut line = String::from_str("\t");
        line.append(failure.link.source.as_str());
        line.append(" -> ");
        line.append(failure.link.link.as_str());
        line.append(" ");
        proof {
            assert(line@ =~= link_failure_line(failure@));
            assert(failures.take(i + 1) =~= failures.take(i as int).push(failure@));
            assert(failures.take(i + 1).map_values(
                |failure: LinkFailureView| link_failure_line(failure),
            ) =~= failures.take(i as int).map_values(
                |failure: LinkFailureView| link_failure_line(failure),
            ).push(line@));
            assert(strings_view(lines@.push(line)) =~= strings_view(lines@).push(line@));
        }
        lines.push(line);
        i += 1;
    }
    proof {
        assert(failures.take(i as int) =~= failures);
    }
}

/// The report of a run as the lines to print: how many pages and how many
/// links were fine, then under each reason the links that failed with it,
/// then the pages that failed, each with its reason.
pub fn present_results(report: &Report) -> (lines: Vec<String>)
    ensures
        strings_view(lines@) == report_lines(report@),
{
    let mut lines: Vec<String> = Vec::new();
    let mut pages_line = String::from_str("OK Pages: ");
    push_decimal(&mut pages_line, report.ok_pages as u64);
    let mut links_line = String::from_str("OK Links: ");
    push_decimal(&mut links_line, report.ok_links as u64);
    let ghost head = seq![ok_pages_line(report@.ok_pages), ok_links_line(report@.ok_links)];
    proof {
        assert(strings_view(lines@.push(pages_line).push(links_line)) =~= head);
    }
    lines.push(pages_line);
    lines.push(links_line);

    let groups = group_by_reason(&report.link_failures);
    let ghost shown = groups_view(groups@);
    let mut i: usize = 0;
    proof {
        assert(head + groups_lines(shown.take(0)) =~= head);
    }
    while i < groups.len()
        invariant
            i <= groups.len(),
            shown == groups_view(groups@),
            strings_view(lines@) == head + groups_lines(shown.take(i as int)),
        decreases groups.len() - i,
    {
        proof {
            assert(shown.take(i + 1).drop_last() =~= shown.take(i as int));
            assert(shown.take(i + 1).last() == groups@[i as int]@);
        }
        push_group(&mut lines, &groups[i]);
        i += 1;
    }
    proof {
        assert(shown.take(i as int) =~= shown);
    }
    let ghost middle = head + groups_lines(shown);
    let ghost failures = page_failures_view(report.page_failures@);
    let mut j: usize = 0;
    proof {
        assert(middle + failures.take(0).map_values(
            |failure: PageFailureView| page_failure_line(failure),
        ) =~= middle);
    }
    while j < report.page_failures.len()
        invariant
            j <= report.page_failures.len(),
            failures == page_failures_view(report.page_failures@),
            strings_view(lines@) == middle + failures.take(j as int).map_values(
                |failure: PageFailureView| page_failure_line(failure),
            ),
        decreases report.page_failures.len() - j,
    {
        let failure = &report.page_failures[j];
        let mut line = String::from_str("Page failure: ");
        line.append(failure.page.as_str());
        line.append(" due to ");
        push_reason(&mut line, &failure.reason);
        proof {
            assert(line@ =~= page_failure_line(failure@));
            assert(failures.take(j + 1) =~= failures.take(j as int).push(failure@));
            assert(failures.take(j + 1).map_values(
                |failure: PageFailureView| page_failure_line(failure),
            ) =~= failures.take(j as int).map_values(
                |failure: PageFailureView| page_failure_line(failure),
            ).push(line@));
            assert(strings_view(lines@.push(line)) =~= strings_view(lines@).push(line@));
        }
        lines.push(line);
        j += 1;
    }
    proof {
        assert(failures.take(j as int) =~= failures);
    }
    lines
}

} // verus!
