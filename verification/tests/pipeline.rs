use broken_links::link_scanner::{is_success, LinkAction, LinkEvent, LinkScanner};
use broken_links::monitor::Monitor;
use broken_links::page_scanner::{
    Page, PageAction, PageEvent, PageFailure, PageScanner, PageScannerOptions, Rendering,
};
use broken_links::present::present_results;
use broken_links::results::{
    collect_results, group_by_reason, Link, LinkFailure, Reason, Report, ScanResult,
};
use broken_links::url_utils::{host_url_from, parse_target, Url, MAX_URL_LENGTH};

fn url(text: &str) -> Url {
    parse_target(text).unwrap()
}

fn link(source: &str, target: &str) -> Link {
    Link { source: url(source), link: url(target) }
}

fn strings(values: &[&str]) -> Vec<String> {
    values.iter().map(|value| value.to_string()).collect()
}

fn texts(pages: &[Page]) -> Vec<String> {
    pages.iter().map(|page| page.to_string()).collect()
}

fn pairs(links: &[Link]) -> Vec<(String, String)> {
    links.iter().map(|link| (link.source.to_string(), link.link.to_string())).collect()
}

fn scanner(scope: &[&str], follow: bool) -> PageScanner {
    let scope = scope.iter().map(|host| host_url_from(&url(host)).unwrap()).collect();
    PageScanner::new(PageScannerOptions { scope, follow })
}

/// A small site: what each page holds, or that it fails to render.
fn render(page: &str) -> Result<Rendering, String> {
    match page {
        "http://site.example/" => Ok(Rendering {
            hrefs: strings(&["/b", "https://x.example/ok", "https://x.example/missing"]),
            srcs: strings(&[]),
        }),
        "http://site.example/b" => Ok(Rendering { hrefs: strings(&[]), srcs: strings(&[]) }),
        other => Err(format!("cannot navigate to {}", other)),
    }
}

/// The answer of the site's neighbours to a request.
fn head(target: &str) -> Result<u16, String> {
    match target {
        "https://x.example/ok" => Ok(200),
        "https://x.example/missing" => Ok(404),
        other => Err(format!("error sending request for url ({})", other)),
    }
}

/// Runs the page scanner until it finds nothing to do; gives the pages it rendered.
fn run_pages(
    scanner: &mut PageScanner,
    pages: &mut Vec<Page>,
    links: &mut Vec<Link>,
    results: &mut Vec<ScanResult>,
) -> Vec<String> {
    let mut rendered = Vec::new();
    let mut event = PageEvent::Started;
    loop {
        match scanner.start(event, false, pages, links, results) {
            PageAction::Render(page) => {
                rendered.push(page.to_string());
                let outcome = render(page.as_str());
                event = PageEvent::Rendered(page, outcome);
            }
            PageAction::Sleep => return rendered,
            PageAction::Exit => panic!("the shutdown flag was not set"),
        }
    }
}

/// Runs a link scanner until it finds nothing to do; gives the targets it checked.
fn run_links(links: &mut Vec<Link>, results: &mut Vec<ScanResult>) -> Vec<String> {
    let mut scanner = LinkScanner::new();
    let mut checked = Vec::new();
    let mut event = LinkEvent::Started;
    loop {
        match scanner.start(event, false, links, results) {
            LinkAction::Check(link) => {
                checked.push(link.link.to_string());
                let response = head(link.link.as_str());
                event = LinkEvent::Checked(link, response);
            }
            LinkAction::Sleep => return checked,
            LinkAction::Exit => panic!("the shutdown flag was not set"),
        }
    }
}

#[test]
fn end_to_end_scenario() {
    let seed = url("http://site.example/");
    let mut scanner = scanner(&["http://site.example/"], true);
    let mut pages = vec![seed];
    let mut links = Vec::new();
    let mut results = Vec::new();
    let mut monitor = Monitor::new();

    assert!(!monitor.start(pages.len(), links.len(), results.len()).finished);

    let rendered = run_pages(&mut scanner, &mut pages, &mut links, &mut results);
    assert_eq!(rendered, ["http://site.example/", "http://site.example/b"]);
    assert!(pages.is_empty());
    assert_eq!(links.len(), 2);
    assert!(!monitor.start(pages.len(), links.len(), results.len()).finished);

    let mut checked = run_links(&mut links, &mut results);
    checked.sort();
    assert_eq!(checked, ["https://x.example/missing", "https://x.example/ok"]);

    let progress = monitor.start(pages.len(), links.len(), results.len());
    assert!(progress.finished);
    assert_eq!(progress.total, 4);
    assert_eq!(progress.results_done, 4);

    let report = collect_results(&mut results);
    assert!(results.is_empty());
    assert_eq!(report.ok_pages, 2);
    assert_eq!(report.ok_links, 1);
    assert!(report.page_failures.is_empty());
    assert_eq!(report.link_failures.len(), 1);

    let groups = group_by_reason(&report.link_failures);
    assert_eq!(groups.len(), 1);
    assert_eq!(groups[0].reason, Reason::Code(404));
    assert_eq!(groups[0].failures.len(), 1);
    assert_eq!(groups[0].failures[0].link.source.as_str(), "http://site.example/");
    assert_eq!(groups[0].failures[0].link.link.as_str(), "https://x.example/missing");

    assert_eq!(
        present_results(&report),
        [
            "OK Pages: 2",
            "OK Links: 1",
            "Link failures due to Code(404):",
            "\thttp://site.example/ -> https://x.example/missing ",
        ]
    );
}

#[test]
fn without_follow_only_the_seed_is_rendered() {
    let mut scanner = scanner(&["http://site.example/"], false);
    let mut pages = vec![url("http://site.example/")];
    let mut links = Vec::new();
    let mut results = Vec::new();

    let rendered = run_pages(&mut scanner, &mut pages, &mut links, &mut results);
    assert_eq!(rendered, ["http://site.example/"]);
    assert!(pages.is_empty());
    assert_eq!(
        pairs(&links),
        [
            ("http://site.example/".to_string(), "http://site.example/b".to_string()),
            ("http://site.example/".to_string(), "https://x.example/ok".to_string()),
            ("http://site.example/".to_string(), "https://x.example/missing".to_string()),
        ]
    );
    assert_eq!(results.len(), 1);
    assert!(matches!(&results[0], ScanResult::PageSuccess(page) if page.as_str() == "http://site.example/"));
}

#[test]
fn without_follow_the_page_queue_never_grows() {
    let scanner = scanner(&["http://site.example/"], false);
    let mut pages = vec![url("http://site.example/waiting")];
    let mut links = Vec::new();
    let mut results = Vec::new();
    let rendering = Rendering {
        hrefs: strings(&["/a", "http://site.example/b", "https://other.example/"]),
        srcs: strings(&["/logo.png"]),
    };
    scanner.record(url("http://site.example/"), Ok(rendering), &mut pages, &mut links, &mut results);
    assert_eq!(texts(&pages), ["http://site.example/waiting"]);
    assert_eq!(links.len(), 4);
}

#[test]
fn with_follow_links_are_sorted_by_scope() {
    let scanner = scanner(&["http://site.example/", "https://docs.site.example/"], true);
    let mut pages = vec![url("http://site.example/waiting")];
    let mut links = vec![link("http://site.example/old", "https://old.example/")];
    let mut results = Vec::new();
    let rendering = Rendering {
        hrefs: strings(&[
            "/a?x=1#top",
            "https://other.example/page",
            "https://docs.site.example/manual/",
            "https://site.example/secure",
            "mailto:someone@site.example",
            "http://site.example:8080/port",
        ]),
        srcs: strings(&["img/logo.png", "https://cdn.example/lib.js", "javascript:void(0)"]),
    };
    scanner.record(url("http://site.example/dir/"), Ok(rendering), &mut pages, &mut links, &mut results);
    assert_eq!(
        texts(&pages),
        [
            "http://site.example/waiting",
            "http://site.example/a?x=1",
            "https://docs.site.example/manual/",
            "http://site.example/dir/img/logo.png",
        ]
    );
    assert_eq!(
        pairs(&links),
        [
            ("http://site.example/old".to_string(), "https://old.example/".to_string()),
            ("http://site.example/dir/".to_string(), "https://other.example/page".to_string()),
            ("http://site.example/dir/".to_string(), "https://site.example/secure".to_string()),
            ("http://site.example/dir/".to_string(), "http://site.example:8080/port".to_string()),
            ("http://site.example/dir/".to_string(), "https://cdn.example/lib.js".to_string()),
        ]
    );
    assert_eq!(results.len(), 1);
    assert!(matches!(&results[0], ScanResult::PageSuccess(page) if page.as_str() == "http://site.example/dir/"));
}

#[test]
fn follows_asks_for_the_flag_and_the_scope() {
    let following = scanner(&["http://site.example/"], true);
    let cautious = scanner(&["http://site.example/"], false);
    let inside = link("http://site.example/", "http://site.example/deep/page?x#y");
    let outside = link("http://site.example/", "http://elsewhere.example/");
    assert!(following.follows(&inside));
    assert!(!following.follows(&outside));
    assert!(!cautious.follows(&inside));
    assert!(!cautious.follows(&outside));
}

#[test]
fn page_to_hrefs_canonicalizes_drops_and_keeps_each_target_once() {
    let scanner = scanner(&[], false);
    let page = url("http://site.example/dir/index.html");
    let hrefs = strings(&[
        "a.html",
        "a.html#section",
        "http://[bad",
        "/top",
        "ftp://files.example/",
        "https://x.example/ok",
    ]);
    let srcs = strings(&["/top#again", "pic.png", "http://site.example/dir/a.html"]);
    let links = scanner.page_to_hrefs(&page, &hrefs, &srcs);
    assert_eq!(
        pairs(&links),
        [
            ("http://site.example/dir/index.html".to_string(), "http://site.example/dir/a.html".to_string()),
            ("http://site.example/dir/index.html".to_string(), "http://site.example/top".to_string()),
            ("http://site.example/dir/index.html".to_string(), "https://x.example/ok".to_string()),
            ("http://site.example/dir/index.html".to_string(), "http://site.example/dir/pic.png".to_string()),
        ]
    );
    assert!(scanner.page_to_hrefs(&page, &Vec::new(), &Vec::new()).is_empty());
}

#[test]
fn a_page_is_rendered_at_most_once() {
    let mut scanner = scanner(&["http://site.example/"], true);
    let mut pages = vec![
        url("http://site.example/a"),
        url("http://site.example/b"),
        url("http://site.example/a"),
        url("http://site.example/a"),
    ];
    let mut rendered = Vec::new();
    loop {
        match scanner.next_page(&mut pages) {
            PageAction::Render(page) => {
                rendered.push(page.to_string());
                pages.push(url("http://site.example/a"));
                pages.push(url("http://site.example/b"));
            }
            PageAction::Sleep => break,
            PageAction::Exit => panic!("next_page never ends the run"),
        }
    }
    assert_eq!(rendered, ["http://site.example/a", "http://site.example/b"]);
    assert!(pages.is_empty());
}

#[test]
fn pages_that_refer_to_each_other_are_each_rendered_once() {
    fn circle(page: &str) -> Result<Rendering, String> {
        let hrefs = match page {
            "http://ring.example/" => strings(&["/one", "/two"]),
            "http://ring.example/one" => strings(&["/two", "/", "/one"]),
            "http://ring.example/two" => strings(&["/", "/one#x"]),
            _ => return Err("no such page".to_string()),
        };
        Ok(Rendering { hrefs, srcs: strings(&[]) })
    }
    let mut scanner = scanner(&["http://ring.example/"], true);
    let mut pages = vec![url("http://ring.example/")];
    let mut links = Vec::new();
    let mut results = Vec::new();
    let mut rendered = Vec::new();
    let mut event = PageEvent::Started;
    loop {
        match scanner.start(event, false, &mut pages, &mut links, &mut results) {
            PageAction::Render(page) => {
                rendered.push(page.to_string());
                let outcome = circle(page.as_str());
                event = PageEvent::Rendered(page, outcome);
            }
            _ => break,
        }
    }
    rendered.sort();
    assert_eq!(rendered, ["http://ring.example/", "http://ring.example/one", "http://ring.example/two"]);
    assert!(pages.is_empty());
    assert!(links.is_empty());
    assert_eq!(results.len(), 3);
}

#[test]
fn next_page_takes_from_the_end_of_the_queue() {
    let mut scanner = scanner(&[], true);
    let mut pages = vec![url("http://site.example/first"), url("http://site.example/last")];
    match scanner.next_page(&mut pages) {
        PageAction::Render(page) => assert_eq!(page.as_str(), "http://site.example/last"),
        other => panic!("{:?}", other),
    }
    assert_eq!(texts(&pages), ["http://site.example/first"]);
    let mut empty: Vec<Page> = Vec::new();
    assert!(matches!(scanner.next_page(&mut empty), PageAction::Sleep));
}

#[test]
fn a_page_that_fails_to_render_is_reported_and_nothing_is_queued() {
    let mut scanner = scanner(&["http://site.example/"], true);
    let mut pages = vec![url("http://site.example/broken")];
    let mut links = Vec::new();
    let mut results = Vec::new();
    let rendered = run_pages(&mut scanner, &mut pages, &mut links, &mut results);
    assert_eq!(rendered, ["http://site.example/broken"]);
    assert!(pages.is_empty());
    assert!(links.is_empty());
    assert_eq!(results.len(), 1);
    match &results[0] {
        ScanResult::PageFailure(failure) => {
            assert_eq!(failure.page.as_str(), "http://site.example/broken");
            assert_eq!(
                failure.reason,
                Reason::Other("cannot navigate to http://site.example/broken".to_string())
            );
        }
        other => panic!("{:?}", other),
    }
}

#[test]
fn the_page_scanner_obeys_the_shutdown_flag_after_its_first_turn() {
    let mut scanner = scanner(&[], true);
    let mut pages = vec![url("http://site.example/a"), url("http://site.example/b")];
    let mut links = Vec::new();
    let mut results = Vec::new();

    // The first turn does not look at the flag.
    let page = match scanner.start(PageEvent::Started, true, &mut pages, &mut links, &mut results) {
        PageAction::Render(page) => page,
        other => panic!("{:?}", other),
    };
    assert_eq!(page.as_str(), "http://site.example/b");

    // The outcome is recorded even when the run is over.
    let outcome = Ok(Rendering { hrefs: strings(&["https://x.example/"]), srcs: strings(&[]) });
    let action = scanner.start(PageEvent::Rendered(page, outcome), true, &mut pages, &mut links, &mut results);
    assert!(matches!(action, PageAction::Exit));
    assert_eq!(texts(&pages), ["http://site.example/a"]);
    assert_eq!(links.len(), 1);
    assert_eq!(results.len(), 1);

    let action = scanner.start(PageEvent::Idled, true, &mut pages, &mut links, &mut results);
    assert!(matches!(action, PageAction::Exit));
    assert_eq!(pages.len(), 1);

    let action = scanner.start(PageEvent::Idled, false, &mut pages, &mut links, &mut results);
    assert!(matches!(action, PageAction::Render(page) if page.as_str() == "http://site.example/a"));
    let action = scanner.start(PageEvent::Idled, false, &mut pages, &mut links, &mut results);
    assert!(matches!(action, PageAction::Sleep));
}

#[test]
fn classification_of_a_missing_target() {
    let mut results = Vec::new();
    let mut scanner = LinkScanner::new();
    scanner.check_link(link("http://site.example/", "https://x.example/missing"), Ok(404), &mut results);
    assert_eq!(results.len(), 1);
    match &results[0] {
        ScanResult::LinkFailure(failure) => {
            assert_eq!(failure.reason, Reason::Code(404));
            assert_eq!(failure.link.source.as_str(), "http://site.example/");
            assert_eq!(failure.link.link.as_str(), "https://x.example/missing");
        }
        other => panic!("{:?}", other),
    }
}

#[test]
fn classification_of_a_refused_request() {
    let mut results = Vec::new();
    let mut scanner = LinkScanner::new();
    let response = head("https://refused.example/");
    scanner.check_link(link("http://site.example/", "https://refused.example/"), response, &mut results);
    assert_eq!(results.len(), 1);
    match &results[0] {
        ScanResult::LinkFailure(LinkFailure { reason: Reason::Other(message), .. }) => {
            assert!(!message.is_empty());
            assert_eq!(message, "error sending request for url (https://refused.example/)");
        }
        other => panic!("{:?}", other),
    }
}

#[test]
fn classification_of_a_live_target() {
    let mut results = vec![ScanResult::PageSuccess(url("http://site.example/"))];
    let mut scanner = LinkScanner::new();
    scanner.check_link(link("http://site.example/", "https://x.example/ok"), Ok(200), &mut results);
    assert_eq!(results.len(), 2);
    assert!(matches!(&results[1], ScanResult::LinkSuccess(link) if link.link.as_str() == "https://x.example/ok"));
}

#[test]
fn statuses_of_the_2xx_and_3xx_class_are_success() {
    for status in [200, 201, 204, 299, 300, 301, 304, 399] {
        assert!(is_success(status), "{}", status);
    }
    for status in [0, 100, 199, 400, 401, 404, 410, 500, 503, 999, u16::MAX] {
        assert!(!is_success(status), "{}", status);
    }
}

#[test]
fn the_same_link_is_checked_as_often_as_it_is_queued() {
    let mut links = vec![
        link("http://site.example/a", "https://x.example/missing"),
        link("http://site.example/b", "https://x.example/missing"),
    ];
    let mut results = Vec::new();
    let checked = run_links(&mut links, &mut results);
    assert_eq!(checked, ["https://x.example/missing", "https://x.example/missing"]);
    assert_eq!(results.len(), 2);
}

#[test]
fn the_link_scanner_obeys_the_shutdown_flag_after_its_first_turn() {
    let mut scanner = LinkScanner::new();
    let mut links = vec![
        link("http://site.example/", "https://x.example/ok"),
        link("http://site.example/", "https://x.example/missing"),
    ];
    let mut results = Vec::new();
    let first = match scanner.start(LinkEvent::Started, true, &mut links, &mut results) {
        LinkAction::Check(link) => link,
        other => panic!("{:?}", other),
    };
    assert_eq!(first.link.as_str(), "https://x.example/missing");
    let action = scanner.start(LinkEvent::Checked(first, Ok(404)), true, &mut links, &mut results);
    assert!(matches!(action, LinkAction::Exit));
    assert_eq!(links.len(), 1);
    assert_eq!(results.len(), 1);
    assert!(matches!(
        scanner.start(LinkEvent::Idled, true, &mut links, &mut results),
        LinkAction::Exit
    ));
    assert!(matches!(
        scanner.start(LinkEvent::Idled, false, &mut links, &mut results),
        LinkAction::Check(_)
    ));
    assert!(matches!(
        scanner.start(LinkEvent::Idled, false, &mut links, &mut results),
        LinkAction::Sleep
    ));
}

#[test]
fn the_monitor_finds_the_run_over_only_at_quiescence() {
    let mut monitor = Monitor::new();
    assert!(!monitor.start(0, 0, 0).finished);
    assert!(!monitor.start(1, 0, 0).finished);
    assert!(!monitor.start(0, 1, 5).finished);
    assert!(!monitor.start(2, 0, 5).finished);
    assert!(monitor.start(0, 0, 1).finished);
    assert!(monitor.start(0, 0, 7).finished);
}

#[test]
fn the_monitor_reports_progress() {
    let mut monitor = Monitor::new();
    let progress = monitor.start(3, 4, 5);
    assert_eq!(progress.total, 12);
    assert_eq!(progress.pages_todo, 3);
    assert_eq!(progress.links_todo, 4);
    assert_eq!(progress.results_done, 5);
    assert!(!progress.finished);

    // The bar of results never moves back.
    let progress = monitor.start(1, 0, 2);
    assert_eq!(progress.total, 3);
    assert_eq!(progress.results_done, 5);
    let progress = monitor.start(0, 0, 9);
    assert_eq!(progress.results_done, 9);
    assert!(progress.finished);
}

fn sample_results() -> Vec<ScanResult> {
    vec![
        ScanResult::PageSuccess(url("http://site.example/")),
        ScanResult::LinkFailure(LinkFailure {
            link: link("http://site.example/", "https://x.example/missing"),
            reason: Reason::Code(404),
        }),
        ScanResult::LinkSuccess(link("http://site.example/", "https://x.example/ok")),
        ScanResult::PageFailure(PageFailure {
            page: url("http://site.example/broken"),
            reason: Reason::Other("navigation failed".to_string()),
        }),
        ScanResult::LinkFailure(LinkFailure {
            link: link("http://site.example/", "https://down.example/"),
            reason: Reason::Other("connection refused".to_string()),
        }),
        ScanResult::LinkFailure(LinkFailure {
            link: link("http://site.example/b", "https://x.example/gone"),
            reason: Reason::Code(404),
        }),
        ScanResult::LinkSuccess(link("http://site.example/b", "https://x.example/ok")),
        ScanResult::LinkFailure(LinkFailure {
            link: link("http://site.example/b", "https://x.example/teapot"),
            reason: Reason::Code(418),
        }),
        ScanResult::PageSuccess(url("http://site.example/b")),
        ScanResult::LinkFailure(LinkFailure {
            link: link("http://site.example/b", "https://down.example/"),
            reason: Reason::Other("connection refused".to_string()),
        }),
    ]
}

#[test]
fn collect_results_counts_and_lists() {
    let mut results = sample_results();
    let report = collect_results(&mut results);
    assert!(results.is_empty());
    assert_eq!(report.ok_pages, 2);
    assert_eq!(report.ok_links, 2);
    assert_eq!(report.page_failures.len(), 1);
    assert_eq!(report.page_failures[0].page.as_str(), "http://site.example/broken");
    assert_eq!(report.page_failures[0].reason, Reason::Other("navigation failed".to_string()));
    // The results are taken from the end of the queue.
    let targets: Vec<String> =
        report.link_failures.iter().map(|failure| failure.link.link.to_string()).collect();
    assert_eq!(
        targets,
        [
            "https://down.example/",
            "https://x.example/teapot",
            "https://x.example/gone",
            "https://down.example/",
            "https://x.example/missing",
        ]
    );
}

#[test]
fn collect_results_of_nothing() {
    let mut results = Vec::new();
    let report = collect_results(&mut results);
    assert_eq!(report.ok_pages, 0);
    assert_eq!(report.ok_links, 0);
    assert!(report.link_failures.is_empty());
    assert!(report.page_failures.is_empty());
    assert!(group_by_reason(&report.link_failures).is_empty());
    assert_eq!(present_results(&report), ["OK Pages: 0", "OK Links: 0"]);
}

#[test]
fn failures_are_grouped_by_reason_in_order_of_first_occurrence() {
    let mut results = sample_results();
    let report = collect_results(&mut results);
    let groups = group_by_reason(&report.link_failures);
    let shown: Vec<(Reason, Vec<(String, String)>)> = groups
        .iter()
        .map(|group| {
            (
                group.reason.clone(),
                group
                    .failures
                    .iter()
                    .map(|failure| {
                        assert_eq!(failure.reason, group.reason);
                        (failure.link.source.to_string(), failure.link.link.to_string())
                    })
                    .collect(),
            )
        })
        .collect();
    assert_eq!(
        shown,
        [
            (
                Reason::Other("connection refused".to_string()),
                vec![
                    ("http://site.example/b".to_string(), "https://down.example/".to_string()),
                    ("http://site.example/".to_string(), "https://down.example/".to_string()),
                ]
            ),
            (
                Reason::Code(418),
                vec![("http://site.example/b".to_string(), "https://x.example/teapot".to_string())]
            ),
            (
                Reason::Code(404),
                vec![
                    ("http://site.example/b".to_string(), "https://x.example/gone".to_string()),
                    ("http://site.example/".to_string(), "https://x.example/missing".to_string()),
                ]
            ),
        ]
    );
}

#[test]
fn present_results_shows_counts_groups_and_failed_pages() {
    let mut results = sample_results();
    let report = collect_results(&mut results);
    assert_eq!(
        present_results(&report),
        [
            "OK Pages: 2",
            "OK Links: 2",
            "Link failures due to Other(\"connection refused\"):",
            "\thttp://site.example/b -> https://down.example/ ",
            "\thttp://site.example/ -> https://down.example/ ",
            "Link failures due to Code(418):",
            "\thttp://site.example/b -> https://x.example/teapot ",
            "Link failures due to Code(404):",
            "\thttp://site.example/b -> https://x.example/gone ",
            "\thttp://site.example/ -> https://x.example/missing ",
            "Page failure: http://site.example/broken due to Other(\"navigation failed\")",
        ]
    );
}

#[test]
fn present_results_shows_numbers_in_decimal() {
    let report = |ok_pages, ok_links| Report {
        ok_pages,
        ok_links,
        link_failures: vec![LinkFailure {
            link: link("http://site.example/", "https://x.example/missing"),
            reason: Reason::Code(u16::MAX),
        }],
        page_failures: vec![PageFailure { page: url("http://site.example/p"), reason: Reason::Code(0) }],
    };
    assert_eq!(
        present_results(&report(0, 9)),
        [
            "OK Pages: 0",
            "OK Links: 9",
            "Link failures due to Code(65535):",
            "\thttp://site.example/ -> https://x.example/missing ",
            "Page failure: http://site.example/p due to Code(0)",
        ]
    );
    let lines = present_results(&report(10, u32::MAX));
    assert_eq!(lines[0], "OK Pages: 10");
    assert_eq!(lines[1], "OK Links: 4294967295");
    let lines = present_results(&report(1_000_000, 70_507));
    assert_eq!(lines[0], "OK Pages: 1000000");
    assert_eq!(lines[1], "OK Links: 70507");
}

#[test]
fn present_results_shows_a_message_as_the_reason_itself_is_shown() {
    for message in ["plain", "", "with \"quotes\" and \\ backslash", "tab\tand\nnewline", "ünïcödé ✓"] {
        let reason = Reason::Other(message.to_string());
        let report = Report {
            ok_pages: 0,
            ok_links: 0,
            link_failures: Vec::new(),
            page_failures: vec![PageFailure { page: url("http://site.example/p"), reason: reason.clone() }],
        };
        let lines = present_results(&report);
        assert_eq!(lines.len(), 3);
        assert_eq!(lines[2], format!("Page failure: http://site.example/p due to {:?}", reason));
    }
    let code = Reason::Code(404);
    assert_eq!(format!("{:?}", code), "Code(404)");
}

#[test]
fn present_results_leaves_the_report_as_it_is() {
    let report = Report {
        ok_pages: 1,
        ok_links: 0,
        link_failures: vec![LinkFailure {
            link: link("http://site.example/", "https://x.example/missing"),
            reason: Reason::Code(404),
        }],
        page_failures: Vec::new(),
    };
    let lines = present_results(&report);
    assert_eq!(lines.len(), 4);
    assert_eq!(report.link_failures.len(), 1);
    assert_eq!(report.ok_pages, 1);
}

#[test]
fn reasons_are_equal_by_kind_and_content() {
    assert_eq!(Reason::Code(404), Reason::Code(404));
    assert_ne!(Reason::Code(404), Reason::Code(500));
    assert_eq!(Reason::Other("x".to_string()), Reason::Other("x".to_string()));
    assert_ne!(Reason::Other("x".to_string()), Reason::Other("y".to_string()));
    assert_ne!(Reason::Other("404".to_string()), Reason::Code(404));
    assert_ne!(Reason::Code(0), Reason::Other(String::new()));
}

#[test]
fn a_link_too_long_to_reduce_to_its_host_is_checked_not_crawled() {
    let scanner = scanner(&["http://site.example/"], true);
    let long = format!("http://site.example/{}", "a".repeat(MAX_URL_LENGTH));
    let inside = link("http://site.example/", &long);
    assert!(!scanner.follows(&inside));

    let mut pages = Vec::new();
    let mut links = Vec::new();
    let mut results = Vec::new();
    let rendering = Rendering { hrefs: vec![long.clone(), "/short".to_string()], srcs: Vec::new() };
    scanner.record(url("http://site.example/"), Ok(rendering), &mut pages, &mut links, &mut results);
    assert_eq!(texts(&pages), ["http://site.example/short"]);
    assert_eq!(links.len(), 1);
    assert_eq!(links[0].link.as_str(), long);
}
