use aer::error::UpdateError;
use aer::error::exit_code;
use aer::links::Link;
use aer::resolve::ParseUrlStrategy;
use aer::resolve::ResolveAction;
use aer::resolve::ResolveState;
use aer::resolve::on_page;
use aer::resolve::start;

fn link(href: &str) -> Link {
    Link { href: href.to_string(), version: None }
}

fn hrefs(links: &[Link]) -> Vec<String> {
    links.iter().map(|l| l.href.clone()).collect()
}

#[test]
fn missing_strategy_is_config_error_with_exit_code_5() {
    let err = start(None).unwrap_err();
    assert!(matches!(err, UpdateError::MissingParseUrlStrategy));
    assert_eq!(exit_code(&err), 5);
}

#[test]
fn direct_strategy_returns_page_links_unfiltered() {
    let (state, action) = start(Some(ParseUrlStrategy::Direct(
        "https://example.com/downloads".to_string(),
    )))
    .unwrap();
    match &action {
        ResolveAction::Fetch(url) => assert_eq!(url, "https://example.com/downloads"),
        ResolveAction::Done => panic!("expected a fetch"),
    }
    let page = vec![link("https://example.com/a.zip"), link("https://example.com/b.txt")];
    let (state, action) = on_page(state, page).unwrap();
    assert!(matches!(action, ResolveAction::Done));
    match state {
        ResolveState::Resolved(links) => assert_eq!(hrefs(&links), vec![
            "https://example.com/a.zip".to_string(),
            "https://example.com/b.txt".to_string(),
        ]),
        _ => panic!("expected a resolved state"),
    }
}

#[test]
fn filtered_strategy_with_no_match_resolves_empty_not_error() {
    let (state, _) = start(Some(ParseUrlStrategy::FilteredWithRegex {
        url: "https://example.com/releases".to_string(),
        pattern: "\\.zip$".to_string(),
    }))
    .unwrap();
    let page = vec![link("https://example.com/readme.html"), link("https://example.com/notes.txt")];
    let (state, action) = on_page(state, page).unwrap();
    assert!(matches!(action, ResolveAction::Done));
    match state {
        ResolveState::Resolved(links) => assert!(links.is_empty()),
        _ => panic!("expected a resolved state"),
    }
}

#[test]
fn filtered_strategy_drills_into_first_match() {
    let (state, _) = start(Some(ParseUrlStrategy::FilteredWithRegex {
        url: "https://example.com/releases".to_string(),
        pattern: "/v[0-9]+$".to_string(),
    }))
    .unwrap();
    let first_page = vec![
        link("https://example.com/about"),
        link("https://example.com/v2"),
        link("https://example.com/v1"),
    ];
    let (state, action) = on_page(state, first_page).unwrap();
    // the first match, in document order, is the one drilled into
    match &action {
        ResolveAction::Fetch(url) => assert_eq!(url, "https://example.com/v2"),
        ResolveAction::Done => panic!("expected a drill fetch"),
    }
    assert!(matches!(state, ResolveState::AwaitingDrillFetch(_)));
    // the second page's links, unfiltered, become the resolution; the
    // first page's matches are discarded
    let second_page = vec![
        link("https://example.com/v2/win32.exe"),
        link("https://example.com/v2/win64.exe"),
        link("https://example.com/v2/checksums.txt"),
    ];
    let (state, action) = on_page(state, second_page).unwrap();
    assert!(matches!(action, ResolveAction::Done));
    match state {
        ResolveState::Resolved(links) => assert_eq!(hrefs(&links), vec![
            "https://example.com/v2/win32.exe".to_string(),
            "https://example.com/v2/win64.exe".to_string(),
            "https://example.com/v2/checksums.txt".to_string(),
        ]),
        _ => panic!("expected a resolved state"),
    }
}

#[test]
fn invalid_filter_pattern_is_fatal() {
    let (state, _) = start(Some(ParseUrlStrategy::FilteredWithRegex {
        url: "https://example.com/releases".to_string(),
        pattern: "(".to_string(),
    }))
    .unwrap();
    let page = vec![link("https://example.com/a")];
    let err = on_page(state, page).unwrap_err();
    match &err {
        UpdateError::Pattern(p) => assert_eq!(p, "("),
        _ => panic!("expected a pattern error"),
    }
    assert_eq!(exit_code(&err), 1);
}
