use aer::classify::classify;
use aer::error::UpdateError;
use aer::error::exit_code;
use aer::links::Link;
use aer::links::RegexEntry;

fn link(href: &str) -> Link {
    Link { href: href.to_string(), version: None }
}

fn entry(name: &str, pattern: &str) -> RegexEntry {
    RegexEntry { name: name.to_string(), pattern: pattern.to_string() }
}

#[test]
fn classifies_arch_slots_and_catch_all() {
    // five candidates; exactly one matches the 32-bit pattern, one the 64-bit
    // pattern, and all five match the catch-all
    let links = vec![
        link("https://example.com/a/win32-setup.exe"),
        link("https://example.com/b/win64-setup.exe"),
        link("https://example.com/c/readme.html"),
        link("https://example.com/d/notes.txt"),
        link("https://example.com/e/changelog.md"),
    ];
    let entries = vec![entry("arch32", "win32"), entry("arch64", "win64"), entry("other", ".*")];
    let r = classify(&links, &entries).unwrap();
    assert_eq!(r.arch32.unwrap().href, "https://example.com/a/win32-setup.exe");
    assert_eq!(r.arch64.unwrap().href, "https://example.com/b/win64-setup.exe");
    // no cross-bucket deduplication: the arch matches appear in others too
    let others: Vec<String> = r.others.iter().map(|l| l.href.clone()).collect();
    assert_eq!(others, vec![
        "https://example.com/a/win32-setup.exe".to_string(),
        "https://example.com/b/win64-setup.exe".to_string(),
        "https://example.com/c/readme.html".to_string(),
        "https://example.com/d/notes.txt".to_string(),
        "https://example.com/e/changelog.md".to_string(),
    ]);
}

#[test]
fn empty_entries_yield_empty_result() {
    let links = vec![link("https://example.com/x.exe"), link("https://example.com/y.exe")];
    let entries: Vec<RegexEntry> = vec![];
    let r = classify(&links, &entries).unwrap();
    assert!(r.arch32.is_none());
    assert!(r.arch64.is_none());
    assert!(r.others.is_empty());
}

#[test]
fn version_group_is_parsed() {
    let links = vec![link("https://example.com/win64-2.3.1.exe")];
    let entries = vec![entry("arch64", "win64-(?P<version>[0-9.]+)\\.exe")];
    let r = classify(&links, &entries).unwrap();
    let found = r.arch64.unwrap();
    let v = found.version.expect("the version group should have parsed");
    assert_eq!(v.parts().clone(), vec![2u64, 3, 1]);
}

#[test]
fn unparseable_version_capture_is_absent_not_fatal() {
    let links = vec![link("https://example.com/win64-not-a-version.exe")];
    let entries = vec![entry("arch64", "win64-(?P<version>[a-z-]+)\\.exe")];
    let r = classify(&links, &entries).unwrap();
    let found = r.arch64.unwrap();
    assert_eq!(found.href, "https://example.com/win64-not-a-version.exe");
    assert!(found.version.is_none());
}

#[test]
fn absent_version_group_leaves_version_absent() {
    let links = vec![link("https://example.com/win32-setup.exe")];
    let entries = vec![entry("arch32", "win32")];
    let r = classify(&links, &entries).unwrap();
    let found = r.arch32.unwrap();
    assert!(found.version.is_none());
}

#[test]
fn names_compare_case_insensitively() {
    let links = vec![link("https://example.com/win32.exe"), link("https://example.com/win64.exe")];
    let entries = vec![entry("ARCH32", "win32"), entry("Arch64", "win64")];
    let r = classify(&links, &entries).unwrap();
    assert_eq!(r.arch32.unwrap().href, "https://example.com/win32.exe");
    assert_eq!(r.arch64.unwrap().href, "https://example.com/win64.exe");
    assert!(r.others.is_empty());
}

#[test]
fn later_entry_overrides_arch_slot() {
    // a later identically-named entry replaces the slot, even with nothing
    let links = vec![link("https://example.com/win32.exe")];
    let entries = vec![entry("arch32", "win32"), entry("arch32", "nothing-matches-this")];
    let r = classify(&links, &entries).unwrap();
    assert!(r.arch32.is_none());
}

#[test]
fn first_match_wins_per_arch_slot() {
    let links = vec![
        link("https://mirror-a.example.com/win64.exe"),
        link("https://mirror-b.example.com/win64.exe"),
    ];
    let entries = vec![entry("arch64", "win64")];
    let r = classify(&links, &entries).unwrap();
    assert_eq!(r.arch64.unwrap().href, "https://mirror-a.example.com/win64.exe");
}

#[test]
fn invalid_pattern_aborts_classification() {
    let links = vec![link("https://example.com/x.exe")];
    let entries = vec![entry("other", "(")];
    let err = classify(&links, &entries).unwrap_err();
    match &err {
        UpdateError::Pattern(p) => assert_eq!(p, "("),
        _ => panic!("expected a pattern error"),
    }
    assert_eq!(exit_code(&err), 1);
}
