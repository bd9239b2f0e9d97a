use vstd::prelude::*;
use vstd::string::StrSliceExecFns;
use crate::error::UpdateError;
use crate::error::UpdateErrorView;
use crate::links::Link;
use crate::links::LinkView;
use crate::links::RegexEntry;
use crate::links::RegexEntryView;
use crate::links::ClassificationResult;
use crate::links::ClassificationView;
use crate::links::link_views;
use crate::links::entry_views;
use crate::pattern::Pattern;
use crate::pattern::regex_capture;
use crate::pattern::regex_matches;
use crate::pattern::regex_valid;
use crate::version::Version;
use crate::version::parse_spec;

verus! {

/// The version attached to a link matched by `pattern`: the parse of what the
/// `version` group captured; absent when the group is absent or its text does
/// not parse.
pub open spec fn captured_version(pattern: Seq<char>, href: Seq<char>) -> Option<Seq<u64>> {
    match regex_capture(pattern, href) {
        Some(Some(t)) => parse_spec(t),
        _ => None,
    }
}

/// The copy of a matched link that classification accumulates: same href,
/// version from the capture.
pub open spec fn match_link(pattern: Seq<char>, l: LinkView) -> LinkView {
    LinkView { href: l.href, version: captured_version(pattern, l.href) }
}

/// The links of `links` matching `pattern`, in candidate order, each with its
/// captured version attached.
pub open spec fn matched_links(pattern: Seq<char>, links: Seq<LinkView>) -> Seq<LinkView>
    decreases links.len(),
{
    if links.len() == 0 {
        Seq::empty()
    } else {
        let prev = matched_links(pattern, links.drop_last());
        if regex_matches(pattern, links.last().href) {
            prev.push(match_link(pattern, links.last()))
        } else {
            prev
        }
    }
}

pub open spec fn lower_char(c: char) -> char {
    if 'A' <= c && c <= 'Z' {
        (((c as u32) + 32) as u8) as char
    } else {
        c
    }
}

pub open spec fn eq_ignore_ascii_case(a: Seq<char>, b: Seq<char>) -> bool {
    a.len() == b.len() && forall|i: int| 0 <= i < a.len() ==> lower_char(a[i]) == lower_char(
        #[trigger] b[i],
    )
}

pub open spec fn is_arch32_name(n: Seq<char>) -> bool {
    eq_ignore_ascii_case(n, "arch32"@)
}

pub open spec fn is_arch64_name(n: Seq<char>) -> bool {
    eq_ignore_ascii_case(n, "arch64"@)
}

pub open spec fn classify_empty() -> ClassificationView {
    ClassificationView { arch32: None, arch64: None, others: Seq::empty() }
}

/// One step of the classification fold.  An architecture-named entry replaces
/// its slot with the first match — or with nothing when it has none, even if
/// an earlier entry of the same name had set the slot.  Any other entry
/// appends every match to the catch-all list.
pub open spec fn classify_step(
    acc: ClassificationView,
    links: Seq<LinkView>,
    e: RegexEntryView,
) -> ClassificationView {
    let m = matched_links(e.pattern, links);
    if is_arch32_name(e.name) {
        ClassificationView {
            arch32: if m.len() > 0 {
                Some(m[0])
            } else {
                None
            },
            arch64: acc.arch64,
            others: acc.others,
        }
    } else if is_arch64_name(e.name) {
        ClassificationView {
            arch32: acc.arch32,
            arch64: if m.len() > 0 {
                Some(m[0])
            } else {
                None
            },
            others: acc.others,
        }
    } else {
        ClassificationView { arch32: acc.arch32, arch64: acc.arch64, others: acc.others + m }
    }
}

/// The classification of `links` under `entries`: a fold over the entries in
/// order, starting from the empty result.
pub open spec fn classify_spec(links: Seq<LinkView>, entries: Seq<RegexEntryView>) -> ClassificationView
    decreases entries.len(),
{
    if entries.len() == 0 {
        classify_empty()
    } else {
        classify_step(classify_spec(links, entries.drop_last()), links, entries.last())
    }
}

/// Classifying with no regex entries yields the empty result, whatever the
/// candidate links were.
pub proof fn lemma_classify_no_entries(links: Seq<LinkView>)
    ensures
        classify_spec(links, Seq::<RegexEntryView>::empty()) == classify_empty(),
{
}

/// A matched link keeps its href; its version is exactly the parse of what the
/// `version` group captured, and it is absent when the group is absent — a
/// failed parse is never an error.
pub proof fn lemma_version_from_capture(pattern: Seq<char>, l: LinkView)
    ensures
        match_link(pattern, l).href == l.href,
        forall|t: Seq<char>|
            regex_capture(pattern, l.href) == Some(Some(t)) ==> match_link(pattern, l).version
                == parse_spec(t),
        regex_capture(pattern, l.href) == Some(None::<Seq<char>>) ==> match_link(
            pattern,
            l,
        ).version is None,
{
}

proof fn lemma_link_views_push(s: Seq<Link>, x: Link)
    ensures
        link_views(s.push(x)) == link_views(s).push(x@),
{
    assert(link_views(s.push(x)) =~= link_views(s).push(x@));
}

proof fn lemma_push_concat<A>(a: Seq<A>, b: Seq<A>, x: A)
    ensures
        (a + b).push(x) == a + b.push(x),
{
    assert((a + b).push(x) =~= a + b.push(x));
}

fn lower_char_exec(c: char) -> (r: char)
    ensures
        r == lower_char(c),
{
    let u = c as u32;
    if 65 <= u && u <= 90 {
        ((u + 32) as u8) as char
    } else {
        c
    }
}

/// Case-insensitive (ASCII) comparison of a configured entry name against a
/// slot name.
fn name_matches(name: &str, target: &str) -> (r: bool)
    ensures
        r == eq_ignore_ascii_case(name@, target@),
{
    let n = name.unicode_len();
    let t = target.unicode_len();
    if n != t {
        return false;
    }
    let mut i: usize = 0;
    while i < n
        invariant
            i <= n,
            n == name@.len(),
            n == target@.len(),
            forall|j: int| 0 <= j < i ==> lower_char(name@[j]) == lower_char(#[trigger] target@[j]),
        decreases n - i,
    {
        let a = lower_char_exec(name.get_char(i));
        let b = lower_char_exec(target.get_char(i));
        if a != b {
            return false;
        }
        i = i + 1;
    }
    true
}

/// Appends to `out` every link of `links` matching `p`, in candidate order,
/// with its captured version attached.
fn append_matches(links: &Vec<Link>, p: &Pattern, out: &mut Vec<Link>)
    ensures
        link_views(final(out)@) == link_views(old(out)@) + matched_links(p@, link_views(links@)),
{
    let ghost lv = link_views(links@);
    let ghost out0 = old(out)@;
    proof {
        assert(lv.take(0) =~= Seq::<LinkView>::empty());
        assert(link_views(out@) =~= link_views(out0) + matched_links(p@, lv.take(0)));
    }
    let mut i: usize = 0;
    while i < links.len()
        invariant
            i <= links@.len(),
            lv == link_views(links@),
            link_views(out@) == link_views(out0) + matched_links(p@, lv.take(i as int)),
        decreases links@.len() - i,
    {
        proof {
            assert(lv.take(i + 1).drop_last() =~= lv.take(i as int));
            assert(lv.take(i + 1).last() == lv[i as int]);
            assert(lv[i as int] == links@[i as int]@);
        }
        let link = &links[i];
        match p.capture_version(link.href.as_str()) {
            Some(captured) => {
                let version: Option<Version> = match captured {
                    Some(t) => Version::parse(t.as_str()),
                    None => None,
                };
                let added = Link { href: link.href.clone(), version };
                proof {
                    assert(added@ == match_link(p@, lv[i as int]));
                }
                let ghost pre = out@;
                out.push(added);
                proof {
                    assert(regex_matches(p@, lv[i as int].href));
                    assert(matched_links(p@, lv.take(i + 1)) == matched_links(
                        p@,
                        lv.take(i as int),
                    ).push(match_link(p@, lv[i as int])));
                    lemma_link_views_push(pre, added);
                    lemma_push_concat(
                        link_views(out0),
                        matched_links(p@, lv.take(i as int)),
                        match_link(p@, lv[i as int]),
                    );
                }
            },
            None => {
                proof {
                    assert(matched_links(p@, lv.take(i + 1)) == matched_links(
                        p@,
                        lv.take(i as int),
                    ));
                }
            },
        }
        i = i + 1;
    }
    proof {
        assert(lv.take(links@.len() as int) =~= lv);
    }
}

/// Classifies candidate links under the configured entries, a fold in entry
/// order: each architecture-named entry keeps its first match as the single
/// best candidate, every other entry's matches accumulate — duplicates and
/// all — in `others`.  The first entry whose pattern does not compile aborts
/// the whole classification with `UpdateError::Pattern`.
pub fn classify(links: &Vec<Link>, entries: &Vec<RegexEntry>) -> (r: Result<
    ClassificationResult,
    UpdateError,
>)
    ensures
        r is Ok <==> (forall|j: int|
            0 <= j < entries@.len() ==> regex_valid(#[trigger] entry_views(entries@)[j].pattern)),
        r is Ok ==> r->Ok_0@ == classify_spec(link_views(links@), entry_views(entries@)),
        r is Err ==> exists|j: int|
            0 <= j < entries@.len() && !regex_valid(#[trigger] entry_views(entries@)[j].pattern)
                && (forall|k: int|
                0 <= k < j ==> regex_valid(entry_views(entries@)[k].pattern)) && r->Err_0@
                == UpdateErrorView::Pattern(entry_views(entries@)[j].pattern),
{
    let ghost lv = link_views(links@);
    let ghost ev = entry_views(entries@);
    let mut arch32: Option<Link> = None;
    let mut arch64: Option<Link> = None;
    let mut others: Vec<Link> = Vec::new();
    proof {
        assert(link_views(others@) =~= Seq::<LinkView>::empty());
    }
    let mut i: usize = 0;
    while i < entries.len()
        invariant
            i <= entries@.len(),
            lv == link_views(links@),
            ev == entry_views(entries@),
            forall|k: int| 0 <= k < i ==> regex_valid(#[trigger] ev[k].pattern),
            ({
                let acc = classify_spec(lv, ev.take(i as int));
                &&& (match arch32 {
                    Some(l) => Some(l@),
                    None => None,
                }) == acc.arch32
                &&& (match arch64 {
                    Some(l) => Some(l@),
                    None => None,
                }) == acc.arch64
                &&& link_views(others@) == acc.others
            }),
        decreases entries@.len() - i,
    {
        proof {
            assert(ev.take(i + 1).drop_last() =~= ev.take(i as int));
            assert(ev.take(i + 1).last() == ev[i as int]);
            assert(ev[i as int] == entries@[i as int]@);
        }
        let entry = &entries[i];
        let p = match Pattern::compile(entry.pattern.as_str()) {
            Ok(p) => p,
            Err(err) => {
                proof {
                    assert(0 <= i < entries@.len() && !regex_valid(ev[i as int].pattern) && (
                    forall|k: int| 0 <= k < i ==> regex_valid(ev[k].pattern)) && err@
                        == UpdateErrorView::Pattern(ev[i as int].pattern));
                }
                return Err(err);
            },
        };
        if name_matches(entry.name.as_str(), "arch32") {
            let mut m: Vec<Link> = Vec::new();
            proof {
                assert(link_views(m@) =~= Seq::<LinkView>::empty());
            }
            append_matches(links, &p, &mut m);
            if m.len() > 0 {
                proof {
                    assert(link_views(m@)[0] == m@[0]@);
                }
                arch32 = Some(m.remove(0));
            } else {
                arch32 = None;
            }
        } else if name_matches(entry.name.as_str(), "arch64") {
            let mut m: Vec<Link> = Vec::new();
            proof {
                assert(link_views(m@) =~= Seq::<LinkView>::empty());
            }
            append_matches(links, &p, &mut m);
            if m.len() > 0 {
                proof {
                    assert(link_views(m@)[0] == m@[0]@);
                }
                arch64 = Some(m.remove(0));
            } else {
                arch64 = None;
            }
        } else {
            append_matches(links, &p, &mut others);
        }
        i = i + 1;
    }
    proof {
        assert(ev.take(entries@.len() as int) =~= ev);
    }
    Ok(ClassificationResult { arch32, arch64, others })
}

} // verus!
