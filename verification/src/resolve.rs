use vstd::prelude::*;
use crate::error::UpdateError;
use crate::error::UpdateErrorView;
use crate::links::Link;
use crate::links::LinkView;
use crate::links::link_views;
use crate::pattern::Pattern;
use crate::pattern::regex_matches;
use crate::pattern::regex_valid;

verus! {

/// How a package locates its candidate links: fetch one page and take its
/// links as they are, or fetch, filter by a pattern, and drill into the first
/// match.
#[derive(Debug)]
pub enum ParseUrlStrategy {
    Direct(String),
    FilteredWithRegex { url: String, pattern: String },
}

/// Ghost image of a `ParseUrlStrategy`.
pub enum StrategyView {
    Direct(Seq<char>),
    FilteredWithRegex { url: Seq<char>, pattern: Seq<char> },
}

impl View for ParseUrlStrategy {
    type V = StrategyView;

    open spec fn view(&self) -> StrategyView {
        match self {
            ParseUrlStrategy::Direct(u) => StrategyView::Direct(u@),
            ParseUrlStrategy::FilteredWithRegex { url, pattern } => StrategyView::FilteredWithRegex {
                url: url@,
                pattern: pattern@,
            },
        }
    }
}

/// The page a strategy fetches first.
pub open spec fn strategy_url(s: StrategyView) -> Seq<char> {
    match s {
        StrategyView::Direct(u) => u,
        StrategyView::FilteredWithRegex { url, pattern: _ } => url,
    }
}

/// The resolution state machine: await the first page, possibly await the
/// drill-down page behind the first filtered match, then hold the final
/// candidate list.
#[derive(Debug)]
pub enum ResolveState {
    AwaitingFirstFetch(ParseUrlStrategy),
    AwaitingDrillFetch(String),
    Resolved(Vec<Link>),
}

/// Ghost image of a `ResolveState`.
pub enum ResolveStateView {
    AwaitingFirstFetch(StrategyView),
    AwaitingDrillFetch(Seq<char>),
    Resolved(Seq<LinkView>),
}

impl View for ResolveState {
    type V = ResolveStateView;

    open spec fn view(&self) -> ResolveStateView {
        match self {
            ResolveState::AwaitingFirstFetch(s) => ResolveStateView::AwaitingFirstFetch(s@),
            ResolveState::AwaitingDrillFetch(u) => ResolveStateView::AwaitingDrillFetch(u@),
            ResolveState::Resolved(links) => ResolveStateView::Resolved(link_views(links@)),
        }
    }
}

/// What the caller must do next: fetch a page and feed its links back, or
/// nothing — the state is final.
#[derive(Debug)]
pub enum ResolveAction {
    Fetch(String),
    Done,
}

/// Ghost image of a `ResolveAction`.
pub enum ResolveActionView {
    Fetch(Seq<char>),
    Done,
}

impl View for ResolveAction {
    type V = ResolveActionView;

    open spec fn view(&self) -> ResolveActionView {
        match self {
            ResolveAction::Fetch(u) => ResolveActionView::Fetch(u@),
            ResolveAction::Done => ResolveActionView::Done,
        }
    }
}

/// The links of `links` whose href matches `pattern`, in document order,
/// otherwise untouched.
pub open spec fn filter_links(pattern: Seq<char>, links: Seq<LinkView>) -> Seq<LinkView>
    decreases links.len(),
{
    if links.len() == 0 {
        Seq::empty()
    } else {
        let prev = filter_links(pattern, links.drop_last());
        if regex_matches(pattern, links.last().href) {
            prev.push(links.last())
        } else {
            prev
        }
    }
}

/// Begins resolution.  A missing strategy is the fatal configuration defect
/// reported as `MissingParseUrlStrategy`; otherwise the machine awaits the
/// strategy's page.
pub fn start(strategy: Option<ParseUrlStrategy>) -> (r: Result<
    (ResolveState, ResolveAction),
    UpdateError,
>)
    ensures
        r is Err <==> strategy is None,
        r is Err ==> r->Err_0@ == UpdateErrorView::MissingParseUrlStrategy,
        r is Ok ==> r->Ok_0.0@ == ResolveStateView::AwaitingFirstFetch(strategy->0@),
        r is Ok ==> r->Ok_0.1@ == ResolveActionView::Fetch(strategy_url(strategy->0@)),
{
    match strategy {
        None => Err(UpdateError::MissingParseUrlStrategy),
        Some(s) => {
            let url = match &s {
                ParseUrlStrategy::Direct(u) => u.clone(),
                ParseUrlStrategy::FilteredWithRegex { url, pattern: _ } => url.clone(),
            };
            Ok((ResolveState::AwaitingFirstFetch(s), ResolveAction::Fetch(url)))
        },
    }
}

/// What one step on a fetched page yields.  A direct strategy resolves to the
/// page's links as they are.  A filtered strategy with no match resolves to
/// the empty list — not an error; with a match it discards the page and
/// awaits the first match's target, whose links, unfiltered, become the
/// resolution.  A resolved state absorbs the page unchanged.
pub open spec fn on_page_spec(st: ResolveStateView, page: Seq<LinkView>) -> Result<
    (ResolveStateView, ResolveActionView),
    UpdateErrorView,
> {
    match st {
        ResolveStateView::AwaitingFirstFetch(StrategyView::Direct(_)) => Ok(
            (ResolveStateView::Resolved(page), ResolveActionView::Done),
        ),
        ResolveStateView::AwaitingFirstFetch(
            StrategyView::FilteredWithRegex { url: _, pattern },
        ) => {
            if !regex_valid(pattern) {
                Err(UpdateErrorView::Pattern(pattern))
            } else {
                let m = filter_links(pattern, page);
                if m.len() == 0 {
                    Ok((ResolveStateView::Resolved(Seq::empty()), ResolveActionView::Done))
                } else {
                    Ok(
                        (
                            ResolveStateView::AwaitingDrillFetch(m[0].href),
                            ResolveActionView::Fetch(m[0].href),
                        ),
                    )
                }
            }
        },
        ResolveStateView::AwaitingDrillFetch(_) => Ok(
            (ResolveStateView::Resolved(page), ResolveActionView::Done),
        ),
        ResolveStateView::Resolved(l) => Ok((ResolveStateView::Resolved(l), ResolveActionView::Done)),
    }
}

/// Ghost image of a step's result.
pub open spec fn step_view(r: Result<(ResolveState, ResolveAction), UpdateError>) -> Result<
    (ResolveStateView, ResolveActionView),
    UpdateErrorView,
> {
    match r {
        Ok((st, a)) => Ok((st@, a@)),
        Err(e) => Err(e@),
    }
}

proof fn lemma_filter_none(pattern: Seq<char>, links: Seq<LinkView>)
    requires
        forall|k: int| 0 <= k < links.len() ==> !regex_matches(pattern, #[trigger] links[k].href),
    ensures
        filter_links(pattern, links).len() == 0,
    decreases links.len(),
{
    if links.len() > 0 {
        lemma_filter_none(pattern, links.drop_last());
    }
}

proof fn lemma_filter_first(pattern: Seq<char>, links: Seq<LinkView>, j: int)
    requires
        0 <= j < links.len(),
        regex_matches(pattern, links[j].href),
        forall|k: int| 0 <= k < j ==> !regex_matches(pattern, #[trigger] links[k].href),
    ensures
        filter_links(pattern, links).len() > 0,
        filter_links(pattern, links)[0] == links[j],
    decreases links.len(),
{
    if j == links.len() - 1 {
        lemma_filter_none(pattern, links.drop_last());
    } else {
        lemma_filter_first(pattern, links.drop_last(), j);
    }
}

/// Index of the first link whose href matches, when one does.
fn find_first_match(page: &Vec<Link>, p: &Pattern) -> (r: Option<usize>)
    ensures
        r matches Some(ix) ==> 0 <= ix < page@.len() && regex_matches(
            p@,
            link_views(page@)[ix as int].href,
        ) && (forall|k: int|
            0 <= k < ix ==> !regex_matches(p@, #[trigger] link_views(page@)[k].href)),
        r is None ==> forall|k: int|
            0 <= k < page@.len() ==> !regex_matches(p@, #[trigger] link_views(page@)[k].href),
{
    let ghost lv = link_views(page@);
    let mut i: usize = 0;
    while i < page.len()
        invariant
            i <= page@.len(),
            lv == link_views(page@),
            forall|k: int| 0 <= k < i ==> !regex_matches(p@, #[trigger] lv[k].href),
        decreases page@.len() - i,
    {
        proof {
            assert(lv[i as int] == page@[i as int]@);
        }
        if p.is_match(page[i].href.as_str()) {
            return Some(i);
        }
        i = i + 1;
    }
    None
}

/// Feeds the links of a fetched page to the machine.
pub fn on_page(state: ResolveState, page: Vec<Link>) -> (r: Result<
    (ResolveState, ResolveAction),
    UpdateError,
>)
    ensures
        step_view(r) == on_page_spec(state@, link_views(page@)),
{
    let ghost lv = link_views(page@);
    match state {
        ResolveState::AwaitingFirstFetch(ParseUrlStrategy::Direct(_)) => Ok(
            (ResolveState::Resolved(page), ResolveAction::Done),
        ),
        ResolveState::AwaitingFirstFetch(ParseUrlStrategy::FilteredWithRegex { url: _, pattern }) => {
            let p = match Pattern::compile(pattern.as_str()) {
                Ok(p) => p,
                Err(e) => {
                    return Err(e);
                },
            };
            match find_first_match(&page, &p) {
                Some(ix) => {
                    let href = page[ix].href.clone();
                    proof {
                        assert(lv[ix as int] == page@[ix as int]@);
                        lemma_filter_first(p@, lv, ix as int);
                    }
                    Ok(
                        (
                            ResolveState::AwaitingDrillFetch(href.clone()),
                            ResolveAction::Fetch(href),
                        ),
                    )
                },
                None => {
                    proof {
                        lemma_filter_none(p@, lv);
                        assert(link_views(Seq::<Link>::empty()) =~= Seq::<LinkView>::empty());
                    }
                    Ok((ResolveState::Resolved(Vec::new()), ResolveAction::Done))
                },
            }
        },
        ResolveState::AwaitingDrillFetch(_) => Ok(
            (ResolveState::Resolved(page), ResolveAction::Done),
        ),
        ResolveState::Resolved(links) => Ok((ResolveState::Resolved(links), ResolveAction::Done)),
    }
}

/// A direct strategy resolves to exactly the fetched page's links, in
/// document order, unfiltered.
pub proof fn lemma_direct_returns_page(url: Seq<char>, page: Seq<LinkView>)
    ensures
        on_page_spec(ResolveStateView::AwaitingFirstFetch(StrategyView::Direct(url)), page) == Ok::<
            _,
            UpdateErrorView,
        >((ResolveStateView::Resolved(page), ResolveActionView::Done)),
{
}

/// A filtered fetch whose pattern matches nothing resolves to the empty list;
/// it is not an error.
pub proof fn lemma_no_match_resolves_empty(url: Seq<char>, pattern: Seq<char>, page: Seq<LinkView>)
    requires
        regex_valid(pattern),
        filter_links(pattern, page).len() == 0,
    ensures
        on_page_spec(
            ResolveStateView::AwaitingFirstFetch(StrategyView::FilteredWithRegex { url, pattern }),
            page,
        ) == Ok::<_, UpdateErrorView>(
            (ResolveStateView::Resolved(Seq::empty()), ResolveActionView::Done),
        ),
{
}

/// A filtered fetch with at least one match drills into the first match's
/// target, and the second page's links — not the first page's matches —
/// become the resolution, unfiltered.
pub proof fn lemma_drill_discards_first_page(
    url: Seq<char>,
    pattern: Seq<char>,
    page1: Seq<LinkView>,
    page2: Seq<LinkView>,
)
    requires
        regex_valid(pattern),
        filter_links(pattern, page1).len() > 0,
    ensures
        ({
            let step1 = on_page_spec(
                ResolveStateView::AwaitingFirstFetch(
                    StrategyView::FilteredWithRegex { url, pattern },
                ),
                page1,
            );
            &&& step1 is Ok
            &&& step1->Ok_0.1 == ResolveActionView::Fetch(filter_links(pattern, page1)[0].href)
            &&& on_page_spec(step1->Ok_0.0, page2) == Ok::<_, UpdateErrorView>(
                (ResolveStateView::Resolved(page2), ResolveActionView::Done),
            )
        }),
{
}

} // verus!
