use vstd::prelude::*;
use crate::version::Version;

verus! {

/// A hyperlink found on a fetched page, with the version its matched pattern
/// captured, when one did.
#[derive(Debug)]
pub struct Link {
    pub href: String,
    pub version: Option<Version>,
}

/// Ghost image of a `Link`.
pub struct LinkView {
    pub href: Seq<char>,
    pub version: Option<Seq<u64>>,
}

impl View for Link {
    type V = LinkView;

    open spec fn view(&self) -> LinkView {
        LinkView {
            href: self.href@,
            version: match self.version {
                Some(v) => Some(v@),
                None => None,
            },
        }
    }
}

/// One configured classification entry: a name, compared case-insensitively
/// against `arch32` and `arch64`, and a regex pattern that may hold a capture
/// group named `version`.  Entry order is significant.
#[derive(Debug)]
pub struct RegexEntry {
    pub name: String,
    pub pattern: String,
}

/// Ghost image of a `RegexEntry`.
pub struct RegexEntryView {
    pub name: Seq<char>,
    pub pattern: Seq<char>,
}

impl View for RegexEntry {
    type V = RegexEntryView;

    open spec fn view(&self) -> RegexEntryView {
        RegexEntryView { name: self.name@, pattern: self.pattern@ }
    }
}

/// The views of a link list, in order.
pub open spec fn link_views(s: Seq<Link>) -> Seq<LinkView> {
    s.map_values(|l: Link| l@)
}

/// The views of an entry list, in order.
pub open spec fn entry_views(s: Seq<RegexEntry>) -> Seq<RegexEntryView> {
    s.map_values(|e: RegexEntry| e@)
}

/// Where a link ends up: one best candidate per architecture slot, and every
/// other match, in entry then candidate order, in `others`.
#[derive(Debug)]
pub struct ClassificationResult {
    pub arch32: Option<Link>,
    pub arch64: Option<Link>,
    pub others: Vec<Link>,
}

/// Ghost image of a `ClassificationResult`.
pub struct ClassificationView {
    pub arch32: Option<LinkView>,
    pub arch64: Option<LinkView>,
    pub others: Seq<LinkView>,
}

impl View for ClassificationResult {
    type V = ClassificationView;

    open spec fn view(&self) -> ClassificationView {
        ClassificationView {
            arch32: match self.arch32 {
                Some(l) => Some(l@),
                None => None,
            },
            arch64: match self.arch64 {
                Some(l) => Some(l@),
                None => None,
            },
            others: link_views(self.others@),
        }
    }
}

} // verus!
