//! The version range of one field, and the rule by which the declarations of
//! several annotations combine into one.

use vstd::prelude::*;
use crate::token::{Literal, LiteralView, Place};

verus! {

/// Why the annotations of a field were refused.
#[derive(Clone, Debug, PartialEq, Eq)]
pub enum Error {
    /// Redundant attribute argument: a bound was declared a second time.
    /// `first` is where the bound was declared first, `again` where it was
    /// declared once more.
    Redundant { first: Place, again: Place },
    /// The arguments do not follow the grammar: the token at `at` was not
    /// expected there (or the arguments ended there, where `at.token` is
    /// their number).
    Syntax { at: Place },
}

/// The bounds that the annotations of one field declare: the first version in
/// which the field is present, and the last. Each is declared at most once.
#[derive(Clone, Debug, PartialEq, Eq)]
pub struct VersionMeta {
    pub since: Option<Literal>,
    pub until: Option<Literal>,
}

/// What a `VersionMeta` stands for: its two bounds, each where declared.
pub struct MetaView {
    pub since: Option<LiteralView>,
    pub until: Option<LiteralView>,
}

/// A bound by what it stands for.
pub open spec fn bound_view(bound: Option<Literal>) -> Option<LiteralView> {
    match bound {
        Some(l) => Some(l@),
        None => None,
    }
}

impl View for VersionMeta {
    type V = MetaView;

    open spec fn view(&self) -> MetaView {
        MetaView { since: bound_view(self.since), until: bound_view(self.until) }
    }
}

/// The descriptors of a list, each by what it stands for.
pub open spec fn metas_view(list: Seq<VersionMeta>) -> Seq<MetaView> {
    list.map_values(|m: VersionMeta| m@)
}

/// A descriptor or a failure, the descriptor by what it stands for.
pub open spec fn outcome(r: Result<VersionMeta, Error>) -> Result<MetaView, Error> {
    match r {
        Ok(m) => Ok(m@),
        Err(e) => Err(e),
    }
}

/// One bound out of two declarations of it: the one that is there, and a
/// failure where both are.
pub open spec fn either_of(a: Option<LiteralView>, b: Option<LiteralView>) -> Result<Option<LiteralView>, Error> {
    match (a, b) {
        (Some(x), Some(y)) => Err(Error::Redundant { first: x.place, again: y.place }),
        (Some(x), None) => Ok(Some(x)),
        (None, y) => Ok(y),
    }
}

/// Two descriptors combined: bound by bound, `since` first.
pub open spec fn merged(a: MetaView, b: MetaView) -> Result<MetaView, Error> {
    match either_of(a.since, b.since) {
        Err(e) => Err(e),
        Ok(since) => match either_of(a.until, b.until) {
            Err(e) => Err(e),
            Ok(until) => Ok(MetaView { since, until }),
        },
    }
}

/// The descriptors `list[from..]` combined into `acc`, from left to right,
/// up to the first failure.
pub open spec fn merged_all(acc: MetaView, list: Seq<MetaView>, from: int) -> Result<MetaView, Error>
    decreases list.len() - from,
{
    if from < 0 || from >= list.len() {
        Ok(acc)
    } else {
        match merged(acc, list[from]) {
            Err(e) => Err(e),
            Ok(m) => merged_all(m, list, from + 1),
        }
    }
}

fn either(a: Option<Literal>, b: Option<Literal>) -> (r: Result<Option<Literal>, Error>)
    ensures
        match r {
            Ok(v) => either_of(bound_view(a), bound_view(b)) == Ok::<Option<LiteralView>, Error>(bound_view(v)),
            Err(e) => either_of(bound_view(a), bound_view(b)) == Err::<Option<LiteralView>, Error>(e),
        },
{
    match (a, b) {
        (Some(x), Some(y)) => Err(Error::Redundant { first: x.place, again: y.place }),
        (Some(x), None) => Ok(Some(x)),
        (None, y) => Ok(y),
    }
}

impl MetaView {
    /// The descriptor of a field without declarations.
    pub open spec fn empty() -> MetaView {
        MetaView { since: None, until: None }
    }
}

impl VersionMeta {
    /// The descriptor that declares nothing.
    pub fn new() -> (r: VersionMeta)
        ensures
            r@ == MetaView::empty(),
    {
        VersionMeta { since: None, until: None }
    }

    /// A descriptor with the same bounds.
    pub fn dup(&self) -> (r: VersionMeta)
        ensures
            r@ == self@,
    {
        let since = match &self.since {
            Some(l) => Some(l.dup()),
            None => None,
        };
        let until = match &self.until {
            Some(l) => Some(l.dup()),
            None => None,
        };
        VersionMeta { since, until }
    }

    /// Combines two descriptors. A bound that only one of them declares is
    /// carried over; one that both declare is refused, `since` before `until`.
    pub fn merge(self, other: VersionMeta) -> (r: Result<VersionMeta, Error>)
        ensures
            outcome(r) == merged(self@, other@),
    {
        let since = match either(self.since, other.since) {
            Ok(v) => v,
            Err(e) => { return Err(e); },
        };
        let until = match either(self.until, other.until) {
            Ok(v) => v,
            Err(e) => { return Err(e); },
        };
        Ok(VersionMeta { since, until })
    }

    /// Combines every descriptor of `list` into `self`, from left to right,
    /// and stops at the first bound that is declared again.
    pub fn merge_all(self, list: &Vec<VersionMeta>) -> (r: Result<VersionMeta, Error>)
        ensures
            outcome(r) == merged_all(self@, metas_view(list@), 0),
    {
        let mut acc = self;
        let mut i: usize = 0;
        while i < list.len()
            invariant
                i <= list.len(),
                merged_all(acc@, metas_view(list@), i as int) == merged_all(self@, metas_view(list@), 0),
            decreases list.len() - i,
        {
            match acc.merge(list[i].dup()) {
                Ok(m) => { acc = m; },
                Err(e) => { return Err(e); },
            }
            i = i + 1;
        }
        Ok(acc)
    }
}

} // verus!
