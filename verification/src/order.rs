//! The order in which groups are listed.
use std::cmp::Ordering;
use vstd::prelude::*;

use crate::app_group::{AppGroup, FilterType, FilterView};
use crate::text::{
    chars_of, common_prefix, common_prefix_len, lemma_common_prefix, lemma_common_prefix_symmetric, lowercase,
    to_lowercase,
};

verus! {

/// Lexicographic order of character sequences, decided at the first
/// position where they differ (a proper prefix comes first); for strings this
/// is the order of `str`'s `Ord`, since UTF-8 keeps code point order.
pub open spec fn lex_order(a: Seq<char>, b: Seq<char>) -> Ordering {
    let k = common_prefix(a, b);
    if k == a.len() && k == b.len() {
        Ordering::Equal
    } else if k == a.len() {
        Ordering::Less
    } else if k == b.len() {
        Ordering::Greater
    } else if a[k] < b[k] {
        Ordering::Less
    } else {
        Ordering::Greater
    }
}

/// The rank of a filter kind: no filter first, then category filters, then
/// ID lists.
pub open spec fn filter_rank(f: FilterView) -> int {
    match f {
        FilterView::NoFilter => 0,
        FilterView::Categories { .. } => 1,
        FilterView::AppIds(_) => 2,
    }
}

/// Filters are ordered by their kind alone.
pub open spec fn filter_order(a: FilterView, b: FilterView) -> Ordering {
    if filter_rank(a) < filter_rank(b) {
        Ordering::Less
    } else if filter_rank(a) == filter_rank(b) {
        Ordering::Equal
    } else {
        Ordering::Greater
    }
}

/// The order of groups: two ID-list groups go by lower-case name; a category
/// group next to an ID-list group goes by the lower-case form of its first
/// category (by its own name when it has none) against the other's name; all
/// other pairs go by filter kind.
pub open spec fn group_order(a: AppGroup, b: AppGroup) -> Ordering {
    match (a.filter@, b.filter@) {
        (FilterView::AppIds(_), FilterView::AppIds(_)) => lex_order(lowercase(a.name@), lowercase(b.name@)),
        (FilterView::Categories { categories, .. }, FilterView::AppIds(_)) => if categories.len() > 0 {
            lex_order(lowercase(categories[0]), lowercase(b.name@))
        } else {
            lex_order(lowercase(a.name@), lowercase(b.name@))
        },
        (FilterView::AppIds(_), FilterView::Categories { categories, .. }) => if categories.len() > 0 {
            lex_order(lowercase(a.name@), lowercase(categories[0]))
        } else {
            lex_order(lowercase(a.name@), lowercase(b.name@))
        },
        (fa, fb) => filter_order(fa, fb),
    }
}

/// Compares two strings lexicographically.
pub fn compare_text(a: &str, b: &str) -> (r: Ordering)
    ensures
        r == lex_order(a@, b@),
{
    let ac = chars_of(a);
    let bc = chars_of(b);
    let k = common_prefix_len(&ac, &bc);
    proof {
        lemma_common_prefix(a@, b@);
    }
    if k == ac.len() && k == bc.len() {
        Ordering::Equal
    } else if k == ac.len() {
        Ordering::Less
    } else if k == bc.len() {
        Ordering::Greater
    } else if ac[k] < bc[k] {
        Ordering::Less
    } else {
        Ordering::Greater
    }
}

/// Compares the lower-case forms of two strings.
fn compare_lowercase(a: &str, b: &str) -> (r: Ordering)
    ensures
        r == lex_order(lowercase(a@), lowercase(b@)),
{
    let la = to_lowercase(a);
    let lb = to_lowercase(b);
    compare_text(la.as_str(), lb.as_str())
}

impl FilterType {
    /// Orders filters by kind (see [`filter_order`]).
    pub fn cmp(&self, other: &Self) -> (r: Ordering)
        ensures
            r == filter_order(self@, other@),
    {
        let a = filter_kind(self);
        let b = filter_kind(other);
        if a < b {
            Ordering::Less
        } else if a == b {
            Ordering::Equal
        } else {
            Ordering::Greater
        }
    }

    /// Always `Some` of [`Self::cmp`].
    pub fn partial_cmp(&self, other: &Self) -> (r: Option<Ordering>)
        ensures
            r == Some(filter_order(self@, other@)),
    {
        Some(self.cmp(other))
    }
}

fn filter_kind(f: &FilterType) -> (r: u8)
    ensures
        r == filter_rank(f@),
{
    match f {
        FilterType::NoFilter => 0,
        FilterType::Categories { .. } => 1,
        FilterType::AppIds(_) => 2,
    }
}

impl AppGroup {
    /// Orders groups (see [`group_order`]).
    pub fn cmp(&self, other: &Self) -> (r: Ordering)
        ensures
            r == group_order(*self, *other),
    {
        match (&self.filter, &other.filter) {
            (FilterType::AppIds(_), FilterType::AppIds(_)) => compare_lowercase(self.name.as_str(), other.name.as_str()),
            (FilterType::Categories { categories, .. }, FilterType::AppIds(_)) => {
                if categories.len() > 0 {
                    compare_lowercase(categories[0].as_str(), other.name.as_str())
                } else {
                    compare_lowercase(self.name.as_str(), other.name.as_str())
                }
            },
            (FilterType::AppIds(_), FilterType::Categories { categories, .. }) => {
                if categories.len() > 0 {
                    compare_lowercase(self.name.as_str(), categories[0].as_str())
                } else {
                    compare_lowercase(self.name.as_str(), other.name.as_str())
                }
            },
            (a, b) => a.cmp(b),
        }
    }

    /// Always `Some` of [`Self::cmp`].
    pub fn partial_cmp(&self, other: &Self) -> (r: Option<Ordering>)
        ensures
            r == Some(group_order(*self, *other)),
    {
        Some(self.cmp(other))
    }
}


/// The opposite of an ordering.
pub open spec fn reversed(o: Ordering) -> Ordering {
    match o {
        Ordering::Less => Ordering::Greater,
        Ordering::Equal => Ordering::Equal,
        Ordering::Greater => Ordering::Less,
    }
}

/// Comparing two texts the other way round gives the opposite result.
pub proof fn law_lex_order_antisymmetric(a: Seq<char>, b: Seq<char>)
    ensures
        lex_order(b, a) == reversed(lex_order(a, b)),
{
    lemma_common_prefix_symmetric(a, b);
    lemma_common_prefix(a, b);
}

/// Comparing two groups the other way round gives the opposite result.
pub proof fn law_group_order_antisymmetric(a: AppGroup, b: AppGroup)
    ensures
        group_order(b, a) == reversed(group_order(a, b)),
{
    law_lex_order_antisymmetric(lowercase(a.name@), lowercase(b.name@));
    match (a.filter@, b.filter@) {
        (FilterView::Categories { categories, .. }, FilterView::AppIds(_)) => {
            if categories.len() > 0 {
                law_lex_order_antisymmetric(lowercase(categories[0]), lowercase(b.name@));
            }
        },
        (FilterView::AppIds(_), FilterView::Categories { categories, .. }) => {
            if categories.len() > 0 {
                law_lex_order_antisymmetric(lowercase(a.name@), lowercase(categories[0]));
            }
        },
        _ => {},
    }
}
} // verus!
