//! Element-level operator primitives over a small dynamic value type.
//!
//! These work pointwise on pairs of elements of equal kind; mixed kinds
//! and out-of-range arithmetic are excluded up front rather than trapped
//! at run time.

use vstd::prelude::*;
use vstd::string::StringExecFns;

verus! {

/// A dynamically typed operand: a string, an unsigned or signed integer,
/// or a truth value.
#[derive(Debug)]
pub enum Element {
    STR(String),
    UINT(u64),
    INT(i64),
    BOOL(bool),
}

impl Clone for Element {
    fn clone(&self) -> (r: Self)
        ensures
            r == *self,
    {
        match self {
            Element::STR(s) => Element::STR(s.clone()),
            Element::UINT(u) => Element::UINT(*u),
            Element::INT(i) => Element::INT(*i),
            Element::BOOL(b) => Element::BOOL(*b),
        }
    }
}

/// Whether two elements can be added: equal kinds, and integer sums in
/// range.  Truth values add by exclusive or.
pub open spec fn addable(e1: Element, e2: Element) -> bool {
    match (e1, e2) {
        (Element::STR(_), Element::STR(_)) => true,
        (Element::UINT(a), Element::UINT(b)) => a + b <= u64::MAX,
        (Element::INT(a), Element::INT(b)) => i64::MIN <= a + b <= i64::MAX,
        (Element::BOOL(_), Element::BOOL(_)) => true,
        _ => false,
    }
}

/// Whether `e2` can be subtracted from `e1`: equal integer or truth
/// kinds, differences in range; strings do not subtract.
pub open spec fn subtractable(e1: Element, e2: Element) -> bool {
    match (e1, e2) {
        (Element::UINT(a), Element::UINT(b)) => b <= a,
        (Element::INT(a), Element::INT(b)) => i64::MIN <= a - b <= i64::MAX,
        (Element::BOOL(_), Element::BOOL(_)) => true,
        _ => false,
    }
}

/// Whether two elements are of the same kind, so that equality is
/// meaningful.
pub open spec fn same_kind(e1: Element, e2: Element) -> bool {
    match (e1, e2) {
        (Element::STR(_), Element::STR(_)) => true,
        (Element::UINT(_), Element::UINT(_)) => true,
        (Element::INT(_), Element::INT(_)) => true,
        (Element::BOOL(_), Element::BOOL(_)) => true,
        _ => false,
    }
}

/// Pass `e1` through when `e2` is the truth value `true`, and drop it
/// otherwise — including when `e2` is not a truth value at all.
pub fn filter(e1: &Element, e2: &Element) -> (r: Option<Element>)
    ensures
        match r {
            Some(v) => *e2 == Element::BOOL(true) && v == *e1,
            None => *e2 != Element::BOOL(true),
        },
{
    if let Element::BOOL(f) = e2 {
        if *f {
            return Some(e1.clone());
        }
    }
    None
}

/// Add two elements of equal kind: strings concatenate, integers add,
/// truth values combine by exclusive or.
pub fn add(e1: &Element, e2: &Element) -> (r: Element)
    requires
        addable(*e1, *e2),
    ensures
        match (e1, e2) {
            (Element::STR(a), Element::STR(b)) => r matches Element::STR(s) && s@ == a@ + b@,
            (Element::UINT(a), Element::UINT(b)) => r == Element::UINT((*a + *b) as u64),
            (Element::INT(a), Element::INT(b)) => r == Element::INT((*a + *b) as i64),
            (Element::BOOL(a), Element::BOOL(b)) => r == Element::BOOL(*a != *b),
            _ => false,
        },
{
    match (e1, e2) {
        (Element::STR(a), Element::STR(b)) => {
            let mut s = a.clone();
            s.append(b.as_str());
            Element::STR(s)
        },
        (Element::UINT(a), Element::UINT(b)) => Element::UINT(*a + *b),
        (Element::INT(a), Element::INT(b)) => Element::INT(*a + *b),
        (Element::BOOL(a), Element::BOOL(b)) => Element::BOOL(*a ^ *b),
        _ => {
            proof {
                assert(false);
            }
            Element::BOOL(false)
        },
    }
}

/// Subtract `e2` from `e1`, kinds and ranges permitting; truth values
/// combine by exclusive or.
pub fn sub(e1: &Element, e2: &Element) -> (r: Element)
    requires
        subtractable(*e1, *e2),
    ensures
        match (e1, e2) {
            (Element::UINT(a), Element::UINT(b)) => r == Element::UINT((*a - *b) as u64),
            (Element::INT(a), Element::INT(b)) => r == Element::INT((*a - *b) as i64),
            (Element::BOOL(a), Element::BOOL(b)) => r == Element::BOOL(*a != *b),
            _ => false,
        },
{
    match (e1, e2) {
        (Element::UINT(a), Element::UINT(b)) => Element::UINT(*a - *b),
        (Element::INT(a), Element::INT(b)) => Element::INT(*a - *b),
        (Element::BOOL(a), Element::BOOL(b)) => Element::BOOL(*a ^ *b),
        _ => {
            proof {
                assert(false);
            }
            Element::BOOL(false)
        },
    }
}

/// Compare two elements of equal kind for equality; strings compare by
/// their characters.
pub fn eq(e1: &Element, e2: &Element) -> (r: bool)
    requires
        same_kind(*e1, *e2),
    ensures
        match (e1, e2) {
            (Element::STR(a), Element::STR(b)) => r == (a@ == b@),
            (Element::UINT(a), Element::UINT(b)) => r == (a == b),
            (Element::INT(a), Element::INT(b)) => r == (a == b),
            (Element::BOOL(a), Element::BOOL(b)) => r == (a == b),
            _ => false,
        },
{
    match (e1, e2) {
        (Element::STR(a), Element::STR(b)) => *a == *b,
        (Element::UINT(a), Element::UINT(b)) => *a == *b,
        (Element::INT(a), Element::INT(b)) => *a == *b,
        (Element::BOOL(a), Element::BOOL(b)) => *a == *b,
        _ => {
            proof {
                assert(false);
            }
            false
        },
    }
}

} // verus!
