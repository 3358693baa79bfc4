//! Copies and comparisons of the text values that a job record carries, stated
//! over their character sequences.

use vstd::prelude::*;

verus! {

/// Copies an optional text.
pub fn clone_opt_text(o: &Option<String>) -> (r: Option<String>)
    ensures
        r.deep_view() == o.deep_view(),
{
    match o {
        Some(s) => Some(s.clone()),
        None => None,
    }
}

/// Whether two optional texts hold the same characters, or are both absent.
pub fn same_opt_text(a: &Option<String>, b: &Option<String>) -> (r: bool)
    ensures
        r == (a.deep_view() == b.deep_view()),
{
    match (a, b) {
        (Some(x), Some(y)) => *x == *y,
        (None, None) => true,
        _ => false,
    }
}

/// Copies a list of texts, keeping their order.
pub fn clone_texts(v: &Vec<String>) -> (r: Vec<String>)
    ensures
        r.deep_view() == v.deep_view(),
{
    let mut r: Vec<String> = Vec::new();
    let mut i: usize = 0;
    while i < v.len()
        invariant
            0 <= i <= v.len(),
            r.len() == i,
            forall|j: int| 0 <= j < i ==> (#[trigger] r@[j])@ == v@[j]@,
        decreases v.len() - i,
    {
        r.push(v[i].clone());
        i = i + 1;
    }
    assert(r.deep_view() =~= v.deep_view());
    r
}

/// Whether two lists of texts are equal item by item.
pub fn same_texts(a: &Vec<String>, b: &Vec<String>) -> (r: bool)
    ensures
        r == (a.deep_view() == b.deep_view()),
{
    if a.len() != b.len() {
        assert(a.deep_view().len() != b.deep_view().len());
        return false;
    }
    let mut i: usize = 0;
    while i < a.len()
        invariant
            0 <= i <= a.len(),
            a.len() == b.len(),
            forall|j: int| 0 <= j < i ==> (#[trigger] a@[j])@ == b@[j]@,
        decreases a.len() - i,
    {
        if a[i] != b[i] {
            assert(a.deep_view()[i as int] != b.deep_view()[i as int]);
            return false;
        }
        i = i + 1;
    }
    assert(a.deep_view() =~= b.deep_view());
    true
}

} // verus!
