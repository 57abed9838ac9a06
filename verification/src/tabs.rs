use vstd::prelude::*;
use crate::screen::{
    next_tab_from, prev_tab_upto, tabs_before, tabs_ordered, tabs_with, tabs_without,
};

verus! {

/// The first tab stop to the right of column `x`, if any.
pub fn next_tab(tabs: &Vec<usize>, x: usize) -> (stop: Option<usize>)
    ensures
        stop == next_tab_from(tabs@, x, 0),
{
    let mut i: usize = 0;
    while i < tabs.len()
        invariant
            i <= tabs@.len(),
            next_tab_from(tabs@, x, 0) == next_tab_from(tabs@, x, i as int),
        decreases tabs@.len() - i,
    {
        if tabs[i] > x {
            return Some(tabs[i]);
        }
        i += 1;
    }
    None
}

/// The last tab stop to the left of column `x`, if any.
pub fn prev_tab(tabs: &Vec<usize>, x: usize) -> (stop: Option<usize>)
    ensures
        stop == prev_tab_upto(tabs@, x, tabs@.len() as int),
{
    let mut i: usize = tabs.len();
    while i > 0
        invariant
            i <= tabs@.len(),
            prev_tab_upto(tabs@, x, tabs@.len() as int) == prev_tab_upto(tabs@, x, i as int),
        decreases i,
    {
        if tabs[i - 1] < x {
            return Some(tabs[i - 1]);
        }
        i -= 1;
    }
    None
}

/// In ordered tab stops, the number of stops left of `x` is the index at
/// which the stops left of `x` end.
pub proof fn lemma_tabs_before(tabs: Seq<usize>, x: usize, p: int)
    requires
        0 <= p <= tabs.len(),
        forall|i: int| 0 <= i < p ==> tabs[i] < x,
        forall|i: int| p <= i < tabs.len() ==> tabs[i] >= x,
    ensures
        tabs_before(tabs, x) == p,
    decreases tabs.len(),
{
    if tabs.len() > 0 {
        let rest = tabs.drop_last();
        if p == tabs.len() {
            lemma_tabs_before(rest, x, p - 1);
        } else {
            lemma_tabs_before(rest, x, p);
        }
    }
}

/// Sets a tab stop at column `x`.
pub fn add_tab(tabs: &mut Vec<usize>, x: usize, width: usize)
    requires
        tabs_ordered(old(tabs)@, width),
        x < width,
    ensures
        tabs_ordered(final(tabs)@, width),
        final(tabs)@ == tabs_with(old(tabs)@, x),
{
    let ghost before = tabs@;
    let mut p: usize = 0;
    while p < tabs.len() && tabs[p] < x
        invariant
            p <= tabs@.len(),
            tabs@ == before,
            forall|i: int| 0 <= i < p ==> tabs@[i] < x,
        decreases tabs@.len() - p,
    {
        p += 1;
    }
    if p < tabs.len() && tabs[p] == x {
        assert(before.contains(x));
    } else {
        proof {
            assert forall|i: int| p <= i < before.len() implies before[i] >= x by {
                if i > p {
                    assert(before[p as int] < before[i]);
                }
            }
            lemma_tabs_before(before, x, p as int);
            if before.contains(x) {
                let i = choose|i: int| 0 <= i < before.len() && before[i] == x;
                if i > p {
                    assert(before[p as int] < before[i]);
                }
                assert(false);
            }
        }
        tabs.insert(p, x);
    }
}

/// Removes the tab stop at column `x`, if there is one.
pub fn remove_tab(tabs: &mut Vec<usize>, x: usize, width: usize)
    requires
        tabs_ordered(old(tabs)@, width),
    ensures
        tabs_ordered(final(tabs)@, width),
        final(tabs)@ == tabs_without(old(tabs)@, x),
{
    let ghost before = tabs@;
    let mut p: usize = 0;
    while p < tabs.len() && tabs[p] != x
        invariant
            p <= tabs@.len(),
            tabs@ == before,
            forall|i: int| 0 <= i < p ==> tabs@[i] != x,
        decreases tabs@.len() - p,
    {
        p += 1;
    }
    if p < tabs.len() {
        proof {
            assert(before.contains(x));
            let q = before.index_of(x);
            assert(0 <= q < before.len() && before[q] == x);
            if q < p {
                assert(before[q] < before[p as int]);
            } else if q > p {
                assert(before[p as int] < before[q]);
            }
        }
        tabs.remove(p);
    } else {
        assert(!before.contains(x));
    }
}

} // verus!
