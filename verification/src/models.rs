//! Windows as listed to the user, and how a list of them is ordered.

use vstd::prelude::*;

use crate::sorting::{stable_sort, insert_back, total_preorder, lemma_stable_sort_sorted, lemma_stable_sort_permutation, sorted_by};
use crate::text::{text_le, text_le_exec, lexicographic_le, lemma_text_le_lexicographic, lemma_text_le_total, lemma_text_le_transitive};

verus! {

broadcast use vstd::seq_lib::group_seq_properties, vstd::seq::group_seq_axioms;

/// The column that a window list is ordered by.
#[derive(Debug, Clone, Copy, PartialEq, Eq, Structural)]
pub enum SortBy {
    Index,
    AppName,
    Pid,
    Hwnd,
    Title,
    ExecutablePath,
    Protected,
}

/// Ascending or descending order.
#[derive(Debug, Clone, Copy, PartialEq, Eq, Structural)]
pub enum SortOrder {
    Asc,
    Desc,
}

/// A visible top-level window.
#[derive(Debug, Clone)]
pub struct WindowInfo {
    pub index: usize,
    pub app_name: String,
    pub pid: u32,
    pub hwnd: isize,
    pub title: String,
    pub executable_path: String,
    pub is_protected: bool,
    pub window_type: String,
}

/// `a` comes no later than `b` by the column `by`, ascending; `false`
/// comes before `true`.
pub open spec fn column_le(a: WindowInfo, b: WindowInfo, by: SortBy) -> bool {
    match by {
        SortBy::Index => a.index <= b.index,
        SortBy::AppName => text_le(a.app_name@, b.app_name@),
        SortBy::Pid => a.pid <= b.pid,
        SortBy::Hwnd => a.hwnd <= b.hwnd,
        SortBy::Title => text_le(a.title@, b.title@),
        SortBy::ExecutablePath => text_le(a.executable_path@, b.executable_path@),
        SortBy::Protected => !a.is_protected || b.is_protected,
    }
}

/// The comparator of a window list: by the column, turned round for
/// descending order.
pub open spec fn window_le(by: SortBy, order: SortOrder) -> spec_fn(WindowInfo, WindowInfo) -> bool {
    |a: WindowInfo, b: WindowInfo|
        match order {
            SortOrder::Asc => column_le(a, b, by),
            SortOrder::Desc => column_le(b, a, by),
        }
}

/// The text columns order windows by the whole text, character by
/// character (as `String`'s order does), and the other columns by their
/// number or flag.
pub proof fn lemma_column_le_meaning(a: WindowInfo, b: WindowInfo)
    ensures
        column_le(a, b, SortBy::Title) == lexicographic_le(a.title@, b.title@),
        column_le(a, b, SortBy::AppName) == lexicographic_le(a.app_name@, b.app_name@),
        column_le(a, b, SortBy::ExecutablePath) == lexicographic_le(a.executable_path@, b.executable_path@),
        column_le(a, b, SortBy::Index) == (a.index <= b.index),
        column_le(a, b, SortBy::Pid) == (a.pid <= b.pid),
        column_le(a, b, SortBy::Hwnd) == (a.hwnd <= b.hwnd),
        column_le(a, b, SortBy::Protected) == (!a.is_protected || b.is_protected),
{
    lemma_text_le_lexicographic(a.title@, b.title@);
    lemma_text_le_lexicographic(a.app_name@, b.app_name@);
    lemma_text_le_lexicographic(a.executable_path@, b.executable_path@);
}

/// Every column, in either direction, orders windows totally.
pub proof fn lemma_window_le_total_preorder(by: SortBy, order: SortOrder)
    ensures
        total_preorder(window_le(by, order)),
{
    let le = window_le(by, order);
    assert forall|a: WindowInfo, b: WindowInfo| #[trigger] le(a, b) || le(b, a) by {
        lemma_text_le_total(a.app_name@, b.app_name@);
        lemma_text_le_total(a.title@, b.title@);
        lemma_text_le_total(a.executable_path@, b.executable_path@);
    }
    assert forall|a: WindowInfo, b: WindowInfo, c: WindowInfo|
        #[trigger] le(a, b) && #[trigger] le(b, c) implies le(a, c) by {
        match order {
            SortOrder::Asc => {
                if by == SortBy::AppName {
                    lemma_text_le_transitive(a.app_name@, b.app_name@, c.app_name@);
                } else if by == SortBy::Title {
                    lemma_text_le_transitive(a.title@, b.title@, c.title@);
                } else if by == SortBy::ExecutablePath {
                    lemma_text_le_transitive(a.executable_path@, b.executable_path@, c.executable_path@);
                }
            },
            SortOrder::Desc => {
                if by == SortBy::AppName {
                    lemma_text_le_transitive(c.app_name@, b.app_name@, a.app_name@);
                } else if by == SortBy::Title {
                    lemma_text_le_transitive(c.title@, b.title@, a.title@);
                } else if by == SortBy::ExecutablePath {
                    lemma_text_le_transitive(c.executable_path@, b.executable_path@, a.executable_path@);
                }
            },
        }
    }
}

/// Sorting a window list gives an ordered list of the same windows.
pub proof fn lemma_window_sort_ordered_permutation(items: Seq<WindowInfo>, by: SortBy, order: SortOrder)
    ensures
        sorted_by(stable_sort(items, window_le(by, order)), window_le(by, order)),
        stable_sort(items, window_le(by, order)).to_multiset() =~= items.to_multiset(),
{
    lemma_window_le_total_preorder(by, order);
    lemma_stable_sort_sorted(items, window_le(by, order));
    lemma_stable_sort_permutation(items, window_le(by, order));
}

/// Sorting an already sorted list changes nothing.
pub proof fn lemma_window_sort_idempotent(items: Seq<WindowInfo>, by: SortBy, order: SortOrder)
    ensures
        stable_sort(stable_sort(items, window_le(by, order)), window_le(by, order)) == stable_sort(items, window_le(by, order)),
{
    lemma_window_le_total_preorder(by, order);
    crate::sorting::lemma_stable_sort_idempotent(items, window_le(by, order));
}

fn column_le_exec(a: &WindowInfo, b: &WindowInfo, by: SortBy) -> (r: bool)
    ensures
        r == column_le(*a, *b, by),
{
    match by {
        SortBy::Index => a.index <= b.index,
        SortBy::AppName => text_le_exec(&a.app_name, &b.app_name),
        SortBy::Pid => a.pid <= b.pid,
        SortBy::Hwnd => a.hwnd <= b.hwnd,
        SortBy::Title => text_le_exec(&a.title, &b.title),
        SortBy::ExecutablePath => text_le_exec(&a.executable_path, &b.executable_path),
        SortBy::Protected => !a.is_protected || b.is_protected,
    }
}

fn window_le_exec(a: &WindowInfo, b: &WindowInfo, by: SortBy, order: SortOrder) -> (r: bool)
    ensures
        r == window_le(by, order)(*a, *b),
{
    match order {
        SortOrder::Asc => column_le_exec(a, b, by),
        SortOrder::Desc => column_le_exec(b, a, by),
    }
}

/// An empty window record: every number zero, every text empty, not
/// protected.
fn placeholder_window() -> (r: WindowInfo)
    ensures
        r.index == 0,
        r.app_name@ == Seq::<char>::empty(),
        r.pid == 0,
        r.hwnd == 0,
        r.title@ == Seq::<char>::empty(),
        r.executable_path@ == Seq::<char>::empty(),
        !r.is_protected,
        r.window_type@ == Seq::<char>::empty(),
{
    WindowInfo {
        index: 0,
        app_name: String::new(),
        pid: 0,
        hwnd: 0,
        title: String::new(),
        executable_path: String::new(),
        is_protected: false,
        window_type: String::new(),
    }
}

fn swap_adjacent(items: &mut [WindowInfo], j: usize)
    requires
        0 < j < old(items)@.len(),
    ensures
        final(items)@ == old(items)@.update(j - 1, old(items)@[j as int]).update(j as int, old(items)@[j - 1]),
{
    let mut tmp = placeholder_window();
    std::mem::swap(&mut items[j - 1], &mut tmp);
    std::mem::swap(&mut items[j], &mut tmp);
    std::mem::swap(&mut items[j - 1], &mut tmp);
}

impl WindowInfo {
    /// Orders `items` by the column `by` in the direction `order`, stably:
    /// windows that compare equal keep their relative order.
    pub fn sort(items: &mut [Self], by: &SortBy, order: &SortOrder)
        ensures
            final(items)@ == stable_sort(old(items)@, window_le(*by, *order)),
    {
        let by = *by;
        let order = *order;
        let ghost le = window_le(by, order);
        let ghost orig = items@;
        let n = items.len();
        let mut i: usize = 0;
        while i < n
            invariant
                n == items@.len(),
                orig.len() == n,
                le == window_le(by, order),
                i <= n,
                items@.take(i as int) == stable_sort(orig.take(i as int), le),
                items@.skip(i as int) == orig.skip(i as int),
            decreases n - i,
        {
            let ghost pre = items@.take(i as int);
            let ghost x = orig[i as int];
            proof {
                assert(orig.take(i + 1).drop_last() == orig.take(i as int));
                assert(orig.take(i + 1).last() == x);
                assert(items@[i as int] == items@.skip(i as int)[0]);
                crate::sorting::lemma_stable_sort_len(orig.take(i as int), le);
            }
            let mut j: usize = i;
            while j > 0 && !window_le_exec(&items[j - 1], &items[j], by, order)
                invariant
                    n == items@.len(),
                    le == window_le(by, order),
                    i < n,
                    j <= i,
                    pre.len() == i,
                    items@.take(j as int) == pre.take(j as int),
                    items@[j as int] == x,
                    items@.subrange(j + 1, i + 1) == pre.subrange(j as int, i as int),
                    items@.skip(i + 1) == orig.skip(i + 1),
                    insert_back(pre, x, le) == insert_back(pre.take(j as int), x, le) + pre.subrange(j as int, i as int),
                decreases j,
            {
                let ghost before = items@;
                proof {
                    let pj = pre.take(j as int);
                    assert(pj.drop_last() == pre.take(j - 1));
                    assert(pj.last() == pre[j - 1]);
                    assert(before[j - 1] == pre[j - 1]);
                    assert(insert_back(pj, x, le) == insert_back(pre.take(j - 1), x, le).push(pre[j - 1]));
                    assert(pre.subrange(j - 1, i as int) == seq![pre[j - 1]] + pre.subrange(j as int, i as int));
                }
                swap_adjacent(items, j);
                j = j - 1;
                proof {
                    assert(items@.take(j as int) =~= pre.take(j as int));
                    assert(items@.subrange(j + 1, i + 1) =~= pre.subrange(j as int, i as int));
                    assert(items@.skip(i + 1) =~= orig.skip(i + 1));
                }
            }
            proof {
                let pj = pre.take(j as int);
                if j > 0 {
                    assert(pj.last() == items@[j - 1]);
                    assert(insert_back(pj, x, le) == pj.push(x));
                } else {
                    assert(pj =~= Seq::<WindowInfo>::empty());
                    assert(insert_back(pj, x, le) =~= seq![x]);
                }
                assert(stable_sort(orig.take(i + 1), le) == insert_back(pre, x, le));
                assert(items@.take(i + 1) =~= pj.push(x) + pre.subrange(j as int, i as int));
                assert(items@.skip(i + 1) == orig.skip(i + 1));
            }
            i = i + 1;
        }
        proof {
            assert(items@.take(n as int) == items@);
            assert(orig.take(n as int) == orig);
        }
    }
}

} // verus!
