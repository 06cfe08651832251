//! A binary search tree searched with a comparison closure.
use vstd::prelude::*;
use core::cmp::Ordering;

verus! {

/// A binary tree.
pub struct Tree<T> {
    pub root: Option<Box<TreeNode<T>>>,
}

/// A node of a tree: its subtrees and its element.
pub struct TreeNode<T> {
    pub left: Option<Box<TreeNode<T>>>,
    pub right: Option<Box<TreeNode<T>>>,
    pub data: T,
}

/// What a search with `f` from `n` can give: at each node `f` says whether
/// the element sought is this one, below it on the left (`Less`) or on the
/// right (`Greater`).
pub open spec fn search_result<T, F: Fn(&T) -> Ordering>(n: Option<Box<TreeNode<T>>>, f: F, r: Option<T>) -> bool
    decreases n,
{
    match n {
        None => r is None,
        Some(b) => {
            ||| (call_ensures(f, (&b.data,), Ordering::Equal) && r == Some(b.data))
            ||| (call_ensures(f, (&b.data,), Ordering::Less) && search_result(b.left, f, r))
            ||| (call_ensures(f, (&b.data,), Ordering::Greater) && search_result(b.right, f, r))
        },
    }
}

/// Every node of `n` can be given to `f`.
pub open spec fn callable_on<T, F: Fn(&T) -> Ordering>(n: Option<Box<TreeNode<T>>>, f: F) -> bool
    decreases n,
{
    match n {
        None => true,
        Some(b) => call_requires(f, (&b.data,)) && callable_on(b.left, f) && callable_on(b.right, f),
    }
}

impl<T> Tree<T> {
    /// An empty tree.
    pub fn new() -> (r: Self)
        ensures
            r.root is None,
    {
        Tree { root: None }
    }

    /// Searches the tree with `f` (see `search_result`).
    pub fn find<F: Fn(&T) -> Ordering>(&self, f: F) -> (r: Option<&T>)
        requires
            callable_on(self.root, f),
        ensures
            search_result(self.root, f, match r {
                Some(x) => Some(*x),
                None => None::<T>,
            }),
    {
        find_in(&self.root, &f)
    }
}

fn find_in<'a, T, F: Fn(&T) -> Ordering>(n: &'a Option<Box<TreeNode<T>>>, f: &F) -> (r: Option<&'a T>)
    requires
        callable_on(*n, *f),
    ensures
        search_result(*n, *f, match r {
            Some(x) => Some(*x),
            None => None::<T>,
        }),
    decreases *n,
{
    match n {
        None => None,
        Some(b) => {
            let o = f(&b.data);
            match o {
                Ordering::Equal => Some(&b.data),
                Ordering::Less => find_in(&b.left, f),
                Ordering::Greater => find_in(&b.right, f),
            }
        },
    }
}

} // verus!
