//! What a platform node can do, and how a composition step can fail.
use vstd::prelude::*;

verus! {

/// Why a step of composition was refused.
///
/// Every variant but `ReentrancyViolation` is a platform operation error: the
/// mutation did not reach the tree, and the caller may go on with the rest.
/// `ReentrancyViolation` reports a broken invariant of the composer itself.
#[derive(Debug, PartialEq, Eq)]
pub enum ComposeError {
    /// A handle names no node of the tree it was used with.
    DetachedNode,
    /// The child already sits in some node's child list.
    AlreadyAttached,
    /// The index lies outside the parent's child list.
    BadIndex,
    /// The platform node refused the call; the text is its own message.
    Rejected(String),
    /// The composer's parent slot is empty, or its position context does not
    /// fit the scopes of its parent.
    ReentrancyViolation,
}

impl ComposeError {
    /// Whether the error belongs to the platform operation class.
    pub open spec fn is_platform_operation(self) -> bool {
        !(self is ReentrancyViolation)
    }
}

/// The capability a platform node offers to the tree that mirrors it.
/// Properties are set through [`crate::bindings::view_helpers::UpdateProp`],
/// once for each type of value that the node takes.
///
/// A node may refuse any call. What it says of itself, it says through
/// `child_change` and `raw_given`: a node that says nothing allows every
/// outcome. The tree calls the methods only after its own checks have
/// passed: a child handed to `append_child` or `insert_child_at` is attached
/// nowhere, and an index is within the node's child list (at most its
/// length for an insertion).
pub trait PlatformViewInner: Sized {
    /// The native reference a parent needs in order to hold this node.
    type Raw;

    /// What a change of its children may make of a node: whether `after`
    /// and the result `r` can come of `before`.
    open spec fn child_change(before: Self, after: Self, r: Result<(), String>) -> bool {
        true
    }

    /// What a node may answer when asked for its native reference.
    open spec fn raw_given(node: Self, r: Result<Self::Raw, String>) -> bool {
        true
    }

    /// Puts `c` after the node's last child.
    fn append_child(&mut self, c: &Self::Raw) -> (r: Result<(), String>)
        ensures
            Self::child_change(*old(self), *final(self), r),
    ;

    /// Puts `c` before the child that is at `idx` now.
    fn insert_child_at(&mut self, c: &Self::Raw, idx: usize) -> (r: Result<(), String>)
        ensures
            Self::child_change(*old(self), *final(self), r),
    ;

    /// Detaches `c`, which stays usable.
    fn remove_child(&mut self, c: &Self::Raw) -> (r: Result<(), String>)
        ensures
            Self::child_change(*old(self), *final(self), r),
    ;

    /// Detaches the child at `idx`, which stays usable.
    fn remove_child_index(&mut self, idx: usize) -> (r: Result<(), String>)
        ensures
            Self::child_change(*old(self), *final(self), r),
    ;

    /// The node's native reference.
    fn get_raw_view(&self) -> (r: Result<Self::Raw, String>)
        ensures
            Self::raw_given(*self, r),
    ;
}

/// A platform whose nodes say of themselves that they refuse no change of
/// their children and no request for their native reference.
pub open spec fn never_refuses<V: PlatformViewInner>() -> bool {
    &&& forall|before: V, after: V, r: Result<(), String>| #[trigger]
        V::child_change(before, after, r) ==> r is Ok
    &&& forall|node: V, r: Result<V::Raw, String>| #[trigger] V::raw_given(node, r) ==> r is Ok
}

/// A platform whose nodes say of themselves that a change of their children
/// leaves them as they were.
pub open spec fn keeps_nodes<V: PlatformViewInner>() -> bool {
    forall|before: V, after: V, r: Result<(), String>| #[trigger]
        V::child_change(before, after, r) ==> after == before
}

/// Whether `r` is what a platform that never refuses owes: on such a
/// platform no call comes back as `Rejected`.
pub open spec fn as_promised<V: PlatformViewInner>(r: Result<(), ComposeError>) -> bool {
    never_refuses::<V>() ==> !(r matches Err(e) && e is Rejected)
}

} // verus!
