//! What holds of composition as a whole: of a pass, of a rewind, and of one
//! region beside another.
use crate::ui_tree::composer::{
    add_index, add_refusal, lemma_index_moves_back, lemma_index_moves_on, rewound, undo_index,
    undo_refusal, view_added, ComposerState, Transaction,
};
use crate::ui_tree::platform::ComposeError;
use crate::ui_tree::tree::{
    attach_refusal, child_attached, child_detached, detach_refusal, lemma_attach_keeps_wf,
    lemma_child_attached, lemma_child_detached, lemma_detach_keeps_wf,
    lemma_scope_start_monotone, lemma_scope_start_push, lemma_scope_start_update,
    lemma_scope_within_total, node_wf, scope_opened, scope_start, tree_wf, NodeState,
    PlatformView,
};
use vstd::prelude::*;

verus! {

/// A region is in step with the tree when its log names exactly the children
/// of its own scope: the composer stands one scope behind the start of its
/// region, that scope counts as many children as the log has entries, and
/// the entry at `j` says `j`.
pub open spec fn region_in_step(c: ComposerState, t: Seq<NodeState>) -> bool {
    &&& c.parent is Some
    &&& c.parent->0.id < t.len()
    &&& c.depth == c.start_depth + 1
    &&& c.depth <= t[c.parent->0.id as int].scopes.len()
    &&& t[c.parent->0.id as int].scopes[c.start_depth as int] == c.transactions.len()
    &&& forall|j: int|
        0 <= j < c.transactions.len() ==> #[trigger] c.transactions[j] == Transaction::Add(
            j as usize,
        )
}

/// Composer and tree after `add_view` placed each of `views` in turn under
/// `parent`.
pub open spec fn added_all(
    c: ComposerState,
    t: Seq<NodeState>,
    parent: PlatformView,
    views: Seq<PlatformView>,
) -> (ComposerState, Seq<NodeState>)
    decreases views.len(),
{
    if views.len() == 0 {
        (c, t)
    } else {
        let (c1, t1) = added_all(c, t, parent, views.drop_last());
        (
            view_added(c1, t1, parent),
            child_attached(t1, parent, views.last(), add_index(c1, t1, parent), c1.depth as int),
        )
    }
}

/// Whether the tree lets every view of `views` pass when they are added in
/// turn: each names a node and is attached nowhere when its turn comes.
pub open spec fn all_accepted(
    c: ComposerState,
    t: Seq<NodeState>,
    parent: PlatformView,
    views: Seq<PlatformView>,
) -> bool
    decreases views.len(),
{
    views.len() == 0 || {
        let (c1, t1) = added_all(c, t, parent, views.drop_last());
        all_accepted(c, t, parent, views.drop_last()) && add_refusal(c1, t1, parent, views.last())
            is None
    }
}

/// A view that sits in the tree is turned down when it is added again, with
/// `AlreadyAttached` and before the platform is asked: composing what is
/// already composed mutates nothing.
pub proof fn law_attached_view_is_refused(
    c: ComposerState,
    t: Seq<NodeState>,
    parent: PlatformView,
    view: PlatformView,
)
    requires
        parent.id < t.len(),
        view.id < t.len(),
        t[view.id as int].attached,
    ensures
        add_refusal(c, t, parent, view) == Some(ComposeError::AlreadyAttached),
{
}

/// Adding the same view twice in a row places it once: the second call is
/// turned down with `AlreadyAttached`.
pub proof fn law_second_add_is_refused(
    c: ComposerState,
    t: Seq<NodeState>,
    parent: PlatformView,
    view: PlatformView,
)
    requires
        add_refusal(c, t, parent, view) is None,
    ensures
        add_refusal(
            view_added(c, t, parent),
            child_attached(t, parent, view, add_index(c, t, parent), c.depth as int),
            parent,
            view,
        ) == Some(ComposeError::AlreadyAttached),
{
    lemma_child_attached(t, parent, view, add_index(c, t, parent), c.depth as int);
}

/// The index of a position context counts children that are there: it lies
/// within the child list, and the context that spans all scopes of a node
/// stands at the end of the list.
pub proof fn law_index_counts_children(t: Seq<NodeState>, parent: PlatformView, depth: int)
    requires
        tree_wf(t),
        parent.id < t.len(),
        0 <= depth <= t[parent.id as int].scopes.len(),
    ensures
        0 <= scope_start(t[parent.id as int].scopes, depth) <= t[parent.id as int].children.len(),
        scope_start(t[parent.id as int].scopes, t[parent.id as int].scopes.len() as int)
            == t[parent.id as int].children.len(),
{
    assert(node_wf(t[parent.id as int], t.len() as int));
    lemma_scope_start_monotone(t[parent.id as int].scopes, 0, depth);
    lemma_scope_start_monotone(
        t[parent.id as int].scopes,
        depth,
        t[parent.id as int].scopes.len() as int,
    );
}

/// What a pass does to a region that is in step: the views go, in the order
/// in which they were added, right behind what the region already holds.
/// The region stays in step, the tree well formed; what lies before and
/// behind the region in the parent, and every other node's child list, is as
/// it was.
pub proof fn law_pass_fills_region(c: ComposerState, t: Seq<NodeState>, views: Seq<PlatformView>)
    requires
        tree_wf(t),
        region_in_step(c, t),
        c.in_transaction,
        all_accepted(c, t, c.parent->0, views),
        t[c.parent->0.id as int].children.len() + views.len() <= usize::MAX,
    ensures
        ({
            let p = c.parent->0;
            let (c1, t1) = added_all(c, t, p, views);
            let s = scope_start(t[p.id as int].scopes, c.start_depth as int);
            let n = c.transactions.len();
            &&& tree_wf(t1)
            &&& region_in_step(c1, t1)
            &&& t1.len() == t.len()
            &&& c1 == (ComposerState { transactions: c1.transactions, ..c })
            &&& c1.transactions.len() == n + views.len()
            &&& 0 <= s && s + n <= t[p.id as int].children.len()
            &&& t1[p.id as int].children == t[p.id as int].children.take(s + n) + views
                + t[p.id as int].children.skip(s + n)
            &&& t1[p.id as int].scopes == t[p.id as int].scopes.update(
                c.start_depth as int,
                (n + views.len()) as usize,
            )
            &&& forall|q: int|
                0 <= q < t.len() && q != p.id ==> (#[trigger] t1[q]).children == t[q].children
                    && t1[q].scopes == t[q].scopes
        }),
    decreases views.len(),
{
    let p = c.parent->0;
    let sd = c.start_depth as int;
    let kids = t[p.id as int].children;
    let scopes = t[p.id as int].scopes;
    let s = scope_start(scopes, sd);
    let n = c.transactions.len();
    assert(node_wf(t[p.id as int], t.len() as int));
    lemma_scope_start_monotone(scopes, 0, sd);
    lemma_scope_start_monotone(scopes, sd + 1, scopes.len() as int);
    assert(scope_start(scopes, sd + 1) == s + scopes[sd]);
    if views.len() == 0 {
        assert(kids.take(s + n) + views + kids.skip(s + n) =~= kids);
        assert(scopes.update(sd, n as usize) =~= scopes);
    } else {
        let init = views.drop_last();
        let v = views.last();
        let m = init.len();
        law_pass_fills_region(c, t, init);
        let (c0, t0) = added_all(c, t, p, init);
        let (c1, t1) = added_all(c, t, p, views);
        let scopes0 = t0[p.id as int].scopes;
        let kids0 = t0[p.id as int].children;
        lemma_scope_start_update(scopes, sd, (n + m) as usize, sd);
        assert(scope_start(scopes0, sd) == s);
        assert(scope_start(scopes0, sd + 1) == scope_start(scopes0, sd) + scopes0[sd]);
        let idx = add_index(c0, t0, p);
        assert(idx == s + n + m);
        assert(kids0.len() == kids.len() + m);
        lemma_child_attached(t0, p, v, idx, c0.depth as int);
        lemma_attach_keeps_wf(t0, p, v, idx, c0.depth as int);
        assert(t1[p.id as int].children =~= kids.take(s + n) + views + kids.skip(s + n));
        assert(t1[p.id as int].scopes =~= scopes.update(sd, (n + views.len()) as usize));
        assert(c1.transactions == c0.transactions.push(Transaction::Add((n + m) as usize)));
        assert forall|j: int| 0 <= j < c1.transactions.len() implies #[trigger] c1.transactions[j]
            == Transaction::Add(j as usize) by {
            if j < n + m {
                assert(c1.transactions[j] == c0.transactions[j]);
            }
        }
        assert forall|q: int| 0 <= q < t.len() && q != p.id implies (#[trigger] t1[q]).children
            == t[q].children && t1[q].scopes == t[q].scopes by {
            assert(t0[q].children == t[q].children);
        }
    }
}

/// What undoing the newest `k` entries does to a region that is in step:
/// the last `k` views of the region leave the parent, and nothing else
/// moves. As long as entries are left, the tree has no objection to the
/// next step, so that only the platform can stop a rewind.
pub proof fn law_rewind_empties_region(c: ComposerState, t: Seq<NodeState>, k: nat)
    requires
        tree_wf(t),
        region_in_step(c, t),
        k <= c.transactions.len(),
    ensures
        ({
            let p = c.parent->0;
            let s = scope_start(t[p.id as int].scopes, c.start_depth as int);
            let n = c.transactions.len();
            let tk = rewound(t, p, c.start_depth as int, c.depth as int, c.transactions, k);
            &&& tree_wf(tk)
            &&& tk.len() == t.len()
            &&& 0 <= s && s + n <= t[p.id as int].children.len()
            &&& tk[p.id as int].children == t[p.id as int].children.take(s + n - k)
                + t[p.id as int].children.skip(s + n)
            &&& tk[p.id as int].scopes == t[p.id as int].scopes.update(
                c.start_depth as int,
                (n - k) as usize,
            )
            &&& forall|q: int|
                0 <= q < t.len() && q != p.id ==> (#[trigger] tk[q]).children == t[q].children
                    && tk[q].scopes == t[q].scopes
            &&& k < n ==> undo_refusal(
                tk,
                p,
                c.start_depth as int,
                c.depth as int,
                c.transactions[n - k - 1],
            ) is None
        }),
    decreases k,
{
    let p = c.parent->0;
    let sd = c.start_depth as int;
    let depth = c.depth as int;
    let kids = t[p.id as int].children;
    let scopes = t[p.id as int].scopes;
    let s = scope_start(scopes, sd);
    let n = c.transactions.len();
    let log = c.transactions;
    assert(node_wf(t[p.id as int], t.len() as int));
    lemma_scope_start_monotone(scopes, 0, sd);
    lemma_scope_start_monotone(scopes, sd + 1, scopes.len() as int);
    assert(scope_start(scopes, sd + 1) == s + scopes[sd]);
    let tk = rewound(t, p, sd, depth, log, k);
    if k == 0 {
        assert(kids.take(s + n) + kids.skip(s + n) =~= kids);
        assert(scopes.update(sd, n as usize) =~= scopes);
    } else {
        law_rewind_empties_region(c, t, (k - 1) as nat);
        let prev = rewound(t, p, sd, depth, log, (k - 1) as nat);
        let entry = log[n - k];
        assert(entry == Transaction::Add((n - k) as usize));
        let scopes_prev = prev[p.id as int].scopes;
        let kids_prev = prev[p.id as int].children;
        lemma_scope_start_update(scopes, sd, (n - k + 1) as usize, sd);
        assert(scope_start(scopes_prev, sd) == s);
        let idx = undo_index(prev, p, sd, entry);
        assert(idx == s + n - k);
        assert(kids_prev.len() == kids.len() - (k - 1));
        assert(node_wf(prev[p.id as int], prev.len() as int));
        assert(kids_prev[idx].id < prev.len());
        lemma_child_detached(prev, p, idx, depth);
        lemma_detach_keeps_wf(prev, p, idx, depth);
        assert(tk[p.id as int].children =~= kids.take(s + n - k) + kids.skip(s + n));
        assert(tk[p.id as int].scopes =~= scopes.update(sd, (n - k) as usize));
        assert forall|q: int| 0 <= q < t.len() && q != p.id implies (#[trigger] tk[q]).children
            == t[q].children && tk[q].scopes == t[q].scopes by {
            assert(prev[q].children == t[q].children);
        }
    }
    if k < n {
        lemma_scope_start_update(scopes, sd, (n - k) as usize, sd);
        assert(scope_start(tk[p.id as int].scopes, sd) == s);
    }
}

/// A rewind gives back what the pass took: after any number of views were
/// added inside one transaction, rewinding returns the parent's child list
/// to what it was before the transaction, with the same views in the same
/// order, and leaves every other child list alone.
pub proof fn law_rewind_restores(c: ComposerState, t: Seq<NodeState>, views: Seq<PlatformView>)
    requires
        tree_wf(t),
        region_in_step(c, t),
        c.in_transaction,
        c.transactions.len() == 0,
        all_accepted(c, t, c.parent->0, views),
        t[c.parent->0.id as int].children.len() + views.len() <= usize::MAX,
    ensures
        ({
            let p = c.parent->0;
            let (c1, t1) = added_all(c, t, p, views);
            let back = rewound(
                t1,
                p,
                c.start_depth as int,
                c.depth as int,
                c1.transactions,
                views.len(),
            );
            &&& c1.transactions.len() == views.len()
            &&& back.len() == t.len()
            &&& back[p.id as int].children == t[p.id as int].children
            &&& back[p.id as int].scopes == t[p.id as int].scopes
            &&& forall|q: int|
                0 <= q < t.len() && q != p.id ==> (#[trigger] back[q]).children == t[q].children
                    && back[q].scopes == t[q].scopes
        }),
{
    let p = c.parent->0;
    let sd = c.start_depth as int;
    let kids = t[p.id as int].children;
    let scopes = t[p.id as int].scopes;
    let s = scope_start(scopes, sd);
    let m = views.len();
    law_pass_fills_region(c, t, views);
    let (c1, t1) = added_all(c, t, p, views);
    law_rewind_empties_region(c1, t1, m);
    let back = rewound(t1, p, sd, c.depth as int, c1.transactions, m);
    let kids1 = t1[p.id as int].children;
    let scopes1 = t1[p.id as int].scopes;
    lemma_scope_start_update(scopes, sd, m as usize, sd);
    assert(scope_start(scopes1, sd) == s);
    assert(kids1.take(s) + kids1.skip(s + m) =~= kids);
    assert(scopes1.update(sd, 0usize) =~= scopes);
    assert forall|q: int| 0 <= q < t.len() && q != p.id implies (#[trigger] back[q]).children
        == t[q].children && back[q].scopes == t[q].scopes by {
        assert(t1[q].children == t[q].children);
    }
}

/// One change of a child list that a position context of some depth asks
/// for.
pub enum ScopeOp {
    /// Put the child at the index.
    Attach(PlatformView, int),
    /// Take the child at the index out.
    Detach(int),
}

/// The tree after `op` was asked of `parent` through a context of depth
/// `depth` and the platform agreed. What the tree refuses changes nothing.
pub open spec fn op_applied(t: Seq<NodeState>, parent: PlatformView, depth: int, op: ScopeOp) -> Seq<
    NodeState,
> {
    match op {
        ScopeOp::Attach(child, idx) => if attach_refusal(t, parent, child, depth) is None && 0
            <= idx <= t[parent.id as int].children.len() && t[parent.id as int].children.len()
            < usize::MAX {
            child_attached(t, parent, child, idx, depth)
        } else {
            t
        },
        ScopeOp::Detach(idx) => if 0 <= idx && detach_refusal(t, parent, idx, depth) is None {
            child_detached(t, parent, idx, depth)
        } else {
            t
        },
    }
}

/// The tree after each of `ops` in turn.
pub open spec fn ops_applied(
    t: Seq<NodeState>,
    parent: PlatformView,
    depth: int,
    ops: Seq<ScopeOp>,
) -> Seq<NodeState>
    decreases ops.len(),
{
    if ops.len() == 0 {
        t
    } else {
        op_applied(ops_applied(t, parent, depth, ops.drop_last()), parent, depth, ops.last())
    }
}

/// The index of a position context follows the children it contributed:
/// through any run of additions and removals that the context asks for, the
/// tree stays well formed and the index moves exactly as the number of
/// children of the parent does.
pub proof fn law_index_follows_children(
    t: Seq<NodeState>,
    parent: PlatformView,
    depth: int,
    ops: Seq<ScopeOp>,
)
    requires
        tree_wf(t),
        parent.id < t.len(),
    ensures
        ({
            let after = ops_applied(t, parent, depth, ops);
            &&& tree_wf(after)
            &&& after.len() == t.len()
            &&& scope_start(after[parent.id as int].scopes, depth) - scope_start(
                t[parent.id as int].scopes,
                depth,
            ) == after[parent.id as int].children.len() - t[parent.id as int].children.len()
        }),
    decreases ops.len(),
{
    if ops.len() > 0 {
        law_index_follows_children(t, parent, depth, ops.drop_last());
        let prev = ops_applied(t, parent, depth, ops.drop_last());
        match ops.last() {
            ScopeOp::Attach(child, idx) => {
                if attach_refusal(prev, parent, child, depth) is None && 0 <= idx
                    <= prev[parent.id as int].children.len()
                    && prev[parent.id as int].children.len() < usize::MAX {
                    lemma_child_attached(prev, parent, child, idx, depth);
                    lemma_attach_keeps_wf(prev, parent, child, idx, depth);
                    lemma_index_moves_on(prev, parent, child, idx, depth);
                }
            },
            ScopeOp::Detach(idx) => {
                if 0 <= idx && detach_refusal(prev, parent, idx, depth) is None {
                    assert(node_wf(prev[parent.id as int], prev.len() as int));
                    assert(prev[parent.id as int].children[idx].id < prev.len());
                    lemma_child_detached(prev, parent, idx, depth);
                    lemma_detach_keeps_wf(prev, parent, idx, depth);
                    lemma_index_moves_back(prev, parent, idx, depth);
                }
            },
        }
    }
}

/// The composer of a region as a render finds it after the rewind: the log
/// is empty and a transaction is open.
pub open spec fn at_render(c: ComposerState) -> ComposerState {
    ComposerState { transactions: Seq::empty(), in_transaction: true, ..c }
}

/// The tree after a region in step was rendered anew: the previous render is
/// rewound in full, then `views` are added.
pub open spec fn replayed(c: ComposerState, t: Seq<NodeState>, views: Seq<PlatformView>) -> (
    ComposerState,
    Seq<NodeState>,
) {
    let back = rewound(
        t,
        c.parent->0,
        c.start_depth as int,
        c.depth as int,
        c.transactions,
        c.transactions.len(),
    );
    added_all(at_render(c), back, c.parent->0, views)
}

/// Whether the tree lets every view of a new render pass.
pub open spec fn replay_accepted(c: ComposerState, t: Seq<NodeState>, views: Seq<PlatformView>)
    -> bool {
    let back = rewound(
        t,
        c.parent->0,
        c.start_depth as int,
        c.depth as int,
        c.transactions,
        c.transactions.len(),
    );
    all_accepted(at_render(c), back, c.parent->0, views)
}

/// A new render replaces the region and nothing else. In the parent, the
/// views of the old render give way to the new ones at the same place; what
/// stood before the region stays where it was, and what stood behind it
/// keeps its order and moves by the difference of the two counts. So does the
/// index of every position context of the parent that reaches behind the
/// region, while the others keep theirs. No other node's child list changes.
pub proof fn law_replay_keeps_siblings(
    c: ComposerState,
    t: Seq<NodeState>,
    views: Seq<PlatformView>,
)
    requires
        tree_wf(t),
        region_in_step(c, t),
        replay_accepted(c, t, views),
        t[c.parent->0.id as int].children.len() - c.transactions.len() + views.len()
            <= usize::MAX,
    ensures
        ({
            let p = c.parent->0;
            let (c2, t2) = replayed(c, t, views);
            let kids = t[p.id as int].children;
            let scopes = t[p.id as int].scopes;
            let s = scope_start(scopes, c.start_depth as int);
            let n = c.transactions.len();
            &&& tree_wf(t2)
            &&& region_in_step(c2, t2)
            &&& t2.len() == t.len()
            &&& c2.transactions.len() == views.len()
            &&& 0 <= s && s + n <= kids.len()
            &&& t2[p.id as int].children == kids.take(s) + views + kids.skip(s + n)
            &&& t2[p.id as int].scopes == scopes.update(c.start_depth as int, views.len() as usize)
            &&& forall|q: int|
                0 <= q < t.len() && q != p.id ==> (#[trigger] t2[q]).children == t[q].children
                    && t2[q].scopes == t[q].scopes
            &&& forall|d: int|
                0 <= d <= scopes.len() ==> #[trigger] scope_start(t2[p.id as int].scopes, d)
                    == scope_start(scopes, d) + (if d > c.start_depth {
                    views.len() - n
                } else {
                    0
                })
        }),
{
    let p = c.parent->0;
    let sd = c.start_depth as int;
    let kids = t[p.id as int].children;
    let scopes = t[p.id as int].scopes;
    let s = scope_start(scopes, sd);
    let n = c.transactions.len();
    let m = views.len();
    law_rewind_empties_region(c, t, n);
    let back = rewound(t, p, sd, c.depth as int, c.transactions, n);
    let c1 = at_render(c);
    let kids1 = back[p.id as int].children;
    let scopes1 = back[p.id as int].scopes;
    assert(kids1 =~= kids.take(s) + kids.skip(s + n));
    lemma_scope_start_update(scopes, sd, 0usize, sd);
    assert(scope_start(scopes1, sd) == s);
    assert(region_in_step(c1, back));
    law_pass_fills_region(c1, back, views);
    let (c2, t2) = added_all(c1, back, p, views);
    assert(kids1.take(s) =~= kids.take(s));
    assert(kids1.skip(s) =~= kids.skip(s + n));
    assert(t2[p.id as int].scopes =~= scopes.update(sd, m as usize));
    assert forall|q: int| 0 <= q < t.len() && q != p.id implies (#[trigger] t2[q]).children
        == t[q].children && t2[q].scopes == t[q].scopes by {
        assert(back[q].children == t[q].children);
    }
    assert forall|d: int| 0 <= d <= scopes.len() implies #[trigger] scope_start(
        t2[p.id as int].scopes,
        d,
    ) == scope_start(scopes, d) + (if d > c.start_depth {
        m - n
    } else {
        0
    }) by {
        lemma_scope_start_update(scopes, sd, m as usize, d);
    }
}

/// The part of the child list that the region of `c` owns: the views named
/// by its log, which stand from the start of the region on.
pub open spec fn region_views(c: ComposerState, t: Seq<NodeState>) -> Seq<PlatformView> {
    let node = t[c.parent->0.id as int];
    let s = scope_start(node.scopes, c.start_depth as int);
    node.children.subrange(s, s + c.transactions.len())
}

/// Rendering one region anew leaves every other region as it was: another
/// region, in the same parent or elsewhere, stays in step and holds the same
/// views in the same order.
pub proof fn law_replay_keeps_other_regions(
    c: ComposerState,
    t: Seq<NodeState>,
    views: Seq<PlatformView>,
    other: ComposerState,
)
    requires
        tree_wf(t),
        region_in_step(c, t),
        replay_accepted(c, t, views),
        t[c.parent->0.id as int].children.len() - c.transactions.len() + views.len()
            <= usize::MAX,
        region_in_step(other, t),
        other.parent != c.parent || other.start_depth != c.start_depth,
    ensures
        region_in_step(other, replayed(c, t, views).1),
        region_views(other, replayed(c, t, views).1) == region_views(other, t),
{
    let p = c.parent->0;
    let q = other.parent->0;
    let sd = c.start_depth as int;
    let (c2, t2) = replayed(c, t, views);
    law_replay_keeps_siblings(c, t, views);
    if q.id != p.id {
        assert(t2[q.id as int].children == t[q.id as int].children);
    } else {
        let kids = t[p.id as int].children;
        let scopes = t[p.id as int].scopes;
        let s = scope_start(scopes, sd);
        let n = c.transactions.len();
        let m = views.len();
        let od = other.start_depth as int;
        let os = scope_start(scopes, od);
        let on = other.transactions.len();
        let kids2 = t2[p.id as int].children;
        let scopes2 = t2[p.id as int].scopes;
        assert(node_wf(t[p.id as int], t.len() as int));
        assert(scope_start(scopes, od + 1) == os + scopes[od]);
        assert(scope_start(scopes, sd + 1) == s + scopes[sd]);
        assert(scope_start(scopes2, od) == os + (if od > sd {
            m - n
        } else {
            0
        }));
        lemma_scope_start_monotone(scopes, 0, od);
        lemma_scope_start_monotone(scopes, od + 1, scopes.len() as int);
        if od < sd {
            lemma_scope_start_monotone(scopes, od + 1, sd);
            assert(kids2.subrange(os, os + on) =~= kids.subrange(os, os + on));
        } else {
            lemma_scope_start_monotone(scopes, sd + 1, od);
            assert(kids2.subrange(os + m - n, os + m - n + on) =~= kids.subrange(os, os + on));
        }
    }
}

/// Opening a scope disturbs no region: whether a parent is entered or
/// another region is set up, every region that was in step stays so, with
/// the same views at the same place.
pub proof fn law_new_scope_keeps_regions(
    t: Seq<NodeState>,
    node: PlatformView,
    other: ComposerState,
)
    requires
        tree_wf(t),
        node.id < t.len(),
        region_in_step(other, t),
    ensures
        tree_wf(scope_opened(t, node)),
        region_in_step(other, scope_opened(t, node)),
        region_views(other, scope_opened(t, node)) == region_views(other, t),
{
    let t1 = scope_opened(t, node);
    let scopes = t[node.id as int].scopes;
    assert(node_wf(t[node.id as int], t.len() as int));
    lemma_scope_start_push(scopes, 0, scopes.len() as int);
    assert forall|i: int| 0 <= i < t1.len() implies node_wf(#[trigger] t1[i], t1.len() as int) by {
        assert(node_wf(t[i], t.len() as int));
    }
    if other.parent->0.id == node.id {
        lemma_scope_start_push(scopes, 0, other.start_depth as int);
    }
}

/// Static composition does not disturb a region: a view appended by a
/// composer that stands at the end of the parent's scopes leaves every
/// region of another scope in step, with the same views at the same place.
pub proof fn law_append_keeps_regions(
    c: ComposerState,
    t: Seq<NodeState>,
    view: PlatformView,
    other: ComposerState,
)
    requires
        tree_wf(t),
        c.parent is Some,
        !c.in_transaction,
        add_refusal(c, t, c.parent->0, view) is None,
        c.depth == t[c.parent->0.id as int].scopes.len(),
        t[c.parent->0.id as int].children.len() < usize::MAX,
        region_in_step(other, t),
        other.parent != c.parent || other.start_depth + 1 != c.depth,
    ensures
        ({
            let p = c.parent->0;
            let t1 = child_attached(t, p, view, add_index(c, t, p), c.depth as int);
            &&& tree_wf(t1)
            &&& region_in_step(other, t1)
            &&& region_views(other, t1) == region_views(other, t)
            &&& scope_start(t1[other.parent->0.id as int].scopes, other.start_depth as int)
                == scope_start(t[other.parent->0.id as int].scopes, other.start_depth as int)
        }),
{
    let p = c.parent->0;
    let q = other.parent->0;
    let idx = add_index(c, t, p);
    let t1 = child_attached(t, p, view, idx, c.depth as int);
    lemma_child_attached(t, p, view, idx, c.depth as int);
    lemma_attach_keeps_wf(t, p, view, idx, c.depth as int);
    if q.id == p.id {
        let kids = t[p.id as int].children;
        let scopes = t[p.id as int].scopes;
        let od = other.start_depth as int;
        let os = scope_start(scopes, od);
        let on = other.transactions.len();
        assert(node_wf(t[p.id as int], t.len() as int));
        lemma_scope_within_total(scopes, c.depth - 1);
        lemma_scope_start_update(
            scopes,
            c.depth - 1,
            (scopes[c.depth - 1] + 1) as usize,
            od,
        );
        assert(scope_start(scopes, od + 1) == os + scopes[od]);
        lemma_scope_start_monotone(scopes, 0, od);
        lemma_scope_start_monotone(scopes, od + 1, scopes.len() as int);
        assert(t1[p.id as int].children.subrange(os, os + on) =~= kids.subrange(os, os + on));
    }
}

} // verus!
