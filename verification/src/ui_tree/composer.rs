//! The composer: the one authority that places views in the tree.
use crate::ui_tree::platform::{as_promised, keeps_nodes, ComposeError, PlatformViewInner};
use crate::ui_tree::tree::{
    attach_refusal, child_attached, child_detached, detach_outcome, detach_refusal,
    lemma_child_attached, lemma_child_detached, lemma_scope_start_monotone,
    lemma_scope_start_update, lemma_scope_within_total, node_wf,
    scope_opened, scope_start, touches_only, tree_wf, NodeState, PlatformView, ViewTree,
};
use vstd::prelude::*;

verus! {

/// Where composition stands in the child list of a parent: behind the
/// children of the parent's first `depth` scopes.
#[derive(Clone, Copy, Debug, PartialEq, Eq, Structural)]
pub struct PositionContext {
    pub depth: usize,
}

impl PositionContext {
    /// A context for composing into `parent` from here on: it opens a scope
    /// on `parent` and stands behind everything the parent holds.
    pub fn new<V: PlatformViewInner>(tree: &mut ViewTree<V>, parent: &PlatformView) -> (r: Result<
        PositionContext,
        ComposeError,
    >)
        requires
            old(tree).wf(),
        ensures
            final(tree).wf(),
            final(tree).natives() == old(tree).natives(),
            parent.id >= old(tree)@.len() ==> r == Err::<PositionContext, ComposeError>(
                ComposeError::DetachedNode,
            ) && final(tree)@ == old(tree)@,
            parent.id < old(tree)@.len() ==> (r matches Ok(pc) && pc.depth == old(
                tree,
            )@[parent.id as int].scopes.len() + 1) && final(tree)@ == scope_opened(
                old(tree)@,
                *parent,
            ),
    {
        match tree.open_scope(parent) {
            Ok(depth) => Ok(PositionContext { depth }),
            Err(e) => Err(e),
        }
    }

    /// Opens one more scope on `parent` and moves the context behind it.
    pub fn push_new_frame<V: PlatformViewInner>(
        &mut self,
        tree: &mut ViewTree<V>,
        parent: &PlatformView,
    ) -> (r: Result<(), ComposeError>)
        requires
            old(tree).wf(),
        ensures
            final(tree).wf(),
            final(tree).natives() == old(tree).natives(),
            parent.id >= old(tree)@.len() ==> r == Err::<(), ComposeError>(
                ComposeError::DetachedNode,
            ) && final(tree)@ == old(tree)@ && *final(self) == *old(self),
            parent.id < old(tree)@.len() ==> r == Ok::<(), ComposeError>(()) && final(self).depth
                == old(tree)@[parent.id as int].scopes.len() + 1 && final(tree)@ == scope_opened(
                old(tree)@,
                *parent,
            ),
    {
        match tree.open_scope(parent) {
            Ok(depth) => {
                self.depth = depth;
                Ok(())
            },
            Err(e) => Err(e),
        }
    }

    /// Returns the context as it is, then opens one more scope on `parent`
    /// and moves this context behind it.
    pub fn snapshot_context<V: PlatformViewInner>(
        &mut self,
        tree: &mut ViewTree<V>,
        parent: &PlatformView,
    ) -> (r: Result<PositionContext, ComposeError>)
        requires
            old(tree).wf(),
        ensures
            final(tree).wf(),
            final(tree).natives() == old(tree).natives(),
            parent.id >= old(tree)@.len() ==> r == Err::<PositionContext, ComposeError>(
                ComposeError::DetachedNode,
            ) && final(tree)@ == old(tree)@ && *final(self) == *old(self),
            parent.id < old(tree)@.len() ==> r == Ok::<PositionContext, ComposeError>(*old(self))
                && final(self).depth == old(tree)@[parent.id as int].scopes.len() + 1
                && final(tree)@ == scope_opened(old(tree)@, *parent),
    {
        let snapshot = *self;
        match self.push_new_frame(tree, parent) {
            Ok(()) => Ok(snapshot),
            Err(e) => Err(e),
        }
    }

    /// The index in the child list of `parent` at which this context stands:
    /// the sum of the counts of its scopes.
    pub fn get_current_idx<V: PlatformViewInner>(
        &self,
        tree: &ViewTree<V>,
        parent: &PlatformView,
    ) -> (r: Result<usize, ComposeError>)
        requires
            tree.wf(),
        ensures
            r == if parent.id >= tree@.len() {
                Err::<usize, ComposeError>(ComposeError::DetachedNode)
            } else if self.depth > tree@[parent.id as int].scopes.len() {
                Err::<usize, ComposeError>(ComposeError::ReentrancyViolation)
            } else {
                Ok::<usize, ComposeError>(
                    scope_start(tree@[parent.id as int].scopes, self.depth as int) as usize,
                )
            },
            r matches Ok(idx) ==> idx == scope_start(
                tree@[parent.id as int].scopes,
                self.depth as int,
            ) && idx <= tree@[parent.id as int].children.len(),
    {
        tree.position(parent, self.depth)
    }
}

/// One entry of a transaction log.
#[derive(Clone, Copy, Debug, PartialEq, Eq, Structural)]
pub enum Transaction {
    /// A view was inserted this many places behind the start of the region.
    Add(usize),
}

/// What a composer is, as contracts see it.
#[verifier::ext_equal]
pub struct ComposerState {
    /// The node that receives views, if one is set.
    pub parent: Option<PlatformView>,
    /// The depth of the position context.
    pub depth: usize,
    /// The insertions of the last pass, oldest first.
    pub transactions: Seq<Transaction>,
    /// Whether a pass is under way.
    pub in_transaction: bool,
    /// The depth of the context at which the region begins.
    pub start_depth: usize,
    /// Whether a view added without a parent is an error.
    pub strict: bool,
}

/// The state of a composer that was just made.
pub open spec fn fresh_composer() -> ComposerState {
    ComposerState {
        parent: None,
        depth: 0,
        transactions: Seq::empty(),
        in_transaction: false,
        start_depth: 0,
        strict: false,
    }
}

/// The error, if any, with which `add_view` turns down `view` before the
/// platform is asked, for a composer whose parent is `parent`.
pub open spec fn add_refusal(
    c: ComposerState,
    t: Seq<NodeState>,
    parent: PlatformView,
    view: PlatformView,
) -> Option<ComposeError> {
    match attach_refusal(t, parent, view, c.depth as int) {
        Some(e) => Some(e),
        None => if c.in_transaction && c.start_depth >= c.depth {
            Some(ComposeError::ReentrancyViolation)
        } else {
            None
        },
    }
}

/// The index at which `add_view` places a view under `parent`: the composer's
/// current index inside a transaction, the end of the child list outside.
pub open spec fn add_index(c: ComposerState, t: Seq<NodeState>, parent: PlatformView) -> int {
    if c.in_transaction {
        scope_start(t[parent.id as int].scopes, c.depth as int)
    } else {
        t[parent.id as int].children.len() as int
    }
}

/// The composer after `add_view` placed a view under `parent`: inside a
/// transaction the log has one more entry, which holds how far behind the
/// start of the region the view went.
pub open spec fn view_added(c: ComposerState, t: Seq<NodeState>, parent: PlatformView)
    -> ComposerState {
    if c.in_transaction {
        let scopes = t[parent.id as int].scopes;
        ComposerState {
            transactions: c.transactions.push(
                Transaction::Add(
                    (scope_start(scopes, c.depth as int) - scope_start(
                        scopes,
                        c.start_depth as int,
                    )) as usize,
                ),
            ),
            ..c
        }
    } else {
        c
    }
}

/// Whether `add_view` is decided without the platform: there is no parent,
/// or the tree refuses.
pub open spec fn add_is_settled(c: ComposerState, t: Seq<NodeState>, view: PlatformView) -> bool {
    match c.parent {
        None => true,
        Some(p) => add_refusal(c, t, p, view) is Some,
    }
}

/// What `add_view` leaves behind: `c1` and `t1` for a composer `c0` and a
/// tree `t0`, with the result `r`.
///
/// Without a parent nothing changes; the call passes, or fails with
/// `ReentrancyViolation` for a strict composer. Where the tree refuses, the
/// refusal is the result and nothing changes. Otherwise the platform
/// decides: on success the view is in the tree at the index of
/// [`add_index`], the composer is as [`view_added`] says, and the current
/// index has moved on by one; on failure the error is the platform's and
/// nothing has changed.
pub open spec fn add_outcome(
    c0: ComposerState,
    t0: Seq<NodeState>,
    c1: ComposerState,
    t1: Seq<NodeState>,
    view: PlatformView,
    r: Result<(), ComposeError>,
) -> bool {
    match c0.parent {
        None => {
            &&& c1 == c0
            &&& t1 == t0
            &&& r == if c0.strict {
                Err::<(), ComposeError>(ComposeError::ReentrancyViolation)
            } else {
                Ok::<(), ComposeError>(())
            }
        },
        Some(p) => match add_refusal(c0, t0, p, view) {
            Some(e) => {
                &&& r == Err::<(), ComposeError>(e)
                &&& c1 == c0
                &&& t1 == t0
            },
            None => match r {
                Ok(()) => {
                    &&& t1 == child_attached(t0, p, view, add_index(c0, t0, p), c0.depth as int)
                    &&& c1 == view_added(c0, t0, p)
                    &&& scope_start(t1[p.id as int].scopes, c0.depth as int) == scope_start(
                        t0[p.id as int].scopes,
                        c0.depth as int,
                    ) + 1
                },
                Err(e) => {
                    &&& e is Rejected
                    &&& t1 == t0
                    &&& c1 == c0
                },
            },
        },
    }
}

/// The index of the child that undoing `entry` removes, for a region that
/// begins at the scope numbered `start_depth` of `parent`.
pub open spec fn undo_index(
    t: Seq<NodeState>,
    parent: PlatformView,
    start_depth: int,
    entry: Transaction,
) -> int {
    scope_start(t[parent.id as int].scopes, start_depth) + entry->0
}

/// The error, if any, with which undoing `entry` is turned down before the
/// platform is asked.
pub open spec fn undo_refusal(
    t: Seq<NodeState>,
    parent: PlatformView,
    start_depth: int,
    depth: int,
    entry: Transaction,
) -> Option<ComposeError> {
    if parent.id >= t.len() {
        Some(ComposeError::DetachedNode)
    } else if start_depth > t[parent.id as int].scopes.len() {
        Some(ComposeError::ReentrancyViolation)
    } else {
        detach_refusal(t, parent, undo_index(t, parent, start_depth, entry), depth)
    }
}

/// The tree after the last `k` entries of `log` were undone, the newest
/// first: each removes the child at its recorded place behind the start of
/// the region, and the active scope gives that child up.
pub open spec fn rewound(
    t: Seq<NodeState>,
    parent: PlatformView,
    start_depth: int,
    depth: int,
    log: Seq<Transaction>,
    k: nat,
) -> Seq<NodeState>
    decreases k,
{
    if k == 0 {
        t
    } else {
        let prev = rewound(t, parent, start_depth, depth, log, (k - 1) as nat);
        child_detached(
            prev,
            parent,
            undo_index(prev, parent, start_depth, log[log.len() - k]),
            depth,
        )
    }
}

/// What `enter_parent` hands back for `leave_parent`: the composer's parent,
/// position and transaction flag from before the entry.
#[derive(Clone, Copy, Debug, PartialEq, Eq, Structural)]
pub struct ParentScope {
    pub parent: PlatformView,
    pub position_context: PositionContext,
    pub in_transaction: bool,
}

/// The composer: it knows the parent that receives views, where in that
/// parent's child list composition stands, and what the pass under way has
/// inserted.
#[derive(Debug)]
pub struct Composer {
    current_parent: Option<PlatformView>,
    position_context: PositionContext,
    transactions: Vec<Transaction>,
    in_transaction: bool,
    transaction_start_idx: PositionContext,
    strict: bool,
}

impl View for Composer {
    type V = ComposerState;

    closed spec fn view(&self) -> ComposerState {
        ComposerState {
            parent: self.current_parent,
            depth: self.position_context.depth,
            transactions: self.transactions@,
            in_transaction: self.in_transaction,
            start_depth: self.transaction_start_idx.depth,
            strict: self.strict,
        }
    }
}

impl Default for Composer {
    fn default() -> (c: Self)
        ensures
            c@ == fresh_composer(),
    {
        Composer::new()
    }
}

impl Composer {
    /// A composer without a parent, outside any transaction, that lets a view
    /// added without a parent pass in silence.
    pub fn new() -> (c: Composer)
        ensures
            c@ == fresh_composer(),
    {
        Composer {
            current_parent: None,
            position_context: PositionContext { depth: 0 },
            transactions: Vec::new(),
            in_transaction: false,
            transaction_start_idx: PositionContext { depth: 0 },
            strict: false,
        }
    }

    /// Chooses what `add_view` does without a parent: with `strict` it fails,
    /// without it the call passes in silence.
    pub fn set_strict(&mut self, strict: bool)
        ensures
            final(self)@ == (ComposerState { strict, ..old(self)@ }),
    {
        self.strict = strict;
    }

    /// Whether a view added without a parent is an error.
    pub fn strict(&self) -> (b: bool)
        ensures
            b == self@.strict,
    {
        self.strict
    }

    /// Sets the parent that receives views, and nothing else.
    pub(crate) fn set_parent(&mut self, parent: PlatformView)
        ensures
            final(self)@ == (ComposerState { parent: Some(parent), ..old(self)@ }),
    {
        self.current_parent = Some(parent);
    }

    /// Sets where the composer stands and where its region begins.
    pub(crate) fn set_position(&mut self, position_context: PositionContext, start: PositionContext)
        ensures
            final(self)@ == (ComposerState {
                depth: position_context.depth,
                start_depth: start.depth,
                ..old(self)@
            }),
    {
        self.position_context = position_context;
        self.transaction_start_idx = start;
    }

    /// The parent that receives views, if one is set.
    pub fn current_parent(&self) -> (p: Option<PlatformView>)
        ensures
            p == self@.parent,
    {
        self.current_parent
    }

    /// The position context.
    pub fn position_context(&self) -> (pc: PositionContext)
        ensures
            pc.depth == self@.depth,
    {
        self.position_context
    }

    /// The context at which the region of this composer begins.
    pub fn transaction_start_idx(&self) -> (pc: PositionContext)
        ensures
            pc.depth == self@.start_depth,
    {
        self.transaction_start_idx
    }

    /// Whether a pass is under way.
    pub fn in_transaction(&self) -> (b: bool)
        ensures
            b == self@.in_transaction,
    {
        self.in_transaction
    }

    /// How many insertions the log holds.
    pub fn transaction_count(&self) -> (n: usize)
        ensures
            n == self@.transactions.len(),
    {
        self.transactions.len()
    }

    /// The entry of the log at `i`, or `None` where there is none.
    pub fn transaction_at(&self, i: usize) -> (t: Option<Transaction>)
        ensures
            t == if i < self@.transactions.len() {
                Some(self@.transactions[i as int])
            } else {
                None
            },
    {
        if i < self.transactions.len() {
            Some(self.transactions[i])
        } else {
            None
        }
    }

    /// Opens a pass: from here on `add_view` inserts and records.
    pub fn start_transaction(&mut self)
        ensures
            final(self)@ == (ComposerState { in_transaction: true, ..old(self)@ }),
    {
        self.in_transaction = true;
    }

    /// Closes the pass; the log stays for the next rewind.
    pub fn end_transaction(&mut self)
        ensures
            final(self)@ == (ComposerState { in_transaction: false, ..old(self)@ }),
    {
        self.in_transaction = false;
    }

    /// The index at which the composer stands in its parent's child list.
    ///
    /// Fails with `ReentrancyViolation` where no parent is set or the parent
    /// has fewer scopes than the position context names, and with
    /// `DetachedNode` where the parent is no node of `tree`.
    pub fn current_idx<V: PlatformViewInner>(&self, tree: &ViewTree<V>) -> (r: Result<
        usize,
        ComposeError,
    >)
        requires
            tree.wf(),
        ensures
            r == match self@.parent {
                None => Err::<usize, ComposeError>(ComposeError::ReentrancyViolation),
                Some(p) => if p.id >= tree@.len() {
                    Err::<usize, ComposeError>(ComposeError::DetachedNode)
                } else if self@.depth > tree@[p.id as int].scopes.len() {
                    Err::<usize, ComposeError>(ComposeError::ReentrancyViolation)
                } else {
                    Ok::<usize, ComposeError>(
                        scope_start(tree@[p.id as int].scopes, self@.depth as int) as usize,
                    )
                },
            },
    {
        match self.current_parent {
            None => Err(ComposeError::ReentrancyViolation),
            Some(p) => self.position_context.get_current_idx(tree, &p),
        }
    }

    /// Places `view` under the current parent.
    ///
    /// Without a parent nothing happens: the call passes, or fails with
    /// `ReentrancyViolation` for a strict composer. With a parent, the tree's
    /// refusal comes first (see [`add_refusal`]) and leaves everything as it
    /// was, the platform unasked. Otherwise the platform decides. Inside a
    /// transaction the view is inserted at the current index and the log gets
    /// an entry; outside it is appended. Either way the active scope counts
    /// one more child, so the current index moves on by one. Where the
    /// platform refuses, tree and composer are as before and the log has no
    /// trace of the attempt.
    pub fn add_view<V: PlatformViewInner>(&mut self, tree: &mut ViewTree<V>, view: &PlatformView)
        -> (r: Result<(), ComposeError>)
        requires
            old(tree).wf(),
        ensures
            final(tree).wf(),
            add_outcome(old(self)@, old(tree)@, final(self)@, final(tree)@, *view, r),
            add_is_settled(old(self)@, old(tree)@, *view) ==> *final(tree) == *old(tree),
            old(self)@.parent matches Some(p) ==> touches_only(*old(tree), *final(tree), p),
            as_promised::<V>(r),
            keeps_nodes::<V>() ==> final(tree).natives() == old(tree).natives(),
    {
        let p: PlatformView = match self.current_parent {
            None => {
                if self.strict {
                    return Err(ComposeError::ReentrancyViolation);
                } else {
                    return Ok(());
                }
            },
            Some(p) => p,
        };
        let depth: usize = self.position_context.depth;
        match tree.check_attach(&p, view, depth) {
            Err(e) => {
                return Err(e);
            },
            Ok(()) => {},
        }
        let ghost scopes = tree@[p.id as int].scopes;
        if self.in_transaction {
            let start_depth: usize = self.transaction_start_idx.depth;
            if start_depth >= depth {
                return Err(ComposeError::ReentrancyViolation);
            }
            let idx: usize = match tree.position(&p, depth) {
                Ok(idx) => idx,
                Err(e) => {
                    return Err(e);
                },
            };
            let start: usize = match tree.position(&p, start_depth) {
                Ok(start) => start,
                Err(e) => {
                    return Err(e);
                },
            };
            proof {
                lemma_scope_start_monotone(scopes, start_depth as int, depth as int);
            }
            match tree.insert_child_at(&p, view, depth) {
                Err(e) => Err(e),
                Ok(()) => {
                    self.transactions.push(Transaction::Add(idx - start));
                    proof {
                        lemma_child_attached(old(tree)@, p, *view, idx as int, depth as int);
                        assert(node_wf(tree@[p.id as int], tree@.len() as int));
                        lemma_index_moves_on(old(tree)@, p, *view, idx as int, depth as int);
                    }
                    Ok(())
                },
            }
        } else {
            let r = tree.append_child(&p, view, depth);
            proof {
                if r is Ok {
                    lemma_child_attached(
                        old(tree)@,
                        p,
                        *view,
                        old(tree)@[p.id as int].children.len() as int,
                        depth as int,
                    );
                    assert(node_wf(tree@[p.id as int], tree@.len() as int));
                    lemma_index_moves_on(
                        old(tree)@,
                        p,
                        *view,
                        old(tree)@[p.id as int].children.len() as int,
                        depth as int,
                    );
                }
            }
            r
        }
    }

    /// Takes the child at `idx_to_remove` out of the current parent; the
    /// active scope gives it up, so the current index moves back by one.
    ///
    /// Fails with `ReentrancyViolation` where no parent is set. Otherwise the
    /// tree's refusal comes first (see [`detach_refusal`]), then the platform
    /// decides. On any failure the tree is as before.
    pub fn remove_view_at<V: PlatformViewInner>(&self, tree: &mut ViewTree<V>, idx_to_remove: usize)
        -> (r: Result<(), ComposeError>)
        requires
            old(tree).wf(),
        ensures
            final(tree).wf(),
            as_promised::<V>(r),
            keeps_nodes::<V>() ==> final(tree).natives() == old(tree).natives(),
            match self@.parent {
                None => r == Err::<(), ComposeError>(ComposeError::ReentrancyViolation)
                    && *final(tree) == *old(tree),
                Some(p) => {
                    &&& detach_outcome(
                        old(tree)@,
                        final(tree)@,
                        p,
                        idx_to_remove as int,
                        self@.depth as int,
                        r,
                    )
                    &&& detach_refusal(old(tree)@, p, idx_to_remove as int, self@.depth as int)
                        is Some ==> *final(tree) == *old(tree)
                    &&& r is Ok ==> scope_start(
                        final(tree)@[p.id as int].scopes,
                        self@.depth as int,
                    ) == scope_start(old(tree)@[p.id as int].scopes, self@.depth as int) - 1
                    &&& touches_only(*old(tree), *final(tree), p)
                },
            },
    {
        match self.current_parent {
            None => Err(ComposeError::ReentrancyViolation),
            Some(p) => {
                let r = tree.remove_child_index(&p, idx_to_remove, self.position_context.depth);
                proof {
                    if r is Ok {
                        lemma_index_moves_back(
                            old(tree)@,
                            p,
                            idx_to_remove as int,
                            self@.depth as int,
                        );
                    }
                }
                r
            },
        }
    }
}

impl Composer {
    /// Removes what the previous pass inserted, the newest view first, and
    /// empties the log.
    ///
    /// With an empty log nothing happens. Each entry is undone at its
    /// recorded place behind the start of the region; an entry leaves the log
    /// only once its view is out of the tree. The first failure ends the
    /// rewind: the entries not yet undone stay in the log, so that it still
    /// names exactly the views of the pass that the tree holds. The error is
    /// the refusal of that step (see [`undo_refusal`]), or the platform's; a
    /// non-empty log without a parent is a `ReentrancyViolation`.
    pub fn rewind_transaction<V: PlatformViewInner>(&mut self, tree: &mut ViewTree<V>) -> (r:
        Result<(), ComposeError>)
        requires
            old(tree).wf(),
        ensures
            final(tree).wf(),
            as_promised::<V>(r),
            keeps_nodes::<V>() ==> final(tree).natives() == old(tree).natives(),
            final(self)@.transactions.len() <= old(self)@.transactions.len(),
            final(self)@ == (ComposerState {
                transactions: old(self)@.transactions.take(final(self)@.transactions.len() as int),
                ..old(self)@
            }),
            r is Ok <==> final(self)@.transactions.len() == 0,
            match old(self)@.parent {
                None => {
                    &&& *final(tree) == *old(tree)
                    &&& final(self)@ == old(self)@
                    &&& r matches Err(e) ==> e is ReentrancyViolation
                },
                Some(p) => {
                    &&& touches_only(*old(tree), *final(tree), p)
                    &&& final(tree)@ == rewound(
                        old(tree)@,
                        p,
                        old(self)@.start_depth as int,
                        old(self)@.depth as int,
                        old(self)@.transactions,
                        (old(self)@.transactions.len() - final(self)@.transactions.len()) as nat,
                    )
                    &&& r matches Err(e) ==> match undo_refusal(
                        final(tree)@,
                        p,
                        old(self)@.start_depth as int,
                        old(self)@.depth as int,
                        old(self)@.transactions[final(self)@.transactions.len() - 1],
                    ) {
                        Some(refusal) => e == refusal,
                        None => e is Rejected,
                    }
                },
            },
    {
        let p: PlatformView = match self.current_parent {
            None => {
                proof {
                    assert(self@.transactions.take(self@.transactions.len() as int)
                        =~= self@.transactions);
                }
                if self.transactions.len() == 0 {
                    return Ok(());
                } else {
                    return Err(ComposeError::ReentrancyViolation);
                }
            },
            Some(p) => p,
        };
        let depth: usize = self.position_context.depth;
        let start_depth: usize = self.transaction_start_idx.depth;
        let ghost log = self@.transactions;
        proof {
            assert(log.take(log.len() as int) =~= log);
        }
        while self.transactions.len() > 0
            invariant
                tree.wf(),
                log == old(self)@.transactions,
                self@.transactions.len() <= log.len(),
                self@ == (ComposerState {
                    transactions: log.take(self@.transactions.len() as int),
                    ..old(self)@
                }),
                old(self)@.parent == Some(p),
                touches_only(*old(tree), *tree, p),
                keeps_nodes::<V>() ==> tree.natives() == old(tree).natives(),
                depth == old(self)@.depth,
                start_depth == old(self)@.start_depth,
                tree@ == rewound(
                    old(tree)@,
                    p,
                    start_depth as int,
                    depth as int,
                    log,
                    (log.len() - self@.transactions.len()) as nat,
                ),
            decreases self@.transactions.len(),
        {
            let m: usize = self.transactions.len();
            let entry: Transaction = self.transactions[m - 1];
            let rel: usize = match entry {
                Transaction::Add(rel) => rel,
            };
            let start: usize = match tree.position(&p, start_depth) {
                Ok(start) => start,
                Err(e) => {
                    return Err(e);
                },
            };
            let idx: usize = match start.checked_add(rel) {
                Some(idx) => idx,
                None => {
                    proof {
                        assert(node_wf(tree@[p.id as int], tree@.len() as int));
                    }
                    return Err(ComposeError::BadIndex);
                },
            };
            let ghost before = tree@;
            match tree.remove_child_index(&p, idx, depth) {
                Err(e) => {
                    return Err(e);
                },
                Ok(()) => {},
            }
            self.transactions.pop();
            proof {
                assert(self@.transactions =~= log.take(m - 1));
                assert(log[log.len() - (log.len() - (m - 1))] == entry);
            }
        }
        Ok(())
    }
}

/// Makes `view` the parent that `active` composes into, at a scope of its
/// own behind whatever `view` already holds.
///
/// Fails with `DetachedNode` where `view` is no node of `tree`; nothing
/// changes then.
pub fn set_root_view<V: PlatformViewInner>(
    active: &mut Composer,
    tree: &mut ViewTree<V>,
    view: PlatformView,
) -> (r: Result<(), ComposeError>)
    requires
        old(tree).wf(),
    ensures
        final(tree).wf(),
        final(tree).natives() == old(tree).natives(),
        view.id >= old(tree)@.len() ==> r == Err::<(), ComposeError>(ComposeError::DetachedNode)
            && final(tree)@ == old(tree)@ && final(active)@ == old(active)@,
        view.id < old(tree)@.len() ==> r == Ok::<(), ComposeError>(()) && final(tree)@
            == scope_opened(old(tree)@, view) && final(active)@ == (ComposerState {
            parent: Some(view),
            depth: (old(tree)@[view.id as int].scopes.len() + 1) as usize,
            ..old(active)@
        }) && final(active)@.depth == old(tree)@[view.id as int].scopes.len() + 1,
{
    match PositionContext::new(tree, &view) {
        Err(e) => Err(e),
        Ok(position_context) => {
            active.current_parent = Some(view);
            active.position_context = position_context;
            Ok(())
        },
    }
}

/// Exchanges `other_composer` with the active one.
pub fn swap_composer_with_active(active: &mut Composer, other_composer: &mut Composer)
    ensures
        *final(active) == *old(other_composer),
        *final(other_composer) == *old(active),
{
    core::mem::swap(active, other_composer);
}

/// Turns `active` towards `parent`: until `leave_parent`, views are appended
/// to `parent`, in a scope of its own, and no transaction records them.
///
/// Fails with `ReentrancyViolation` where `active` has no parent to come back
/// to, and with `DetachedNode` where `parent` is no node of `tree`; nothing
/// changes then.
pub fn enter_parent<V: PlatformViewInner>(
    active: &mut Composer,
    tree: &mut ViewTree<V>,
    parent: &PlatformView,
) -> (r: Result<ParentScope, ComposeError>)
    requires
        old(tree).wf(),
    ensures
        final(tree).wf(),
        final(tree).natives() == old(tree).natives(),
        match old(active)@.parent {
            None => r == Err::<ParentScope, ComposeError>(ComposeError::ReentrancyViolation)
                && final(tree)@ == old(tree)@ && final(active)@ == old(active)@,
            Some(outer) => if parent.id >= old(tree)@.len() {
                r == Err::<ParentScope, ComposeError>(ComposeError::DetachedNode) && final(tree)@
                    == old(tree)@ && final(active)@ == old(active)@
            } else {
                &&& r == Ok::<ParentScope, ComposeError>(
                    ParentScope {
                        parent: outer,
                        position_context: PositionContext { depth: old(active)@.depth },
                        in_transaction: old(active)@.in_transaction,
                    },
                )
                &&& final(tree)@ == scope_opened(old(tree)@, *parent)
                &&& final(active)@ == (ComposerState {
                    parent: Some(*parent),
                    depth: (old(tree)@[parent.id as int].scopes.len() + 1) as usize,
                    in_transaction: false,
                    ..old(active)@
                })
                &&& final(active)@.depth == old(tree)@[parent.id as int].scopes.len() + 1
            },
        },
{
    let outer: PlatformView = match active.current_parent {
        None => {
            return Err(ComposeError::ReentrancyViolation);
        },
        Some(outer) => outer,
    };
    match PositionContext::new(tree, parent) {
        Err(e) => Err(e),
        Ok(position_context) => {
            let scope = ParentScope {
                parent: outer,
                position_context: active.position_context,
                in_transaction: active.in_transaction,
            };
            active.current_parent = Some(*parent);
            active.position_context = position_context;
            active.in_transaction = false;
            Ok(scope)
        },
    }
}

/// Turns `active` back to where `enter_parent` found it.
pub fn leave_parent(active: &mut Composer, scope: ParentScope)
    ensures
        final(active)@ == (ComposerState {
            parent: Some(scope.parent),
            depth: scope.position_context.depth,
            in_transaction: scope.in_transaction,
            ..old(active)@
        }),
{
    active.current_parent = Some(scope.parent);
    active.position_context = scope.position_context;
    active.in_transaction = scope.in_transaction;
}

/// After an attachment in the last scope of the first `depth`, the start of
/// the scope numbered `depth` lies one further.
pub proof fn lemma_index_moves_on(
    t: Seq<NodeState>,
    parent: PlatformView,
    child: PlatformView,
    idx: int,
    depth: int,
)
    requires
        tree_wf(t),
        attach_refusal(t, parent, child, depth) is None,
        t[parent.id as int].children.len() < usize::MAX,
    ensures
        scope_start(child_attached(t, parent, child, idx, depth)[parent.id as int].scopes, depth)
            == scope_start(t[parent.id as int].scopes, depth) + 1,
{
    let scopes = t[parent.id as int].scopes;
    assert(node_wf(t[parent.id as int], t.len() as int));
    lemma_child_attached(t, parent, child, idx, depth);
    lemma_scope_within_total(scopes, depth - 1);
    lemma_scope_start_update(
        scopes,
        depth - 1,
        (scopes[depth - 1] + 1) as usize,
        depth,
    );
}

/// After a detachment from the last scope of the first `depth`, the start of
/// the scope numbered `depth` lies one earlier.
pub proof fn lemma_index_moves_back(t: Seq<NodeState>, parent: PlatformView, idx: int, depth: int)
    requires
        tree_wf(t),
        0 <= idx,
        detach_refusal(t, parent, idx, depth) is None,
    ensures
        scope_start(child_detached(t, parent, idx, depth)[parent.id as int].scopes, depth)
            == scope_start(t[parent.id as int].scopes, depth) - 1,
{
    let scopes = t[parent.id as int].scopes;
    assert(node_wf(t[parent.id as int], t.len() as int));
    assert(t[parent.id as int].children[idx].id < t.len());
    lemma_child_detached(t, parent, idx, depth);
    lemma_scope_start_update(
        scopes,
        depth - 1,
        (scopes[depth - 1] - 1) as usize,
        depth,
    );
}

/// What can place itself in the tree.
pub trait Composable<V: PlatformViewInner> {
    /// Places the view under the current parent of `composer`.
    fn compose(&mut self, composer: &mut Composer, tree: &mut ViewTree<V>) -> (r: Result<
        (),
        ComposeError,
    >)
        requires
            old(tree).wf(),
        ensures
            final(tree).wf(),
    ;
}

/// What [`compose_once`] leaves behind. A view that sits in the tree is
/// passed over: the result is `Ok`, and tree and composer are untouched.
/// Any other view is added as [`add_outcome`] says.
pub open spec fn compose_outcome<V: PlatformViewInner>(
    c0: ComposerState,
    tree0: ViewTree<V>,
    c1: ComposerState,
    tree1: ViewTree<V>,
    view: PlatformView,
    r: Result<(), ComposeError>,
) -> bool {
    if view.id < tree0@.len() && tree0@[view.id as int].attached {
        r == Ok::<(), ComposeError>(()) && tree1 == tree0 && c1 == c0
    } else {
        &&& add_outcome(c0, tree0@, c1, tree1@, view, r)
        &&& add_is_settled(c0, tree0@, view) ==> tree1 == tree0
        &&& c0.parent matches Some(p) ==> touches_only(tree0, tree1, p)
    }
}

/// Places `view` under the current parent of `composer` unless it sits in the
/// tree already: composing what is composed passes and changes nothing, and
/// the platform is not asked. Otherwise the call is [`Composer::add_view`].
pub fn compose_once<V: PlatformViewInner>(
    composer: &mut Composer,
    tree: &mut ViewTree<V>,
    view: &PlatformView,
) -> (r: Result<(), ComposeError>)
    requires
        old(tree).wf(),
    ensures
        final(tree).wf(),
        compose_outcome(old(composer)@, *old(tree), final(composer)@, *final(tree), *view, r),
        as_promised::<V>(r),
        keeps_nodes::<V>() ==> final(tree).natives() == old(tree).natives(),
{
    if tree.is_attached(view) {
        Ok(())
    } else {
        composer.add_view(tree, view)
    }
}

} // verus!
