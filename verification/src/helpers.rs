//! Signal-driven regions: a part of a parent's child list that is replaced
//! as a whole each time the observed value changes.
use crate::ui_tree::composer::{
    rewound, swap_composer_with_active, undo_refusal, Composer, ComposerState, PositionContext,
};
use crate::ui_tree::laws::region_in_step;
use crate::ui_tree::platform::{as_promised, keeps_nodes, ComposeError, PlatformViewInner};
use crate::ui_tree::tree::{scope_opened, touches_only, PlatformView, ViewTree};
use vstd::prelude::*;

verus! {

/// A region of a parent's child list that belongs to one subscription.
///
/// It owns the composer that renders the region. Between two renders that
/// composer rests here; during a render it is the active one and the region
/// keeps the composer it displaced.
pub struct SignalRegion {
    composer: Composer,
}

impl View for SignalRegion {
    type V = ComposerState;

    /// The composer that the region holds at the moment.
    closed spec fn view(&self) -> ComposerState {
        self.composer@
    }
}

/// The composer of a region that was forked from `live` when its parent had
/// `scopes` scopes: it stands in a scope of its own, right behind them.
pub open spec fn region_composer(live: ComposerState, scopes: nat) -> ComposerState {
    ComposerState {
        parent: live.parent,
        depth: (scopes + 1) as usize,
        transactions: Seq::empty(),
        in_transaction: false,
        start_depth: scopes as usize,
        strict: live.strict,
    }
}

/// Sets a region up at the place where `active` stands.
///
/// The parent of `active` gets two scopes: one for the region, and behind it
/// one into which `active` goes on composing, so that what is declared later
/// stays behind the region however the region grows. The region starts out in
/// step with the tree (see [`region_in_step`]). Without a parent there
/// is nothing to place: the region then renders nothing, and `active` and the
/// tree are as before. Fails with `DetachedNode`, changing nothing, where the
/// parent is no node of `tree`.
pub fn match_signal<V: PlatformViewInner>(active: &mut Composer, tree: &mut ViewTree<V>) -> (r:
    Result<SignalRegion, ComposeError>)
    requires
        old(tree).wf(),
    ensures
        final(tree).wf(),
        final(tree).natives() == old(tree).natives(),
        match old(active)@.parent {
            None => {
                &&& r matches Ok(region)
                &&& region@ == (ComposerState {
                    transactions: Seq::empty(),
                    in_transaction: false,
                    start_depth: old(active)@.depth,
                    ..old(active)@
                })
                &&& final(tree)@ == old(tree)@
                &&& final(active)@ == old(active)@
            },
            Some(p) => if p.id >= old(tree)@.len() {
                &&& r matches Err(e)
                &&& e is DetachedNode
                &&& final(tree)@ == old(tree)@
                &&& final(active)@ == old(active)@
            } else {
                &&& r matches Ok(region)
                &&& region@ == region_composer(old(active)@, old(tree)@[p.id as int].scopes.len())
                &&& region@.depth == old(tree)@[p.id as int].scopes.len() + 1
                &&& final(tree)@ == scope_opened(scope_opened(old(tree)@, p), p)
                &&& final(active)@ == (ComposerState {
                    depth: (old(tree)@[p.id as int].scopes.len() + 2) as usize,
                    ..old(active)@
                })
                &&& final(active)@.depth == old(tree)@[p.id as int].scopes.len() + 2
                &&& region_in_step(region@, final(tree)@)
            },
        },
{
    let mut composer = Composer::new();
    composer.set_strict(active.strict());
    let p: PlatformView = match active.current_parent() {
        None => {
            composer.set_position(active.position_context(), active.position_context());
            return Ok(SignalRegion { composer });
        },
        Some(p) => p,
    };
    let start: usize = match tree.scope_count(&p) {
        None => {
            return Err(ComposeError::DetachedNode);
        },
        Some(start) => start,
    };
    let mut position_context = PositionContext { depth: start };
    match position_context.push_new_frame(tree, &p) {
        Err(e) => {
            return Err(e);
        },
        Ok(()) => {},
    }
    composer.set_parent(p);
    composer.set_position(position_context, PositionContext { depth: start });
    match position_context.push_new_frame(tree, &p) {
        Err(e) => {
            return Err(e);
        },
        Ok(()) => {},
    }
    active.set_position(position_context, active.transaction_start_idx());
    Ok(SignalRegion { composer })
}

impl SignalRegion {
    /// Begins a render of the region: what the previous render inserted is
    /// removed, a transaction is opened, and the region's composer becomes
    /// the active one, so that the views declared next go into the region.
    ///
    /// Where the rewind fails, its error comes back, the composers stay
    /// where they are, and the region's log names what is left to remove
    /// (see [`Composer::rewind_transaction`]).
    pub fn begin_render<V: PlatformViewInner>(
        &mut self,
        active: &mut Composer,
        tree: &mut ViewTree<V>,
    ) -> (r: Result<(), ComposeError>)
        requires
            old(tree).wf(),
        ensures
            final(tree).wf(),
            as_promised::<V>(r),
            keeps_nodes::<V>() ==> final(tree).natives() == old(tree).natives(),
            match r {
                Ok(()) => {
                    &&& final(active)@ == (ComposerState {
                        transactions: Seq::empty(),
                        in_transaction: true,
                        ..old(self)@
                    })
                    &&& final(self)@ == old(active)@
                },
                Err(e) => {
                    &&& *final(active) == *old(active)
                    &&& 0 < final(self)@.transactions.len() <= old(self)@.transactions.len()
                    &&& final(self)@ == (ComposerState {
                        transactions: old(self)@.transactions.take(
                            final(self)@.transactions.len() as int,
                        ),
                        ..old(self)@
                    })
                    &&& match old(self)@.parent {
                        None => e is ReentrancyViolation,
                        Some(p) => match undo_refusal(
                            final(tree)@,
                            p,
                            old(self)@.start_depth as int,
                            old(self)@.depth as int,
                            old(self)@.transactions[final(self)@.transactions.len() - 1],
                        ) {
                            Some(refusal) => e == refusal,
                            None => e is Rejected,
                        },
                    }
                },
            },
            match old(self)@.parent {
                None => *final(tree) == *old(tree),
                Some(p) => touches_only(*old(tree), *final(tree), p) && final(tree)@ == rewound(
                    old(tree)@,
                    p,
                    old(self)@.start_depth as int,
                    old(self)@.depth as int,
                    old(self)@.transactions,
                    (if r is Ok {
                        old(self)@.transactions.len() as int
                    } else {
                        old(self)@.transactions.len() - final(self)@.transactions.len()
                    }) as nat,
                ),
            },
    {
        match self.composer.rewind_transaction(tree) {
            Err(e) => {
                return Err(e);
            },
            Ok(()) => {},
        }
        self.composer.start_transaction();
        proof {
            assert(old(self)@.transactions.take(0) =~= Seq::<
                crate::ui_tree::composer::Transaction,
            >::empty());
        }
        swap_composer_with_active(active, &mut self.composer);
        Ok(())
    }

    /// Ends a render: the composer that the render displaced is active again
    /// and the region's transaction is closed. Its log keeps what the render
    /// inserted, for the rewind of the next one.
    pub fn end_render(&mut self, active: &mut Composer)
        ensures
            final(active)@ == old(self)@,
            final(self)@ == (ComposerState { in_transaction: false, ..old(active)@ }),
    {
        swap_composer_with_active(active, &mut self.composer);
        self.composer.end_transaction();
    }
}

} // verus!
