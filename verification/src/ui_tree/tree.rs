//! An arena of platform nodes and the mirror of their child lists.
use crate::bindings::view_helpers::UpdateProp;
use crate::ui_tree::platform::{
    as_promised, keeps_nodes, never_refuses, ComposeError, PlatformViewInner,
};
use vstd::prelude::*;

verus! {

/// A handle to one node of a [`ViewTree`]. Copies name the same node.
#[derive(Clone, Copy, Debug, PartialEq, Eq, Structural)]
pub struct PlatformView {
    pub id: usize,
}

/// What the tree knows of one node.
#[verifier::ext_equal]
pub struct NodeState {
    /// The node's children, first to last.
    pub children: Seq<PlatformView>,
    /// How many children each scope of the node has contributed.
    pub scopes: Seq<usize>,
    /// Whether the node sits in a child list.
    pub attached: bool,
}

/// The index at which the scope numbered `depth` starts: the number of
/// children that the first `depth` scopes hold together.
pub open spec fn scope_start(scopes: Seq<usize>, depth: int) -> int
    decreases depth,
{
    if depth <= 0 {
        0
    } else {
        scope_start(scopes, depth - 1) + scopes[depth - 1]
    }
}

/// A node counts each of its children in exactly one scope, and its children
/// are nodes of the same tree.
pub open spec fn node_wf(n: NodeState, len: int) -> bool {
    &&& scope_start(n.scopes, n.scopes.len() as int) == n.children.len()
    &&& n.children.len() <= usize::MAX
    &&& forall|j: int| 0 <= j < n.children.len() ==> (#[trigger] n.children[j]).id < len
}

/// Every node of the tree is well formed.
pub open spec fn tree_wf(s: Seq<NodeState>) -> bool {
    forall|i: int| 0 <= i < s.len() ==> node_wf(#[trigger] s[i], s.len() as int)
}

/// A scope start never decreases with the depth.
pub proof fn lemma_scope_start_monotone(scopes: Seq<usize>, a: int, b: int)
    requires
        a <= b,
    ensures
        0 <= scope_start(scopes, a) <= scope_start(scopes, b),
    decreases b,
{
    if b <= 0 {
    } else if a == b {
        lemma_scope_start_monotone(scopes, a - 1, b - 1);
    } else {
        lemma_scope_start_monotone(scopes, a, b - 1);
    }
}

/// Changing the count of scope `k` moves the start of every later scope by
/// the same amount and leaves the earlier ones alone.
pub proof fn lemma_scope_start_update(scopes: Seq<usize>, k: int, v: usize, depth: int)
    requires
        0 <= k < scopes.len(),
        depth <= scopes.len(),
    ensures
        scope_start(scopes.update(k, v), depth) == scope_start(scopes, depth) + (if k < depth {
            v - scopes[k]
        } else {
            0
        }),
    decreases depth,
{
    if depth > 0 {
        lemma_scope_start_update(scopes, k, v, depth - 1);
    }
}

/// A new scope at the end leaves every start alone.
pub proof fn lemma_scope_start_push(scopes: Seq<usize>, v: usize, depth: int)
    requires
        depth <= scopes.len(),
    ensures
        scope_start(scopes.push(v), depth) == scope_start(scopes, depth),
    decreases depth,
{
    if depth > 0 {
        lemma_scope_start_push(scopes, v, depth - 1);
    }
}

struct Node<V> {
    native: V,
    children: Vec<PlatformView>,
    scopes: Vec<usize>,
    attached: bool,
}

impl<V> Node<V> {
    spec fn state(&self) -> NodeState {
        NodeState { children: self.children@, scopes: self.scopes@, attached: self.attached }
    }
}

/// The nodes of one user interface, each with its platform counterpart.
///
/// The tree mirrors the child list of every node. A mutation is asked of the
/// platform node first and recorded only when the node accepted it, so the
/// mirror holds exactly what the platform was successfully told.
pub struct ViewTree<V> {
    nodes: Vec<Node<V>>,
}

impl<V> View for ViewTree<V> {
    type V = Seq<NodeState>;

    closed spec fn view(&self) -> Seq<NodeState> {
        Seq::new(self.nodes@.len(), |i: int| self.nodes@[i].state())
    }
}

/// The state of a node that was just made: no child, no scope, not attached.
pub open spec fn fresh_node() -> NodeState {
    NodeState { children: Seq::empty(), scopes: Seq::empty(), attached: false }
}

/// `s` after node `view` opened one more scope, which is empty.
pub open spec fn scope_opened(s: Seq<NodeState>, view: PlatformView) -> Seq<NodeState> {
    s.update(
        view.id as int,
        NodeState { scopes: s[view.id as int].scopes.push(0), ..s[view.id as int] },
    )
}

/// `s` after `child` entered the child list of `parent` at `idx` and was
/// counted in the last scope of the first `depth`.
pub open spec fn child_attached(
    s: Seq<NodeState>,
    parent: PlatformView,
    child: PlatformView,
    idx: int,
    depth: int,
) -> Seq<NodeState> {
    let p = s[parent.id as int];
    let s1 = s.update(
        parent.id as int,
        NodeState {
            children: p.children.insert(idx, child),
            scopes: p.scopes.update(depth - 1, (p.scopes[depth - 1] + 1) as usize),
            attached: p.attached,
        },
    );
    s1.update(child.id as int, NodeState { attached: true, ..s1[child.id as int] })
}

/// `s` after the child at `idx` left the child list of `parent` and the last
/// scope of the first `depth` gave it up.
pub open spec fn child_detached(
    s: Seq<NodeState>,
    parent: PlatformView,
    idx: int,
    depth: int,
) -> Seq<NodeState> {
    let p = s[parent.id as int];
    let child = p.children[idx];
    let s1 = s.update(
        parent.id as int,
        NodeState {
            children: p.children.remove(idx),
            scopes: p.scopes.update(depth - 1, (p.scopes[depth - 1] - 1) as usize),
            attached: p.attached,
        },
    );
    s1.update(child.id as int, NodeState { attached: false, ..s1[child.id as int] })
}

/// What an attachment does to the parent, and that it keeps the number of
/// nodes.
pub proof fn lemma_child_attached(
    s: Seq<NodeState>,
    parent: PlatformView,
    child: PlatformView,
    idx: int,
    depth: int,
)
    requires
        parent.id < s.len(),
        child.id < s.len(),
    ensures
        child_attached(s, parent, child, idx, depth).len() == s.len(),
        child_attached(s, parent, child, idx, depth)[parent.id as int].children
            == s[parent.id as int].children.insert(idx, child),
        child_attached(s, parent, child, idx, depth)[parent.id as int].scopes
            == s[parent.id as int].scopes.update(
            depth - 1,
            (s[parent.id as int].scopes[depth - 1] + 1) as usize,
        ),
        child_attached(s, parent, child, idx, depth)[child.id as int].attached,
        forall|q: int|
            0 <= q < s.len() && q != parent.id && q != child.id ==> child_attached(
                s,
                parent,
                child,
                idx,
                depth,
            )[q] == s[q],
        forall|q: int|
            0 <= q < s.len() && q != parent.id ==> child_attached(s, parent, child, idx, depth)[q].children
                == s[q].children && child_attached(s, parent, child, idx, depth)[q].scopes
                == s[q].scopes,
{
}

/// What a detachment does to the parent, and that it keeps the number of
/// nodes.
pub proof fn lemma_child_detached(s: Seq<NodeState>, parent: PlatformView, idx: int, depth: int)
    requires
        parent.id < s.len(),
        0 <= idx < s[parent.id as int].children.len(),
        s[parent.id as int].children[idx].id < s.len(),
    ensures
        child_detached(s, parent, idx, depth).len() == s.len(),
        child_detached(s, parent, idx, depth)[parent.id as int].children
            == s[parent.id as int].children.remove(idx),
        child_detached(s, parent, idx, depth)[parent.id as int].scopes
            == s[parent.id as int].scopes.update(
            depth - 1,
            (s[parent.id as int].scopes[depth - 1] - 1) as usize,
        ),
        !child_detached(s, parent, idx, depth)[s[parent.id as int].children[idx].id as int].attached,
        forall|q: int|
            0 <= q < s.len() && q != parent.id && q != s[parent.id as int].children[idx].id
                ==> child_detached(s, parent, idx, depth)[q] == s[q],
        forall|q: int|
            0 <= q < s.len() && q != parent.id ==> child_detached(s, parent, idx, depth)[q].children
                == s[q].children && child_detached(s, parent, idx, depth)[q].scopes
                == s[q].scopes,
{
}

/// An attachment that the tree lets pass keeps the tree well formed, as long
/// as the child list has room for one more.
pub proof fn lemma_attach_keeps_wf(
    s: Seq<NodeState>,
    parent: PlatformView,
    child: PlatformView,
    idx: int,
    depth: int,
)
    requires
        tree_wf(s),
        attach_refusal(s, parent, child, depth) is None,
        0 <= idx <= s[parent.id as int].children.len(),
        s[parent.id as int].children.len() < usize::MAX,
    ensures
        tree_wf(child_attached(s, parent, child, idx, depth)),
{
    let after = child_attached(s, parent, child, idx, depth);
    let before = s[parent.id as int];
    lemma_child_attached(s, parent, child, idx, depth);
    assert(node_wf(before, s.len() as int));
    lemma_scope_within_total(before.scopes, depth - 1);
    lemma_scope_start_update(
        before.scopes,
        depth - 1,
        (before.scopes[depth - 1] + 1) as usize,
        before.scopes.len() as int,
    );
    assert forall|i: int| 0 <= i < after.len() implies node_wf(
        #[trigger] after[i],
        after.len() as int,
    ) by {
        assert(node_wf(s[i], s.len() as int));
        if i == parent.id {
            let kids = after[i].children;
            assert forall|j: int| 0 <= j < kids.len() implies (#[trigger] kids[j]).id
                < after.len() by {
                if j < idx {
                    assert(kids[j] == before.children[j]);
                } else if j > idx {
                    assert(kids[j] == before.children[j - 1]);
                }
            }
        }
    }
}

/// A detachment that the tree lets pass keeps the tree well formed.
pub proof fn lemma_detach_keeps_wf(s: Seq<NodeState>, parent: PlatformView, idx: int, depth: int)
    requires
        tree_wf(s),
        0 <= idx,
        detach_refusal(s, parent, idx, depth) is None,
    ensures
        tree_wf(child_detached(s, parent, idx, depth)),
{
    let after = child_detached(s, parent, idx, depth);
    let before = s[parent.id as int];
    assert(node_wf(before, s.len() as int));
    assert(before.children[idx].id < s.len());
    lemma_child_detached(s, parent, idx, depth);
    lemma_scope_start_update(
        before.scopes,
        depth - 1,
        (before.scopes[depth - 1] - 1) as usize,
        before.scopes.len() as int,
    );
    assert forall|i: int| 0 <= i < after.len() implies node_wf(
        #[trigger] after[i],
        after.len() as int,
    ) by {
        assert(node_wf(s[i], s.len() as int));
        if i == parent.id {
            let kids = after[i].children;
            assert forall|j: int| 0 <= j < kids.len() implies (#[trigger] kids[j]).id
                < after.len() by {
                if j < idx {
                    assert(kids[j] == before.children[j]);
                } else {
                    assert(kids[j] == before.children[j + 1]);
                }
            }
        }
    }
}

/// The error, if any, with which the tree turns down the wish to attach
/// `child` under `parent` in the last scope of the first `depth`. The platform
/// is asked only where this is `None`.
pub open spec fn attach_refusal(
    s: Seq<NodeState>,
    parent: PlatformView,
    child: PlatformView,
    depth: int,
) -> Option<ComposeError> {
    if parent.id >= s.len() || child.id >= s.len() {
        Some(ComposeError::DetachedNode)
    } else if s[child.id as int].attached {
        Some(ComposeError::AlreadyAttached)
    } else if depth < 1 || depth > s[parent.id as int].scopes.len() {
        Some(ComposeError::ReentrancyViolation)
    } else {
        None
    }
}

/// The error, if any, with which the tree turns down the wish to detach the
/// child at `idx` of `parent` from the last scope of the first `depth`.
pub open spec fn detach_refusal(
    s: Seq<NodeState>,
    parent: PlatformView,
    idx: int,
    depth: int,
) -> Option<ComposeError> {
    if parent.id >= s.len() {
        Some(ComposeError::DetachedNode)
    } else if idx >= s[parent.id as int].children.len() {
        Some(ComposeError::BadIndex)
    } else if depth < 1 || depth > s[parent.id as int].scopes.len() || s[parent.id as int].scopes[depth
        - 1] == 0 {
        Some(ComposeError::ReentrancyViolation)
    } else {
        None
    }
}

/// No platform counterpart but that of `node` differs between `before` and
/// `after`.
pub open spec fn touches_only<V: PlatformViewInner>(
    before: ViewTree<V>,
    after: ViewTree<V>,
    node: PlatformView,
) -> bool {
    &&& after.natives().len() == before.natives().len()
    &&& forall|i: int|
        0 <= i < before.natives().len() && i != node.id ==> after.natives()[i]
            == before.natives()[i]
}

/// The first index from `from` on at which `children` holds `child`, or the
/// length of `children` where it does not.
pub open spec fn child_index(children: Seq<PlatformView>, child: PlatformView, from: int) -> int
    decreases children.len() - from,
{
    if from >= children.len() {
        children.len() as int
    } else if children[from] == child {
        from
    } else {
        child_index(children, child, from + 1)
    }
}

/// What an attachment leaves behind, whatever the platform answered.
///
/// Where the tree itself refuses, the refusal is the result and nothing
/// changes. Otherwise the platform decides: on success the child is at `idx`
/// and counted, on failure the error is the platform's and the mirror is as
/// before.
pub open spec fn attach_outcome(
    before: Seq<NodeState>,
    after: Seq<NodeState>,
    parent: PlatformView,
    child: PlatformView,
    idx: int,
    depth: int,
    r: Result<(), ComposeError>,
) -> bool {
    match attach_refusal(before, parent, child, depth) {
        Some(e) => r == Err::<(), ComposeError>(e) && after == before,
        None => match r {
            Ok(()) => after == child_attached(before, parent, child, idx, depth),
            Err(e) => e is Rejected && after == before,
        },
    }
}

/// What a detachment leaves behind, whatever the platform answered.
pub open spec fn detach_outcome(
    before: Seq<NodeState>,
    after: Seq<NodeState>,
    parent: PlatformView,
    idx: int,
    depth: int,
    r: Result<(), ComposeError>,
) -> bool {
    match detach_refusal(before, parent, idx, depth) {
        Some(e) => r == Err::<(), ComposeError>(e) && after == before,
        None => match r {
            Ok(()) => after == child_detached(before, parent, idx, depth),
            Err(e) => e is Rejected && after == before,
        },
    }
}

/// The count of one scope is at most the number of children of its node.
pub proof fn lemma_scope_within_total(scopes: Seq<usize>, k: int)
    requires
        0 <= k < scopes.len(),
    ensures
        scopes[k] <= scope_start(scopes, scopes.len() as int),
{
    lemma_scope_start_monotone(scopes, k, k);
    lemma_scope_start_monotone(scopes, k + 1, scopes.len() as int);
}

impl<V: PlatformViewInner> ViewTree<V> {
    /// Every node counts its children in its scopes, and every child is a
    /// node of this tree.
    pub open spec fn wf(&self) -> bool {
        tree_wf(self@)
    }

    /// The platform counterparts of the nodes, in the order of their handles.
    pub closed spec fn natives(&self) -> Seq<V> {
        Seq::new(self.nodes@.len(), |i: int| self.nodes@[i].native)
    }

    /// Every node has one platform counterpart.
    pub proof fn lemma_natives_len(&self)
        ensures
            self.natives().len() == self@.len(),
    {
    }

    /// A tree without nodes.
    pub fn new() -> (tree: Self)
        ensures
            tree@ == Seq::<NodeState>::empty(),
            tree.natives() == Seq::<V>::empty(),
            tree.wf(),
    {
        let tree = ViewTree { nodes: Vec::new() };
        assert(tree@ =~= Seq::<NodeState>::empty());
        assert(tree.natives() =~= Seq::<V>::empty());
        tree
    }

    /// How many nodes the tree holds.
    pub fn len(&self) -> (n: usize)
        ensures
            n == self@.len(),
    {
        self.nodes.len()
    }

    /// Whether `view` names a node of this tree.
    pub fn contains(&self, view: &PlatformView) -> (b: bool)
        ensures
            b == (view.id < self@.len()),
    {
        view.id < self.nodes.len()
    }

    /// The platform counterpart of `view`.
    pub fn native(&self, view: &PlatformView) -> (r: Option<&V>)
        ensures
            r == if view.id < self@.len() {
                Some(&self.natives()[view.id as int])
            } else {
                None
            },
    {
        if view.id < self.nodes.len() {
            Some(&self.nodes[view.id].native)
        } else {
            None
        }
    }

    /// How many children `view` has, or `None` where it names no node.
    pub fn child_count(&self, view: &PlatformView) -> (r: Option<usize>)
        ensures
            match r {
                Some(n) => view.id < self@.len() && n == self@[view.id as int].children.len(),
                None => view.id >= self@.len(),
            },
    {
        if view.id < self.nodes.len() {
            Some(self.nodes[view.id].children.len())
        } else {
            None
        }
    }

    /// The child of `view` at `idx`, or `None` where there is none.
    pub fn child_at(&self, view: &PlatformView, idx: usize) -> (r: Option<PlatformView>)
        ensures
            r == if view.id < self@.len() && idx < self@[view.id as int].children.len() {
                Some(self@[view.id as int].children[idx as int])
            } else {
                None
            },
    {
        if view.id < self.nodes.len() && idx < self.nodes[view.id].children.len() {
            Some(self.nodes[view.id].children[idx])
        } else {
            None
        }
    }

    /// Whether `view` sits in a child list; `false` where it names no node.
    pub fn is_attached(&self, view: &PlatformView) -> (b: bool)
        ensures
            b == (view.id < self@.len() && self@[view.id as int].attached),
    {
        view.id < self.nodes.len() && self.nodes[view.id].attached
    }

    /// How many scopes `view` has opened, or `None` where it names no node.
    pub fn scope_count(&self, view: &PlatformView) -> (r: Option<usize>)
        ensures
            match r {
                Some(n) => view.id < self@.len() && n == self@[view.id as int].scopes.len(),
                None => view.id >= self@.len(),
            },
    {
        if view.id < self.nodes.len() {
            Some(self.nodes[view.id].scopes.len())
        } else {
            None
        }
    }

    /// The index at which the scope numbered `depth` of `view` starts.
    ///
    /// Fails with `DetachedNode` where `view` names no node, and with
    /// `ReentrancyViolation` where the node has fewer than `depth` scopes.
    pub fn position(&self, view: &PlatformView, depth: usize) -> (r: Result<usize, ComposeError>)
        requires
            self.wf(),
        ensures
            r == if view.id >= self@.len() {
                Err::<usize, ComposeError>(ComposeError::DetachedNode)
            } else if depth > self@[view.id as int].scopes.len() {
                Err::<usize, ComposeError>(ComposeError::ReentrancyViolation)
            } else {
                Ok::<usize, ComposeError>(
                    scope_start(self@[view.id as int].scopes, depth as int) as usize,
                )
            },
            r matches Ok(idx) ==> idx == scope_start(self@[view.id as int].scopes, depth as int)
                && idx <= self@[view.id as int].children.len(),
    {
        if view.id >= self.nodes.len() {
            return Err(ComposeError::DetachedNode);
        }
        let node = &self.nodes[view.id];
        if depth > node.scopes.len() {
            return Err(ComposeError::ReentrancyViolation);
        }
        let ghost scopes = node.scopes@;
        proof {
            assert(node_wf(self@[view.id as int], self@.len() as int));
            assert(scopes == self@[view.id as int].scopes);
        }
        let total: usize = node.children.len();
        let mut start: usize = 0;
        let mut i: usize = 0;
        while i < depth
            invariant
                i <= depth <= scopes.len(),
                scopes == node.scopes@,
                start == scope_start(scopes, i as int),
                scope_start(scopes, scopes.len() as int) == total,
            decreases depth - i,
        {
            proof {
                lemma_scope_start_monotone(scopes, i as int + 1, scopes.len() as int);
            }
            start = start + node.scopes[i];
            i = i + 1;
        }
        proof {
            lemma_scope_start_monotone(scopes, depth as int, scopes.len() as int);
        }
        Ok(start)
    }

    /// Whether the tree lets `child` be attached under `parent` in the last
    /// scope of the first `depth`: `Ok` where it does, else its refusal.
    pub fn check_attach(&self, parent: &PlatformView, child: &PlatformView, depth: usize) -> (r:
        Result<(), ComposeError>)
        ensures
            r == match attach_refusal(self@, *parent, *child, depth as int) {
                Some(e) => Err::<(), ComposeError>(e),
                None => Ok::<(), ComposeError>(()),
            },
    {
        if parent.id >= self.nodes.len() || child.id >= self.nodes.len() {
            Err(ComposeError::DetachedNode)
        } else if self.nodes[child.id].attached {
            Err(ComposeError::AlreadyAttached)
        } else if depth < 1 || depth > self.nodes[parent.id].scopes.len() {
            Err(ComposeError::ReentrancyViolation)
        } else {
            Ok(())
        }
    }

    /// Whether the tree lets the child at `idx` of `parent` be detached from
    /// the last scope of the first `depth`: `Ok` where it does, else its
    /// refusal.
    pub fn check_detach(&self, parent: &PlatformView, idx: usize, depth: usize) -> (r: Result<
        (),
        ComposeError,
    >)
        ensures
            r == match detach_refusal(self@, *parent, idx as int, depth as int) {
                Some(e) => Err::<(), ComposeError>(e),
                None => Ok::<(), ComposeError>(()),
            },
    {
        if parent.id >= self.nodes.len() {
            Err(ComposeError::DetachedNode)
        } else if idx >= self.nodes[parent.id].children.len() {
            Err(ComposeError::BadIndex)
        } else if depth < 1 || depth > self.nodes[parent.id].scopes.len()
            || self.nodes[parent.id].scopes[depth - 1] == 0 {
            Err(ComposeError::ReentrancyViolation)
        } else {
            Ok(())
        }
    }

    /// Records what the platform answered to the wish to put `child` at `idx`
    /// under `parent`.
    ///
    /// Where the tree itself refuses the attachment, that refusal comes back;
    /// an `idx` beyond the child list gives `BadIndex`. Otherwise an `Ok` from
    /// the platform puts the child into the mirror, and an `Err` comes back as
    /// `Rejected` with the platform's message and changes nothing.
    pub fn record_attach(
        &mut self,
        parent: &PlatformView,
        child: &PlatformView,
        idx: usize,
        depth: usize,
        answer: Result<(), String>,
    ) -> (r: Result<(), ComposeError>)
        requires
            old(self).wf(),
        ensures
            final(self).wf(),
            final(self).natives() == old(self).natives(),
            match attach_refusal(old(self)@, *parent, *child, depth as int) {
                Some(e) => r == Err::<(), ComposeError>(e) && final(self)@ == old(self)@,
                None => if idx > old(self)@[parent.id as int].children.len() {
                    r == Err::<(), ComposeError>(ComposeError::BadIndex) && final(self)@ == old(
                        self,
                    )@
                } else {
                    match answer {
                        Ok(()) => r == Ok::<(), ComposeError>(()) && final(self)@
                            == child_attached(
                            old(self)@,
                            *parent,
                            *child,
                            idx as int,
                            depth as int,
                        ),
                        Err(msg) => r == Err::<(), ComposeError>(ComposeError::Rejected(msg))
                            && final(self)@ == old(self)@,
                    }
                },
            },
    {
        match self.check_attach(parent, child, depth) {
            Err(e) => {
                return Err(e);
            },
            Ok(()) => {},
        }
        if idx > self.nodes[parent.id].children.len() {
            return Err(ComposeError::BadIndex);
        }
        match answer {
            Err(msg) => Err(ComposeError::Rejected(msg)),
            Ok(()) => {
                let ghost before = old(self)@[parent.id as int];
                proof {
                    assert(node_wf(before, old(self)@.len() as int));
                    lemma_scope_within_total(before.scopes, depth as int - 1);
                }
                let node = &mut self.nodes[parent.id];
                node.children.insert(idx, *child);
                let total: usize = node.children.len();
                let count: usize = node.scopes[depth - 1];
                node.scopes.set(depth - 1, count + 1);
                self.nodes[child.id].attached = true;
                proof {
                    let goal = child_attached(
                        old(self)@,
                        *parent,
                        *child,
                        idx as int,
                        depth as int,
                    );
                    assert(self@ =~= goal);
                    assert(self.natives() =~= old(self).natives());
                    lemma_attach_keeps_wf(old(self)@, *parent, *child, idx as int, depth as int);
                }
                Ok(())
            },
        }
    }

    /// Records what the platform answered to the wish to take the child at
    /// `idx` out of `parent`.
    ///
    /// Where the tree itself refuses the detachment, that refusal comes back.
    /// Otherwise an `Ok` from the platform takes the child out of the mirror,
    /// and an `Err` comes back as `Rejected` with the platform's message and
    /// changes nothing.
    pub fn record_detach(
        &mut self,
        parent: &PlatformView,
        idx: usize,
        depth: usize,
        answer: Result<(), String>,
    ) -> (r: Result<(), ComposeError>)
        requires
            old(self).wf(),
        ensures
            final(self).wf(),
            final(self).natives() == old(self).natives(),
            match detach_refusal(old(self)@, *parent, idx as int, depth as int) {
                Some(e) => r == Err::<(), ComposeError>(e) && final(self)@ == old(self)@,
                None => match answer {
                    Ok(()) => r == Ok::<(), ComposeError>(()) && final(self)@ == child_detached(
                        old(self)@,
                        *parent,
                        idx as int,
                        depth as int,
                    ),
                    Err(msg) => r == Err::<(), ComposeError>(ComposeError::Rejected(msg))
                        && final(self)@ == old(self)@,
                },
            },
    {
        match self.check_detach(parent, idx, depth) {
            Err(e) => {
                return Err(e);
            },
            Ok(()) => {},
        }
        match answer {
            Err(msg) => Err(ComposeError::Rejected(msg)),
            Ok(()) => {
                let ghost before = old(self)@[parent.id as int];
                proof {
                    assert(node_wf(before, old(self)@.len() as int));
                    assert(before.children[idx as int].id < old(self)@.len());
                }
                let node = &mut self.nodes[parent.id];
                let child: PlatformView = node.children.remove(idx);
                let count: usize = node.scopes[depth - 1];
                node.scopes.set(depth - 1, count - 1);
                self.nodes[child.id].attached = false;
                proof {
                    let goal = child_detached(old(self)@, *parent, idx as int, depth as int);
                    assert(self@ =~= goal);
                    assert(self.natives() =~= old(self).natives());
                    lemma_detach_keeps_wf(old(self)@, *parent, idx as int, depth as int);
                }
                Ok(())
            },
        }
    }

    /// Puts `child` after the last child of `parent` and counts it in the
    /// last scope of the first `depth`.
    ///
    /// The tree's own refusal comes first and leaves the platform unasked.
    /// Then the platform decides; only the counterpart of `parent` is handed
    /// to it for mutation.
    pub fn append_child(&mut self, parent: &PlatformView, child: &PlatformView, depth: usize) -> (r:
        Result<(), ComposeError>)
        requires
            old(self).wf(),
        ensures
            final(self).wf(),
            attach_outcome(
                old(self)@,
                final(self)@,
                *parent,
                *child,
                old(self)@[parent.id as int].children.len() as int,
                depth as int,
                r,
            ),
            attach_refusal(old(self)@, *parent, *child, depth as int) is Some ==> *final(self)
                == *old(self),
            touches_only(*old(self), *final(self), *parent),
            as_promised::<V>(r),
            keeps_nodes::<V>() ==> final(self).natives() == old(self).natives(),
    {
        match self.check_attach(parent, child, depth) {
            Err(e) => {
                return Err(e);
            },
            Ok(()) => {},
        }
        let raw = match self.nodes[child.id].native.get_raw_view() {
            Ok(raw) => raw,
            Err(msg) => {
                return Err(ComposeError::Rejected(msg));
            },
        };
        let idx: usize = self.nodes[parent.id].children.len();
        let answer = self.nodes[parent.id].native.append_child(&raw);
        proof {
            assert(self@ =~= old(self)@);
        }
        let ghost asked = self.natives();
        let r = self.record_attach(parent, child, idx, depth, answer);
        proof {
            assert forall|i: int|
                0 <= i < old(self).natives().len() && i != parent.id implies self.natives()[i]
                == old(self).natives()[i] by {
                assert(asked[i] == old(self).natives()[i]);
            }
        }
        r
    }

    /// Puts `child` where the scope numbered `depth` of `parent` starts, that
    /// is behind the children of the first `depth` scopes, and counts it in
    /// the last of them.
    ///
    /// The tree's own refusal comes first and leaves the platform unasked.
    /// Then the platform decides; only the counterpart of `parent` is handed
    /// to it for mutation.
    pub fn insert_child_at(&mut self, parent: &PlatformView, child: &PlatformView, depth: usize)
        -> (r: Result<(), ComposeError>)
        requires
            old(self).wf(),
        ensures
            final(self).wf(),
            attach_outcome(
                old(self)@,
                final(self)@,
                *parent,
                *child,
                scope_start(old(self)@[parent.id as int].scopes, depth as int),
                depth as int,
                r,
            ),
            attach_refusal(old(self)@, *parent, *child, depth as int) is Some ==> *final(self)
                == *old(self),
            touches_only(*old(self), *final(self), *parent),
            as_promised::<V>(r),
            keeps_nodes::<V>() ==> final(self).natives() == old(self).natives(),
    {
        match self.check_attach(parent, child, depth) {
            Err(e) => {
                return Err(e);
            },
            Ok(()) => {},
        }
        let idx: usize = match self.position(parent, depth) {
            Ok(idx) => idx,
            Err(e) => {
                return Err(e);
            },
        };
        let raw = match self.nodes[child.id].native.get_raw_view() {
            Ok(raw) => raw,
            Err(msg) => {
                return Err(ComposeError::Rejected(msg));
            },
        };
        let answer = self.nodes[parent.id].native.insert_child_at(&raw, idx);
        proof {
            assert(self@ =~= old(self)@);
        }
        let ghost asked = self.natives();
        let r = self.record_attach(parent, child, idx, depth, answer);
        proof {
            assert forall|i: int|
                0 <= i < old(self).natives().len() && i != parent.id implies self.natives()[i]
                == old(self).natives()[i] by {
                assert(asked[i] == old(self).natives()[i]);
            }
        }
        r
    }

    /// Takes the child at `idx` out of `parent`; the last scope of the first
    /// `depth` gives it up. The child stays a node of the tree and can be
    /// attached again.
    ///
    /// The tree's own refusal comes first and leaves the platform unasked.
    /// Then the platform decides; only the counterpart of `parent` is handed
    /// to it for mutation.
    pub fn remove_child_index(&mut self, parent: &PlatformView, idx: usize, depth: usize) -> (r:
        Result<(), ComposeError>)
        requires
            old(self).wf(),
        ensures
            final(self).wf(),
            detach_outcome(old(self)@, final(self)@, *parent, idx as int, depth as int, r),
            detach_refusal(old(self)@, *parent, idx as int, depth as int) is Some ==> *final(self)
                == *old(self),
            touches_only(*old(self), *final(self), *parent),
            as_promised::<V>(r),
            keeps_nodes::<V>() ==> final(self).natives() == old(self).natives(),
    {
        match self.check_detach(parent, idx, depth) {
            Err(e) => {
                return Err(e);
            },
            Ok(()) => {},
        }
        let answer = self.nodes[parent.id].native.remove_child_index(idx);
        proof {
            assert(self@ =~= old(self)@);
        }
        let ghost asked = self.natives();
        let r = self.record_detach(parent, idx, depth, answer);
        proof {
            assert forall|i: int|
                0 <= i < old(self).natives().len() && i != parent.id implies self.natives()[i]
                == old(self).natives()[i] by {
                assert(asked[i] == old(self).natives()[i]);
            }
        }
        r
    }

    /// Takes `child` out of `parent`, from the first place at which it is
    /// found; the last scope of the first `depth` gives it up.
    ///
    /// Fails with `DetachedNode` where `parent` names no node or does not
    /// hold `child`. From there on the call is as
    /// [`ViewTree::remove_child_index`] with the index of `child`, but that
    /// the platform is asked to remove the child by its native reference.
    pub fn remove_child(&mut self, parent: &PlatformView, child: &PlatformView, depth: usize) -> (r:
        Result<(), ComposeError>)
        requires
            old(self).wf(),
        ensures
            final(self).wf(),
            touches_only(*old(self), *final(self), *parent),
            as_promised::<V>(r),
            keeps_nodes::<V>() ==> final(self).natives() == old(self).natives(),
            parent.id >= old(self)@.len() ==> r == Err::<(), ComposeError>(
                ComposeError::DetachedNode,
            ) && *final(self) == *old(self),
            parent.id < old(self)@.len() ==> ({
                let idx = child_index(old(self)@[parent.id as int].children, *child, 0);
                if idx >= old(self)@[parent.id as int].children.len() {
                    r == Err::<(), ComposeError>(ComposeError::DetachedNode) && *final(self)
                        == *old(self)
                } else {
                    &&& detach_outcome(old(self)@, final(self)@, *parent, idx, depth as int, r)
                    &&& detach_refusal(old(self)@, *parent, idx, depth as int) is Some
                        ==> *final(self) == *old(self)
                }
            }),
    {
        if parent.id >= self.nodes.len() {
            return Err(ComposeError::DetachedNode);
        }
        let n: usize = self.nodes[parent.id].children.len();
        let ghost kids = self@[parent.id as int].children;
        let mut idx: usize = 0;
        while idx < n && self.nodes[parent.id].children[idx].id != child.id
            invariant
                idx <= n,
                n == kids.len(),
                parent.id < self.nodes@.len(),
                kids == self.nodes@[parent.id as int].children@,
                child_index(kids, *child, 0) == child_index(kids, *child, idx as int),
            decreases n - idx,
        {
            idx = idx + 1;
        }
        if idx >= n {
            return Err(ComposeError::DetachedNode);
        }
        proof {
            assert(kids[idx as int] == *child);
        }
        match self.check_detach(parent, idx, depth) {
            Err(e) => {
                return Err(e);
            },
            Ok(()) => {},
        }
        proof {
            assert(node_wf(self@[parent.id as int], self@.len() as int));
            assert(kids[idx as int].id < self@.len());
        }
        let raw = match self.nodes[child.id].native.get_raw_view() {
            Ok(raw) => raw,
            Err(msg) => {
                return Err(ComposeError::Rejected(msg));
            },
        };
        let answer = self.nodes[parent.id].native.remove_child(&raw);
        proof {
            assert(self@ =~= old(self)@);
        }
        let ghost asked = self.natives();
        let r = self.record_detach(parent, idx, depth, answer);
        proof {
            assert forall|i: int|
                0 <= i < old(self).natives().len() && i != parent.id implies self.natives()[i]
                == old(self).natives()[i] by {
                assert(asked[i] == old(self).natives()[i]);
            }
        }
        r
    }

    /// Sets the property `s` of `view` to `v` on its platform counterpart.
    ///
    /// Fails with `DetachedNode`, the platform unasked, where `view` names no
    /// node; otherwise the result is the platform's, and what becomes of the
    /// counterpart is what its `prop_change` allows. The mirror never
    /// changes, and no counterpart but that of `view` is touched.
    pub fn update_prop<T>(&mut self, view: &PlatformView, s: &str, v: T) -> (r: Result<
        (),
        ComposeError,
    >) where V: UpdateProp<T>
        ensures
            final(self)@ == old(self)@,
            touches_only(*old(self), *final(self), *view),
            view.id >= old(self)@.len() ==> r == Err::<(), ComposeError>(
                ComposeError::DetachedNode,
            ) && *final(self) == *old(self),
            view.id < old(self)@.len() ==> V::prop_change(
                old(self).natives()[view.id as int],
                final(self).natives()[view.id as int],
                s@,
                v,
                r,
            ),
    {
        if view.id >= self.nodes.len() {
            return Err(ComposeError::DetachedNode);
        }
        let answer = self.nodes[view.id].native.update_prop(s, v);
        proof {
            assert(self@ =~= old(self)@);
        }
        answer
    }

    /// The native reference of `view`, as its platform counterpart gives it.
    ///
    /// Fails with `DetachedNode` where `view` names no node, and with
    /// `Rejected` where the platform refuses.
    pub fn get_raw_view(&self, view: &PlatformView) -> (r: Result<V::Raw, ComposeError>)
        ensures
            view.id >= self@.len() ==> (r matches Err(e) && e is DetachedNode),
            view.id < self@.len() ==> r is Ok || (r matches Err(e) && e is Rejected),
            view.id < self@.len() && never_refuses::<V>() ==> r is Ok,
    {
        if view.id >= self.nodes.len() {
            return Err(ComposeError::DetachedNode);
        }
        match self.nodes[view.id].native.get_raw_view() {
            Ok(raw) => Ok(raw),
            Err(msg) => Err(ComposeError::Rejected(msg)),
        }
    }

    /// Opens one more scope on `view` and returns how many it has then.
    pub fn open_scope(&mut self, view: &PlatformView) -> (r: Result<usize, ComposeError>)
        requires
            old(self).wf(),
        ensures
            final(self).wf(),
            final(self).natives() == old(self).natives(),
            view.id >= old(self)@.len() ==> r == Err::<usize, ComposeError>(
                ComposeError::DetachedNode,
            ) && final(self)@ == old(self)@,
            view.id < old(self)@.len() ==> (r matches Ok(depth) && depth == old(
                self,
            )@[view.id as int].scopes.len() + 1) && final(self)@ == scope_opened(old(self)@, *view),
    {
        if view.id >= self.nodes.len() {
            return Err(ComposeError::DetachedNode);
        }
        let node = &mut self.nodes[view.id];
        node.scopes.push(0);
        let depth: usize = node.scopes.len();
        proof {
            let before = old(self)@[view.id as int];
            lemma_scope_start_push(before.scopes, 0, before.scopes.len() as int);
            assert(self@ =~= scope_opened(old(self)@, *view));
            assert(self.natives() =~= old(self).natives());
            assert forall|i: int| 0 <= i < self@.len() implies node_wf(
                #[trigger] self@[i],
                self@.len() as int,
            ) by {
                assert(node_wf(old(self)@[i], old(self)@.len() as int));
            }
        }
        Ok(depth)
    }
}

impl PlatformView {
    /// Adds a node with the platform counterpart `underlying_view` to `tree`
    /// and returns its handle.
    pub fn new<V: PlatformViewInner>(tree: &mut ViewTree<V>, underlying_view: V) -> (view:
        PlatformView)
        requires
            old(tree).wf(),
        ensures
            view.id == old(tree)@.len(),
            final(tree)@ == old(tree)@.push(fresh_node()),
            final(tree).natives() == old(tree).natives().push(underlying_view),
            final(tree).wf(),
    {
        let id: usize = tree.nodes.len();
        tree.nodes.push(
            Node {
                native: underlying_view,
                children: Vec::new(),
                scopes: Vec::new(),
                attached: false,
            },
        );
        proof {
            assert(tree@ =~= old(tree)@.push(fresh_node()));
            assert(tree.natives() =~= old(tree).natives().push(underlying_view));
            assert forall|i: int| 0 <= i < tree@.len() implies node_wf(
                #[trigger] tree@[i],
                tree@.len() as int,
            ) by {
                if i < old(tree)@.len() {
                    assert(node_wf(old(tree)@[i], old(tree)@.len() as int));
                }
            }
        }
        PlatformView { id }
    }
}

} // verus!
