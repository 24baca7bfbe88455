use std::cell::Cell;
use std::rc::Rc;

use wired::bindings::test::{DummyPlatformView, StackLayout, Text};
use wired::helpers::match_signal;
use wired::ui_tree::composer::{
    compose_once, enter_parent, leave_parent, set_root_view, swap_composer_with_active,
    Composable, Composer, PositionContext, Transaction,
};
use wired::ui_tree::platform::{ComposeError, PlatformViewInner};
use wired::ui_tree::tree::{PlatformView, ViewTree};

/// A platform node that refuses every mutation while its switch is on.
struct Flaky {
    refuse: Rc<Cell<bool>>,
    calls: Rc<Cell<usize>>,
}

impl Flaky {
    fn answer(&self) -> Result<(), String> {
        self.calls.set(self.calls.get() + 1);
        if self.refuse.get() {
            Err("no".to_string())
        } else {
            Ok(())
        }
    }
}

impl PlatformViewInner for Flaky {
    type Raw = ();

    fn append_child(&mut self, _c: &()) -> Result<(), String> {
        self.answer()
    }

    fn insert_child_at(&mut self, _c: &(), _idx: usize) -> Result<(), String> {
        self.answer()
    }

    fn remove_child(&mut self, _c: &()) -> Result<(), String> {
        self.answer()
    }

    fn remove_child_index(&mut self, _idx: usize) -> Result<(), String> {
        self.answer()
    }

    fn get_raw_view(&self) -> Result<(), String> {
        Ok(())
    }
}

fn flaky_node(tree: &mut ViewTree<Flaky>, refuse: &Rc<Cell<bool>>, calls: &Rc<Cell<usize>>) -> PlatformView {
    PlatformView::new(tree, Flaky { refuse: refuse.clone(), calls: calls.clone() })
}

fn children(tree: &ViewTree<DummyPlatformView>, view: &PlatformView) -> Vec<usize> {
    let n = tree.child_count(view).unwrap();
    (0..n).map(|i| tree.child_at(view, i).unwrap().id).collect()
}

fn texts(tree: &ViewTree<DummyPlatformView>, view: &PlatformView) -> Vec<String> {
    let n = tree.child_count(view).unwrap();
    (0..n)
        .map(|i| {
            let child = tree.child_at(view, i).unwrap();
            tree.native(&child).unwrap().prop_at(0).unwrap().1.to_string()
        })
        .collect()
}

fn rooted() -> (ViewTree<DummyPlatformView>, Composer, PlatformView) {
    let mut tree = ViewTree::new();
    let mut composer = Composer::new();
    let root = DummyPlatformView::new(&mut tree, "Root");
    set_root_view(&mut composer, &mut tree, root).unwrap();
    (tree, composer, root)
}

fn add_text(tree: &mut ViewTree<DummyPlatformView>, composer: &mut Composer, s: &str) -> PlatformView {
    let mut text = Text::new(tree, s);
    text.compose(composer, tree).unwrap();
    text.platform_view()
}

#[test]
fn fresh_composer_has_nothing() {
    let composer = Composer::new();
    assert_eq!(composer.current_parent(), None);
    assert_eq!(composer.position_context(), PositionContext { depth: 0 });
    assert_eq!(composer.transaction_start_idx(), PositionContext { depth: 0 });
    assert!(!composer.in_transaction());
    assert!(!composer.strict());
    assert_eq!(composer.transaction_count(), 0);
    assert_eq!(composer.transaction_at(0), None);
    let other = Composer::default();
    assert_eq!(other.current_parent(), None);
}

#[test]
fn add_view_without_parent_is_silent() {
    let mut tree: ViewTree<DummyPlatformView> = ViewTree::new();
    let view = DummyPlatformView::new(&mut tree, "Text");
    let mut composer = Composer::new();
    assert_eq!(composer.add_view(&mut tree, &view), Ok(()));
    assert!(!tree.is_attached(&view));
    assert_eq!(composer.transaction_count(), 0);
}

#[test]
fn strict_composer_fails_without_parent() {
    let mut tree: ViewTree<DummyPlatformView> = ViewTree::new();
    let view = DummyPlatformView::new(&mut tree, "Text");
    let mut composer = Composer::new();
    composer.set_strict(true);
    assert!(composer.strict());
    assert_eq!(
        composer.add_view(&mut tree, &view),
        Err(ComposeError::ReentrancyViolation)
    );
    assert!(!tree.is_attached(&view));
}

#[test]
fn add_view_appends_and_counts() {
    let (mut tree, mut composer, root) = rooted();
    assert_eq!(composer.current_idx(&tree), Ok(0));
    let a = add_text(&mut tree, &mut composer, "a");
    assert_eq!(composer.current_idx(&tree), Ok(1));
    let b = add_text(&mut tree, &mut composer, "b");
    assert_eq!(composer.current_idx(&tree), Ok(2));
    assert_eq!(children(&tree, &root), vec![a.id, b.id]);
    assert!(tree.is_attached(&a));
    assert_eq!(composer.transaction_count(), 0);
}

#[test]
fn same_view_twice_is_placed_once() {
    let (mut tree, mut composer, root) = rooted();
    let view = DummyPlatformView::new(&mut tree, "Text");
    assert_eq!(composer.add_view(&mut tree, &view), Ok(()));
    assert_eq!(
        composer.add_view(&mut tree, &view),
        Err(ComposeError::AlreadyAttached)
    );
    assert_eq!(children(&tree, &root), vec![view.id]);
    assert_eq!(composer.current_idx(&tree), Ok(1));
    assert_eq!(compose_once(&mut composer, &mut tree, &view), Ok(()));
    assert_eq!(children(&tree, &root), vec![view.id]);
}

#[test]
fn composing_a_subtree_twice_mutates_nothing() {
    let mut tree: ViewTree<Flaky> = ViewTree::new();
    let refuse = Rc::new(Cell::new(false));
    let calls = Rc::new(Cell::new(0));
    let root = flaky_node(&mut tree, &refuse, &calls);
    let mut composer = Composer::new();
    set_root_view(&mut composer, &mut tree, root).unwrap();
    let a = flaky_node(&mut tree, &refuse, &calls);
    let b = flaky_node(&mut tree, &refuse, &calls);
    compose_once(&mut composer, &mut tree, &a).unwrap();
    compose_once(&mut composer, &mut tree, &b).unwrap();
    assert_eq!(calls.get(), 2);
    compose_once(&mut composer, &mut tree, &a).unwrap();
    compose_once(&mut composer, &mut tree, &b).unwrap();
    assert_eq!(calls.get(), 2);
    assert_eq!(composer.add_view(&mut tree, &a), Err(ComposeError::AlreadyAttached));
    assert_eq!(calls.get(), 2);
    assert_eq!(tree.child_count(&root), Some(2));
}

#[test]
fn unknown_handles_are_detached_nodes() {
    let (mut tree, mut composer, root) = rooted();
    let stranger = PlatformView { id: 99 };
    assert_eq!(
        composer.add_view(&mut tree, &stranger),
        Err(ComposeError::DetachedNode)
    );
    assert_eq!(tree.child_count(&stranger), None);
    assert_eq!(tree.child_at(&root, 0), None);
    assert!(!tree.contains(&stranger));
    assert!(!tree.is_attached(&stranger));
    assert_eq!(tree.scope_count(&stranger), None);
    assert_eq!(tree.position(&stranger, 0), Err(ComposeError::DetachedNode));
    assert_eq!(tree.open_scope(&stranger), Err(ComposeError::DetachedNode));
    assert!(tree.native(&stranger).is_none());
    assert_eq!(
        set_root_view(&mut composer, &mut tree, stranger),
        Err(ComposeError::DetachedNode)
    );
    assert_eq!(composer.current_parent(), Some(root));
    assert_eq!(
        enter_parent(&mut composer, &mut tree, &stranger),
        Err(ComposeError::DetachedNode)
    );
    assert!(matches!(tree.get_raw_view(&stranger), Err(ComposeError::DetachedNode)));
    assert!(tree.get_raw_view(&root).is_ok());
}

#[test]
fn remove_view_at_checks_index_parent_and_scope() {
    let (mut tree, mut composer, root) = rooted();
    let lone = Composer::new();
    assert_eq!(
        lone.remove_view_at(&mut tree, 0),
        Err(ComposeError::ReentrancyViolation)
    );
    assert_eq!(composer.remove_view_at(&mut tree, 0), Err(ComposeError::BadIndex));
    let a = add_text(&mut tree, &mut composer, "a");
    let b = add_text(&mut tree, &mut composer, "b");
    assert_eq!(composer.remove_view_at(&mut tree, 2), Err(ComposeError::BadIndex));
    assert_eq!(composer.remove_view_at(&mut tree, 0), Ok(()));
    assert_eq!(children(&tree, &root), vec![b.id]);
    assert!(!tree.is_attached(&a));
    assert_eq!(composer.current_idx(&tree), Ok(1));
    // a scope that counts nothing has nothing to give up
    assert_eq!(tree.open_scope(&root), Ok(2));
    assert_eq!(
        tree.remove_child_index(&root, 0, 2),
        Err(ComposeError::ReentrancyViolation)
    );
    assert_eq!(tree.remove_child_index(&root, 0, 1), Ok(()));
    assert_eq!(tree.child_count(&root), Some(0));
    // the view that left can be placed again
    assert_eq!(composer.add_view(&mut tree, &a), Ok(()));
    assert_eq!(children(&tree, &root), vec![a.id]);
}

#[test]
fn remove_child_finds_the_child() {
    let (mut tree, mut composer, root) = rooted();
    let a = add_text(&mut tree, &mut composer, "a");
    let b = add_text(&mut tree, &mut composer, "b");
    let c = add_text(&mut tree, &mut composer, "c");
    assert_eq!(tree.remove_child(&root, &b, 1), Ok(()));
    assert_eq!(children(&tree, &root), vec![a.id, c.id]);
    assert!(!tree.is_attached(&b));
    assert_eq!(tree.position(&root, 1), Ok(2));
    assert_eq!(tree.remove_child(&root, &b, 1), Err(ComposeError::DetachedNode));
    assert_eq!(
        tree.remove_child(&PlatformView { id: 50 }, &a, 1),
        Err(ComposeError::DetachedNode)
    );
    assert_eq!(
        tree.remove_child(&root, &a, 2),
        Err(ComposeError::ReentrancyViolation)
    );
    assert_eq!(children(&tree, &root), vec![a.id, c.id]);
}

#[test]
fn position_is_the_sum_of_the_scopes_before() {
    let (mut tree, mut composer, root) = rooted();
    add_text(&mut tree, &mut composer, "a");
    add_text(&mut tree, &mut composer, "b");
    assert_eq!(tree.open_scope(&root), Ok(2));
    let c = DummyPlatformView::new(&mut tree, "Text");
    assert_eq!(tree.append_child(&root, &c, 2), Ok(()));
    assert_eq!(tree.position(&root, 0), Ok(0));
    assert_eq!(tree.position(&root, 1), Ok(2));
    assert_eq!(tree.position(&root, 2), Ok(3));
    assert_eq!(tree.position(&root, 3), Err(ComposeError::ReentrancyViolation));
    let d = DummyPlatformView::new(&mut tree, "Text");
    assert_eq!(tree.insert_child_at(&root, &d, 1), Ok(()));
    assert_eq!(children(&tree, &root)[2], d.id);
    assert_eq!(children(&tree, &root)[3], c.id);
    assert_eq!(tree.position(&root, 1), Ok(3));
    assert_eq!(tree.position(&root, 2), Ok(4));
    let e = DummyPlatformView::new(&mut tree, "Text");
    assert_eq!(
        tree.insert_child_at(&root, &e, 0),
        Err(ComposeError::ReentrancyViolation)
    );
    assert_eq!(
        tree.append_child(&root, &e, 3),
        Err(ComposeError::ReentrancyViolation)
    );
    assert_eq!(tree.check_attach(&root, &e, 1), Ok(()));
    assert_eq!(tree.check_attach(&root, &d, 1), Err(ComposeError::AlreadyAttached));
    assert_eq!(tree.check_detach(&root, 4, 1), Err(ComposeError::BadIndex));
    assert_eq!(tree.check_detach(&root, 3, 2), Ok(()));
    assert_eq!(
        tree.record_attach(&root, &e, 9, 1, Ok(())),
        Err(ComposeError::BadIndex)
    );
    assert_eq!(
        tree.record_attach(&root, &e, 0, 1, Err("busy".to_string())),
        Err(ComposeError::Rejected("busy".to_string()))
    );
    assert_eq!(tree.record_attach(&root, &e, 0, 1, Ok(())), Ok(()));
    assert_eq!(children(&tree, &root)[0], e.id);
    assert_eq!(
        tree.record_detach(&root, 0, 1, Err("busy".to_string())),
        Err(ComposeError::Rejected("busy".to_string()))
    );
    assert_eq!(tree.record_detach(&root, 0, 1, Ok(())), Ok(()));
    assert!(!tree.is_attached(&e));
    assert_eq!(tree.len(), 6);
}

#[test]
fn position_context_follows_the_scopes() {
    let mut tree: ViewTree<DummyPlatformView> = ViewTree::new();
    let root = DummyPlatformView::new(&mut tree, "Root");
    let mut pc = PositionContext::new(&mut tree, &root).unwrap();
    assert_eq!(pc, PositionContext { depth: 1 });
    assert_eq!(pc.get_current_idx(&tree, &root), Ok(0));
    let snapshot = pc.snapshot_context(&mut tree, &root).unwrap();
    assert_eq!(snapshot, PositionContext { depth: 1 });
    assert_eq!(pc, PositionContext { depth: 2 });
    pc.push_new_frame(&mut tree, &root).unwrap();
    assert_eq!(pc, PositionContext { depth: 3 });
    assert_eq!(tree.scope_count(&root), Some(3));
    let beyond = PositionContext { depth: 4 };
    assert_eq!(
        beyond.get_current_idx(&tree, &root),
        Err(ComposeError::ReentrancyViolation)
    );
    let stranger = PlatformView { id: 7 };
    assert_eq!(
        PositionContext::new(&mut tree, &stranger),
        Err(ComposeError::DetachedNode)
    );
    assert_eq!(
        pc.push_new_frame(&mut tree, &stranger),
        Err(ComposeError::DetachedNode)
    );
    assert_eq!(pc, PositionContext { depth: 3 });
}

#[test]
fn transaction_records_relative_indices() {
    let (mut tree, mut composer, root) = rooted();
    add_text(&mut tree, &mut composer, "before");
    let mut region = match_signal(&mut composer, &mut tree).unwrap();
    add_text(&mut tree, &mut composer, "after");
    region.begin_render(&mut composer, &mut tree).unwrap();
    assert!(composer.in_transaction());
    assert_eq!(composer.transaction_start_idx(), PositionContext { depth: 1 });
    assert_eq!(composer.position_context(), PositionContext { depth: 2 });
    assert_eq!(composer.current_idx(&tree), Ok(1));
    add_text(&mut tree, &mut composer, "x");
    add_text(&mut tree, &mut composer, "y");
    add_text(&mut tree, &mut composer, "z");
    assert_eq!(composer.transaction_count(), 3);
    assert_eq!(composer.transaction_at(0), Some(Transaction::Add(0)));
    assert_eq!(composer.transaction_at(1), Some(Transaction::Add(1)));
    assert_eq!(composer.transaction_at(2), Some(Transaction::Add(2)));
    assert_eq!(composer.transaction_at(3), None);
    assert_eq!(composer.current_idx(&tree), Ok(4));
    region.end_render(&mut composer);
    assert!(!composer.in_transaction());
    assert_eq!(composer.transaction_count(), 0);
    assert_eq!(texts(&tree, &root), vec!["before", "x", "y", "z", "after"]);
}

#[test]
fn rewind_returns_the_child_list() {
    for n in 0..6 {
        let (mut tree, mut composer, root) = rooted();
        add_text(&mut tree, &mut composer, "before");
        let mut region = match_signal(&mut composer, &mut tree).unwrap();
        add_text(&mut tree, &mut composer, "after");
        let start = children(&tree, &root);
        region.begin_render(&mut composer, &mut tree).unwrap();
        for i in 0..n {
            add_text(&mut tree, &mut composer, &format!("v{}", i));
        }
        assert_eq!(tree.child_count(&root), Some(2 + n));
        assert_eq!(composer.rewind_transaction(&mut tree), Ok(()));
        assert_eq!(composer.transaction_count(), 0);
        assert_eq!(children(&tree, &root), start);
        assert_eq!(composer.current_idx(&tree), Ok(1));
        region.end_render(&mut composer);
    }
}

#[test]
fn rewind_of_an_empty_log_does_nothing() {
    let mut tree: ViewTree<DummyPlatformView> = ViewTree::new();
    let mut composer = Composer::new();
    assert_eq!(composer.rewind_transaction(&mut tree), Ok(()));
    let (mut tree, mut composer, root) = rooted();
    add_text(&mut tree, &mut composer, "a");
    assert_eq!(composer.rewind_transaction(&mut tree), Ok(()));
    assert_eq!(tree.child_count(&root), Some(1));
}

#[test]
fn transaction_that_starts_behind_its_position_is_refused() {
    let (mut tree, mut composer, _root) = rooted();
    let mut region = match_signal(&mut composer, &mut tree).unwrap();
    region.begin_render(&mut composer, &mut tree).unwrap();
    let layout = StackLayout::new(&mut tree);
    let scope = enter_parent(&mut composer, &mut tree, &layout.underlying_view).unwrap();
    // the region begins at scope 1 of the root; inside the layout the
    // composer stands at depth 1, so a transaction has nowhere to begin
    composer.start_transaction();
    let view = DummyPlatformView::new(&mut tree, "Text");
    assert_eq!(
        composer.add_view(&mut tree, &view),
        Err(ComposeError::ReentrancyViolation)
    );
    assert_eq!(tree.child_count(&layout.underlying_view), Some(0));
    assert_eq!(composer.transaction_count(), 0);
    composer.end_transaction();
    assert_eq!(composer.add_view(&mut tree, &view), Ok(()));
    assert_eq!(composer.transaction_count(), 0);
    leave_parent(&mut composer, scope);
    region.end_render(&mut composer);
}

#[test]
fn transaction_of_a_root_composer_counts_from_the_start() {
    let (mut tree, mut composer, root) = rooted();
    add_text(&mut tree, &mut composer, "a");
    composer.start_transaction();
    add_text(&mut tree, &mut composer, "b");
    assert_eq!(composer.transaction_at(0), Some(Transaction::Add(1)));
    composer.end_transaction();
    assert_eq!(composer.rewind_transaction(&mut tree), Ok(()));
    assert_eq!(texts(&tree, &root), vec!["a"]);
}

#[test]
fn rejected_add_leaves_no_trace() {
    let mut tree: ViewTree<Flaky> = ViewTree::new();
    let refuse = Rc::new(Cell::new(false));
    let calls = Rc::new(Cell::new(0));
    let root = flaky_node(&mut tree, &refuse, &calls);
    let mut composer = Composer::new();
    set_root_view(&mut composer, &mut tree, root).unwrap();
    let mut region = match_signal(&mut composer, &mut tree).unwrap();
    region.begin_render(&mut composer, &mut tree).unwrap();
    let a = flaky_node(&mut tree, &refuse, &calls);
    let b = flaky_node(&mut tree, &refuse, &calls);
    assert_eq!(composer.add_view(&mut tree, &a), Ok(()));
    refuse.set(true);
    assert_eq!(
        composer.add_view(&mut tree, &b),
        Err(ComposeError::Rejected("no".to_string()))
    );
    assert_eq!(composer.transaction_count(), 1);
    assert_eq!(composer.current_idx(&tree), Ok(1));
    assert_eq!(tree.child_count(&root), Some(1));
    assert!(!tree.is_attached(&b));
    // outside a transaction the refusal comes through as well
    region.end_render(&mut composer);
    assert_eq!(
        composer.add_view(&mut tree, &b),
        Err(ComposeError::Rejected("no".to_string()))
    );
    assert_eq!(tree.child_count(&root), Some(1));
}

#[test]
fn failed_rewind_keeps_what_is_left() {
    let mut tree: ViewTree<Flaky> = ViewTree::new();
    let refuse = Rc::new(Cell::new(false));
    let calls = Rc::new(Cell::new(0));
    let root = flaky_node(&mut tree, &refuse, &calls);
    let mut composer = Composer::new();
    set_root_view(&mut composer, &mut tree, root).unwrap();
    let mut region = match_signal(&mut composer, &mut tree).unwrap();
    region.begin_render(&mut composer, &mut tree).unwrap();
    for _ in 0..3 {
        let v = flaky_node(&mut tree, &refuse, &calls);
        composer.add_view(&mut tree, &v).unwrap();
    }
    region.end_render(&mut composer);
    refuse.set(true);
    assert_eq!(
        region.begin_render(&mut composer, &mut tree),
        Err(ComposeError::Rejected("no".to_string()))
    );
    assert_eq!(tree.child_count(&root), Some(3));
    assert!(!composer.in_transaction());
    refuse.set(false);
    assert_eq!(region.begin_render(&mut composer, &mut tree), Ok(()));
    assert_eq!(tree.child_count(&root), Some(0));
    assert_eq!(composer.transaction_count(), 0);
    region.end_render(&mut composer);
}

#[test]
fn rewind_without_parent_is_a_violation() {
    let (mut tree, mut composer, _root) = rooted();
    let mut region = match_signal(&mut composer, &mut tree).unwrap();
    region.begin_render(&mut composer, &mut tree).unwrap();
    add_text(&mut tree, &mut composer, "x");
    // the log travels to a composer that has no parent
    let mut lone = Composer::new();
    swap_composer_with_active(&mut composer, &mut lone);
    assert_eq!(lone.transaction_count(), 1);
    assert_eq!(composer.transaction_count(), 0);
    swap_composer_with_active(&mut composer, &mut lone);
    assert_eq!(composer.transaction_count(), 1);
    assert_eq!(composer.rewind_transaction(&mut tree), Ok(()));
}

#[test]
fn enter_and_leave_restore_the_composer() {
    let (mut tree, mut composer, root) = rooted();
    add_text(&mut tree, &mut composer, "a");
    let layout = StackLayout::new(&mut tree);
    let before = (
        composer.current_parent(),
        composer.position_context(),
        composer.in_transaction(),
    );
    let scope = enter_parent(&mut composer, &mut tree, &layout.underlying_view).unwrap();
    assert_eq!(scope.parent, root);
    assert_eq!(composer.current_parent(), Some(layout.underlying_view));
    assert_eq!(composer.position_context(), PositionContext { depth: 1 });
    let inner = add_text(&mut tree, &mut composer, "inner");
    leave_parent(&mut composer, scope);
    assert_eq!(
        (
            composer.current_parent(),
            composer.position_context(),
            composer.in_transaction()
        ),
        before
    );
    assert_eq!(children(&tree, &layout.underlying_view), vec![inner.id]);
    assert_eq!(tree.child_count(&root), Some(1));
    let mut lone = Composer::new();
    assert_eq!(
        enter_parent(&mut lone, &mut tree, &layout.underlying_view),
        Err(ComposeError::ReentrancyViolation)
    );
}

#[test]
fn nested_parent_inside_a_render_is_not_recorded() {
    let (mut tree, mut composer, root) = rooted();
    let mut region = match_signal(&mut composer, &mut tree).unwrap();
    region.begin_render(&mut composer, &mut tree).unwrap();
    let mut layout = StackLayout::new(&mut tree);
    let scope = enter_parent(&mut composer, &mut tree, &layout.underlying_view).unwrap();
    assert!(scope.in_transaction);
    assert!(!composer.in_transaction());
    add_text(&mut tree, &mut composer, "inside");
    add_text(&mut tree, &mut composer, "inside too");
    leave_parent(&mut composer, scope);
    assert!(composer.in_transaction());
    layout.compose(&mut composer, &mut tree).unwrap();
    assert_eq!(composer.transaction_count(), 1);
    region.end_render(&mut composer);
    assert_eq!(tree.child_count(&root), Some(1));
    assert_eq!(tree.child_count(&layout.underlying_view), Some(2));
    region.begin_render(&mut composer, &mut tree).unwrap();
    assert_eq!(tree.child_count(&root), Some(0));
    assert_eq!(tree.child_count(&layout.underlying_view), Some(2));
    region.end_render(&mut composer);
}

fn render(
    region: &mut wired::helpers::SignalRegion,
    tree: &mut ViewTree<DummyPlatformView>,
    composer: &mut Composer,
    names: &[&str],
) {
    region.begin_render(composer, tree).unwrap();
    for name in names {
        add_text(tree, composer, name);
    }
    region.end_render(composer);
}

#[test]
fn toggled_region_shows_the_same_lists() {
    let (mut tree, mut composer, _root) = rooted();
    let layout = StackLayout::new(&mut tree);
    let scope = enter_parent(&mut composer, &mut tree, &layout.underlying_view).unwrap();
    let mut region = match_signal(&mut composer, &mut tree).unwrap();
    leave_parent(&mut composer, scope);
    let on: [&str; 2] = ["A", "B"];
    let off: [&str; 1] = ["C"];
    let mut seen = Vec::new();
    for state in [true, false, true, false] {
        render(&mut region, &mut tree, &mut composer, if state { &on } else { &off });
        seen.push(texts(&tree, &layout.underlying_view));
    }
    assert_eq!(seen[0], vec!["A", "B"]);
    assert_eq!(seen[1], vec!["C"]);
    assert_eq!(seen[2], seen[0]);
    assert_eq!(seen[3], seen[1]);
}

#[test]
fn regions_do_not_touch_each_other() {
    let (mut tree, mut composer, root) = rooted();
    add_text(&mut tree, &mut composer, "first");
    let mut outer = match_signal(&mut composer, &mut tree).unwrap();
    add_text(&mut tree, &mut composer, "middle");
    let mut inner = match_signal(&mut composer, &mut tree).unwrap();
    add_text(&mut tree, &mut composer, "last");
    render(&mut inner, &mut tree, &mut composer, &["i1", "i2"]);
    render(&mut outer, &mut tree, &mut composer, &["o1"]);
    assert_eq!(
        texts(&tree, &root),
        vec!["first", "o1", "middle", "i1", "i2", "last"]
    );
    render(&mut outer, &mut tree, &mut composer, &["o1", "o2", "o3"]);
    assert_eq!(
        texts(&tree, &root),
        vec!["first", "o1", "o2", "o3", "middle", "i1", "i2", "last"]
    );
    render(&mut outer, &mut tree, &mut composer, &[]);
    assert_eq!(
        texts(&tree, &root),
        vec!["first", "middle", "i1", "i2", "last"]
    );
    render(&mut inner, &mut tree, &mut composer, &["i3"]);
    assert_eq!(texts(&tree, &root), vec!["first", "middle", "i3", "last"]);
    assert_eq!(composer.current_idx(&tree), Ok(4));
}

#[test]
fn region_without_parent_renders_nothing() {
    let mut tree: ViewTree<DummyPlatformView> = ViewTree::new();
    let mut composer = Composer::new();
    let mut region = match_signal(&mut composer, &mut tree).unwrap();
    region.begin_render(&mut composer, &mut tree).unwrap();
    let view = DummyPlatformView::new(&mut tree, "Text");
    assert_eq!(composer.add_view(&mut tree, &view), Ok(()));
    assert!(!tree.is_attached(&view));
    region.end_render(&mut composer);
    assert_eq!(composer.current_parent(), None);
}
