use std::cell::Cell;
use std::rc::Rc;

use wired::bindings::callback::Callback;
use wired::bindings::test::{
    debug_string, set_view_prop, Button, ButtonHandle, DummyPlatformView, StackLayout, Text,
};
use wired::bindings::view_helpers::{settle_prop, OnPress, ParentWith, SetOrientation, SetText, UpdateProp};
use wired::slides::{build_slides, expand_slides, BasicSlideInfo};
use wired::style::Orientation;
use wired::ui_tree::composer::{set_root_view, Composable, Composer};
use wired::ui_tree::platform::{ComposeError, PlatformViewInner};
use wired::ui_tree::tree::{PlatformView, ViewTree};

#[test]
fn orientation_names() {
    assert_eq!(Orientation::Vertical.to_string(), "Vertical");
    assert_eq!(Orientation::Horizontal.to_string(), "Horizontal");
}

#[test]
fn callback_calls_its_handler() {
    let count = Rc::new(Cell::new(0));
    let seen = count.clone();
    let callback = Callback::new(move || seen.set(seen.get() + 1));
    callback.call();
    callback.call();
    assert_eq!(count.get(), 2);
    let shared = callback.f.clone();
    (*shared)();
    assert_eq!(count.get(), 3);
}

#[test]
fn button_handle_presses() {
    let count = Rc::new(Cell::new(0));
    let seen = count.clone();
    let handle = ButtonHandle { on_press: move || seen.set(seen.get() + 1) };
    handle.press();
    handle.press();
    handle.press();
    assert_eq!(count.get(), 3);
}

#[test]
fn button_hands_its_handler_out_once() {
    let mut tree = ViewTree::new();
    let count = Rc::new(Cell::new(0));
    let seen = count.clone();
    let mut button = Button::new(&mut tree, move || seen.set(seen.get() + 5));
    let handle = button.handle().unwrap();
    assert!(button.handle().is_none());
    handle.press();
    assert_eq!(count.get(), 5);
    assert_eq!(button.platform_view(), PlatformView { id: 0 });
}

#[test]
fn button_keeps_its_subscriptions_until_removed() {
    let mut tree = ViewTree::new();
    let mut spawner = Some(wired::android_executor::AndroidExecutor::with_capacity(4));
    let first = wired::android_executor::spawn_future(&mut spawner);
    let second = wired::android_executor::spawn_future(&mut spawner);
    let button = Button::new(&mut tree, || ()).watch_label(first).watch_label(second);
    let mut executor = spawner.unwrap();
    let handles = button.remove();
    assert_eq!(handles.len(), 2);
    assert_eq!(handles[0].task(), Some(wired::android_executor::TaskId { index: 0 }));
    assert_eq!(handles[1].task(), Some(wired::android_executor::TaskId { index: 1 }));
    for handle in handles {
        let task = handle.task().unwrap();
        executor.release(handle).unwrap();
        assert!(executor.is_cancelled(task));
    }
}

#[test]
fn button_label_is_shown_and_replaced() {
    let mut tree = ViewTree::new();
    let mut button = Button::new(&mut tree, || ());
    button.label(&mut tree, "one".to_string()).unwrap();
    button.show_label(&mut tree, "two".to_string()).unwrap();
    let view = button.platform_view();
    let node = tree.native(&view).unwrap();
    assert_eq!(node.prop_count(), 1);
    assert_eq!(node.prop_at(0), Some(("label", "two")));
    assert_eq!(node.el_type(), "Button");
    let mut other: ViewTree<DummyPlatformView> = ViewTree::new();
    assert_eq!(
        button.label(&mut other, "x".to_string()),
        Err(ComposeError::DetachedNode)
    );
    assert_eq!(
        button.show_label(&mut other, "x".to_string()),
        Err(ComposeError::DetachedNode)
    );
}

#[test]
fn props_keep_their_place() {
    let mut node = DummyPlatformView::node("Text");
    node.set_prop("a", "1".to_string());
    node.set_prop("b", "2".to_string());
    node.set_prop("c", "3".to_string());
    node.set_prop("b", "4".to_string());
    assert_eq!(node.prop_count(), 3);
    assert_eq!(node.prop_at(0), Some(("a", "1")));
    assert_eq!(node.prop_at(1), Some(("b", "4")));
    assert_eq!(node.prop_at(2), Some(("c", "3")));
    assert_eq!(node.prop_at(3), None);
    assert_eq!(
        node.describe(),
        "Text View (props = [(\"a\", \"1\"), (\"b\", \"4\"), (\"c\", \"3\")])"
    );
}

#[test]
fn describe_escapes_as_debug_does() {
    let mut node = DummyPlatformView::node("Text");
    node.set_prop("text", "say \"hi\"\n\\".to_string());
    assert_eq!(
        node.describe(),
        "Text View (props = [(\"text\", \"say \\\"hi\\\"\\n\\\\\")])"
    );
    let props = vec![("text".to_string(), "say \"hi\"\n\\".to_string())];
    assert_eq!(
        node.describe(),
        format!("Text View (props = {:?})", props)
    );
}

#[test]
fn setters_of_the_dummy_node() {
    let node = DummyPlatformView::node("StackLayout");
    let node = node.orientation(Orientation::Horizontal).unwrap();
    let mut node = node.text("hello".to_string()).unwrap();
    assert_eq!(node.prop_at(0), Some(("orientation", "Horizontal")));
    assert_eq!(node.prop_at(1), Some(("text", "hello")));
    assert_eq!(UpdateProp::update_prop(&mut node, "text", "bye".to_string()), Ok(()));
    assert_eq!(node.prop_at(1), Some(("text", "bye")));
    assert_eq!(node.append_child(&wired::bindings::test::DummyRawView), Ok(()));
    assert_eq!(node.insert_child_at(&wired::bindings::test::DummyRawView, 3), Ok(()));
    assert_eq!(node.remove_child(&wired::bindings::test::DummyRawView), Ok(()));
    assert_eq!(node.remove_child_index(0), Ok(()));
    assert_eq!(node.get_raw_view(), Ok(wired::bindings::test::DummyRawView));
}

struct Picky {
    pressed: Option<Rc<Cell<usize>>>,
    text: String,
}

impl UpdateProp<String> for Picky {
    fn update_prop(&mut self, k: &str, v: String) -> Result<(), ComposeError> {
        if k == "text" {
            self.text = v;
            Ok(())
        } else {
            Err(ComposeError::Rejected(format!("no property {}", k)))
        }
    }
}

impl<F: Fn()> UpdateProp<Callback<F>> for Picky {
    fn update_prop(&mut self, k: &str, v: Callback<F>) -> Result<(), ComposeError> {
        assert_eq!(k, "on_press");
        (*v.f)();
        Ok(())
    }
}

impl SetText for Picky {}
impl SetOrientation for Picky {}
impl<F: Fn()> OnPress<F> for Picky {}

#[test]
fn setters_hand_the_view_on_or_its_refusal() {
    let picky = Picky { pressed: None, text: String::new() };
    let picky = picky.text("shown".to_string()).unwrap();
    assert_eq!(picky.text, "shown");
    match picky.orientation(Orientation::Vertical) {
        Err(e) => assert_eq!(e, ComposeError::Rejected("no property orientation".to_string())),
        Ok(_) => panic!("the view takes no orientation"),
    }
    let count = Rc::new(Cell::new(0));
    let seen = count.clone();
    let picky = Picky { pressed: Some(count.clone()), text: String::new() };
    let picky = picky.on_press(Callback::new(move || seen.set(seen.get() + 1))).unwrap();
    assert_eq!(picky.pressed.unwrap().get(), 1);
    assert_eq!(settle_prop(7, Ok(())), Ok(7));
    assert_eq!(
        settle_prop(7, Err(ComposeError::BadIndex)),
        Err(ComposeError::BadIndex)
    );
}

#[test]
fn text_shows_what_it_is_given() {
    let mut tree = ViewTree::new();
    let text = Text::new(&mut tree, "first");
    let view = text.platform_view();
    assert_eq!(debug_string(&tree, &view), "Text View (props = [(\"text\", \"first\")])");
    text.set_text(&mut tree, "second".to_string()).unwrap();
    assert_eq!(debug_string(&tree, &view), "Text View (props = [(\"text\", \"second\")])");
    let blank = Text::blank(&mut tree);
    assert_eq!(debug_string(&tree, &blank.platform_view()), "Text View (props = [])");
    let mut other: ViewTree<DummyPlatformView> = ViewTree::new();
    assert_eq!(
        text.set_text(&mut other, "x".to_string()),
        Err(ComposeError::DetachedNode)
    );
    assert_eq!(
        set_view_prop(&mut other, &view, "text", "x".to_string()),
        Err(ComposeError::DetachedNode)
    );
    assert_eq!(debug_string(&other, &view), "");
}

#[test]
fn update_prop_through_the_tree() {
    let mut tree = ViewTree::new();
    let view = DummyPlatformView::new(&mut tree, "Text");
    assert_eq!(tree.update_prop(&view, "text", "t".to_string()), Ok(()));
    assert_eq!(tree.native(&view).unwrap().prop_at(0), Some(("text", "t")));
    assert_eq!(
        tree.update_prop(&PlatformView { id: 4 }, "text", "t".to_string()),
        Err(ComposeError::DetachedNode)
    );
}

#[test]
fn layout_with_children_is_listed_with_indentation() {
    let mut tree = ViewTree::new();
    let mut composer = Composer::new();
    let root = DummyPlatformView::new(&mut tree, "Root");
    set_root_view(&mut composer, &mut tree, root).unwrap();
    let mut layout = StackLayout::new(&mut tree);
    let scope = layout.enter(&mut composer, &mut tree).unwrap();
    let mut a = Text::new(&mut tree, "a");
    a.compose(&mut composer, &mut tree).unwrap();
    let mut inner = StackLayout::new(&mut tree);
    let inner_scope = inner.enter(&mut composer, &mut tree).unwrap();
    let mut b = Text::new(&mut tree, "b");
    b.compose(&mut composer, &mut tree).unwrap();
    let mut inner = inner.leave(&mut composer, inner_scope);
    inner.compose(&mut composer, &mut tree).unwrap();
    layout = layout.leave(&mut composer, scope);
    layout.compose(&mut composer, &mut tree).unwrap();
    layout.compose(&mut composer, &mut tree).unwrap();
    assert_eq!(
        debug_string(&tree, &root),
        "Root View (props = [])[\n    StackLayout View (props = [])[\n        Text View (props = [(\"text\", \"a\")]),\n        StackLayout View (props = [])[\n            Text View (props = [(\"text\", \"b\")]),\n        ],\n    ],\n]"
    );
}

fn titles_and_counts(slides: &[BasicSlideInfo]) -> Vec<(&'static str, usize)> {
    slides.iter().map(|s| (s.title, s.reasons.len())).collect()
}

#[test]
fn slide_unfolds_into_its_prefixes() {
    let out = expand_slides(BasicSlideInfo { title: "T", reasons: vec!["a", "b", "c"] });
    assert_eq!(titles_and_counts(&out), vec![("T", 0), ("T", 1), ("T", 2)]);
    assert_eq!(out[2].reasons, vec!["a", "b"]);
    assert!(expand_slides(BasicSlideInfo { title: "T", reasons: vec![] }).is_empty());
}

#[test]
fn talk_has_ten_slides() {
    let slides = build_slides();
    assert_eq!(
        titles_and_counts(&slides),
        vec![
            ("Why", 0),
            ("Why", 1),
            ("Why", 2),
            ("Why", 3),
            ("Why", 4),
            ("Why", 5),
            ("Why", 6),
            ("How", 0),
            ("How", 1),
            ("How", 2),
        ]
    );
    assert_eq!(slides[1].reasons[0], " * React Native is ineffecient, where it matters. Mobile.");
    assert_eq!(slides[9].reasons[1], " * JNI bindings to Java Views");
}
