//! Property setters that bindings share.
use crate::bindings::callback::Callback;
use crate::style::Orientation;
use crate::ui_tree::composer::{Composer, ParentScope};
use crate::ui_tree::platform::{ComposeError, PlatformViewInner};
use crate::ui_tree::tree::ViewTree;
use vstd::prelude::*;

verus! {

/// A view that takes property values of type `T`. A view may refuse any
/// value.
pub trait UpdateProp<T>: Sized {
    /// What setting the property `k` to `v` may make of a view: whether
    /// `after` and the result `r` can come of `before`. A view that says
    /// nothing of itself allows everything.
    open spec fn prop_change(
        before: Self,
        after: Self,
        k: Seq<char>,
        v: T,
        r: Result<(), ComposeError>,
    ) -> bool {
        true
    }

    /// Sets the property `k` to `v`.
    fn update_prop(&mut self, k: &str, v: T) -> (r: Result<(), ComposeError>)
        ensures
            Self::prop_change(*old(self), *final(self), k@, v, r),
    ;
}

/// What a setter that hands the view on may give for the property `k` and
/// the value `v`: the view after the change, or the error of a change that
/// the view refused.
pub open spec fn prop_handed_on<S: UpdateProp<T>, T>(
    view: S,
    k: Seq<char>,
    v: T,
    r: Result<S, ComposeError>,
) -> bool {
    match r {
        Ok(after) => exists|answer: Result<(), ComposeError>|
            answer is Ok && #[trigger] S::prop_change(view, after, k, v, answer),
        Err(e) => exists|after: S| #[trigger]
            S::prop_change(view, after, k, v, Err::<(), ComposeError>(e)),
    }
}

/// Hands a view on, or the error with which it refused a property.
pub fn settle_prop<S>(view: S, answer: Result<(), ComposeError>) -> (r: Result<S, ComposeError>)
    ensures
        r == match answer {
            Ok(_) => Ok::<S, ComposeError>(view),
            Err(e) => Err::<S, ComposeError>(e),
        },
{
    match answer {
        Ok(()) => Ok(view),
        Err(e) => Err(e),
    }
}

/// Views that show a text.
pub trait SetText: UpdateProp<String> + Sized {
    /// Sets the property `text` to `f` and hands the view on; the view's
    /// refusal comes back in its place.
    fn text(self, f: String) -> (r: Result<Self, ComposeError>)
        ensures
            prop_handed_on(self, "text"@, f, r),
    {
        let ghost value = f;
        let mut view = self;
        let answer = view.update_prop("text", f);
        let ghost updated = view;
        let r = settle_prop(view, answer);
        proof {
            assert(r matches Ok(after) ==> answer is Ok && Self::prop_change(
                self,
                after,
                "text"@,
                value,
                answer,
            ));
            assert(r matches Err(e) ==> Self::prop_change(
                self,
                updated,
                "text"@,
                value,
                Err::<(), ComposeError>(e),
            ));
        }
        r
    }
}

/// Views that can be pressed.
pub trait OnPress<F>: UpdateProp<Callback<F>> + Sized {
    /// Sets the property `on_press` to `f` and hands the view on; the view's
    /// refusal comes back in its place.
    fn on_press(self, f: Callback<F>) -> (r: Result<Self, ComposeError>)
        ensures
            prop_handed_on(self, "on_press"@, f, r),
    {
        let ghost value = f;
        let mut view = self;
        let answer = view.update_prop("on_press", f);
        let ghost updated = view;
        let r = settle_prop(view, answer);
        proof {
            assert(r matches Ok(after) ==> answer is Ok && Self::prop_change(
                self,
                after,
                "on_press"@,
                value,
                answer,
            ));
            assert(r matches Err(e) ==> Self::prop_change(
                self,
                updated,
                "on_press"@,
                value,
                Err::<(), ComposeError>(e),
            ));
        }
        r
    }
}

/// Layouts that place their children along one direction.
pub trait SetOrientation: UpdateProp<String> + Sized {
    /// Sets the property `orientation` to the name of `o` and hands the view
    /// on; the view's refusal comes back in its place.
    fn orientation(self, o: Orientation) -> (r: Result<Self, ComposeError>)
        ensures
            exists|name: String| name@ == o.name() && prop_handed_on(self, "orientation"@, name, r),
    {
        let mut view = self;
        let name = o.to_string();
        let ghost value = name;
        let answer = view.update_prop("orientation", name);
        let ghost updated = view;
        let r = settle_prop(view, answer);
        proof {
            assert(r matches Ok(after) ==> answer is Ok && Self::prop_change(
                self,
                after,
                "orientation"@,
                value,
                answer,
            ));
            assert(r matches Err(e) ==> Self::prop_change(
                self,
                updated,
                "orientation"@,
                value,
                Err::<(), ComposeError>(e),
            ));
            assert(value@ == o.name() && prop_handed_on(self, "orientation"@, value, r));
        }
        r
    }
}

/// Views that take children: between `enter` and `leave` the composer
/// places what is declared inside the view.
pub trait ParentWith<V: PlatformViewInner>: Sized {
    /// Turns `active` towards this view and hands back what `leave` needs.
    fn enter(&self, active: &mut Composer, tree: &mut ViewTree<V>) -> (r: Result<
        ParentScope,
        ComposeError,
    >)
        requires
            old(tree).wf(),
        ensures
            final(tree).wf(),
    ;

    /// Turns `active` back to where `enter` found it and hands the view on.
    fn leave(self, active: &mut Composer, scope: ParentScope) -> Self;
}

} // verus!
