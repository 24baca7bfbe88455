//! The slides of the demonstration: each point of a slide gets a slide of
//! its own that shows the points before it.
use vstd::prelude::*;

verus! {

/// One slide: a title and the points under it.
pub struct BasicSlideInfo {
    pub title: &'static str,
    pub reasons: Vec<&'static str>,
}

/// A slide, as contracts see it.
#[verifier::ext_equal]
pub struct SlideText {
    pub title: Seq<char>,
    pub reasons: Seq<Seq<char>>,
}

impl View for BasicSlideInfo {
    type V = SlideText;

    open spec fn view(&self) -> SlideText {
        SlideText {
            title: self.title@,
            reasons: Seq::new(self.reasons@.len(), |i: int| self.reasons@[i]@),
        }
    }
}

/// The texts of a run of slides.
pub open spec fn slide_texts(slides: Seq<BasicSlideInfo>) -> Seq<SlideText> {
    Seq::new(slides.len(), |i: int| slides[i]@)
}

/// The slides that one slide unfolds into: as many as it has points, the
/// one at `i` with the title and the first `i` points. The last point is
/// on none of them.
pub open spec fn expanded(info: SlideText) -> Seq<SlideText> {
    Seq::new(
        info.reasons.len(),
        |i: int| SlideText { title: info.title, reasons: info.reasons.take(i) },
    )
}

/// Why the project exists.
pub open spec fn why_slide() -> SlideText {
    SlideText {
        title: "Why"@,
        reasons: seq![
            " * React Native is ineffecient, where it matters. Mobile."@,
            " * Keep it native, keep it sync, keep it simple"@,
            " * Zero Cost Abstractions"@,
            " * Rust is a nice environment"@,
            " * VDOM is work, no matter how \"fast\" it is"@,
            " * David vs Goliath; because I can!"@,
            " * Android - I had a week!"@,
        ],
    }
}

/// How it works.
pub open spec fn how_slide() -> SlideText {
    SlideText {
        title: "How"@,
        reasons: seq![
            " * FRP/Observables backed by Rust Futures"@,
            " * JNI bindings to Java Views"@,
            " * Cross compile Rust to all Arm + linux combinations"@,
        ],
    }
}

/// Unfolds a slide into one slide for each of its points.
pub fn expand_slides(info: BasicSlideInfo) -> (out: Vec<BasicSlideInfo>)
    ensures
        slide_texts(out@) == expanded(info@),
{
    let title: &'static str = info.title;
    let n: usize = info.reasons.len();
    let mut out: Vec<BasicSlideInfo> = Vec::new();
    let mut i: usize = 0;
    while i < n
        invariant
            i <= n,
            n == info.reasons@.len(),
            title == info.title,
            out@.len() == i,
            forall|k: int|
                0 <= k < i ==> (#[trigger] out@[k])@ == (SlideText {
                    title: info@.title,
                    reasons: info@.reasons.take(k),
                }),
        decreases n - i,
    {
        let mut reasons: Vec<&'static str> = Vec::new();
        let mut j: usize = 0;
        while j < i
            invariant
                j <= i < n,
                n == info.reasons@.len(),
                reasons@.len() == j,
                forall|k: int| 0 <= k < j ==> #[trigger] reasons@[k] == info.reasons@[k],
            decreases i - j,
        {
            reasons.push(info.reasons[j]);
            j = j + 1;
        }
        let slide = BasicSlideInfo { title, reasons };
        assert(slide@.reasons =~= info@.reasons.take(i as int));
        out.push(slide);
        i = i + 1;
    }
    assert(slide_texts(out@) =~= expanded(info@));
    out
}

/// The slides of the talk: those of "Why", then those of "How".
pub fn build_slides() -> (slides: Vec<BasicSlideInfo>)
    ensures
        slide_texts(slides@) == expanded(why_slide()) + expanded(how_slide()),
{
    let why = BasicSlideInfo {
        title: "Why",
        reasons: vec![
            " * React Native is ineffecient, where it matters. Mobile.",
            " * Keep it native, keep it sync, keep it simple",
            " * Zero Cost Abstractions",
            " * Rust is a nice environment",
            " * VDOM is work, no matter how \"fast\" it is",
            " * David vs Goliath; because I can!",
            " * Android - I had a week!",
        ],
    };
    let how = BasicSlideInfo {
        title: "How",
        reasons: vec![
            " * FRP/Observables backed by Rust Futures",
            " * JNI bindings to Java Views",
            " * Cross compile Rust to all Arm + linux combinations",
        ],
    };
    assert(why@ =~= why_slide());
    assert(how@ =~= how_slide());
    let mut slides = expand_slides(why);
    let mut rest = expand_slides(how);
    let ghost first = slides@;
    let ghost second = rest@;
    slides.append(&mut rest);
    assert(slide_texts(slides@) =~= slide_texts(first) + slide_texts(second));
    slides
}

} // verus!
