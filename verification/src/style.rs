//! Style values shared by the bindings.
use vstd::prelude::*;

verus! {

/// The direction in which a layout places its children.
#[derive(Clone, Copy, Debug, PartialEq, Eq, Structural)]
pub enum Orientation {
    Vertical,
    Horizontal,
}

impl Orientation {
    /// The name under which a platform knows the orientation.
    pub open spec fn name(self) -> Seq<char> {
        match self {
            Orientation::Vertical => "Vertical"@,
            Orientation::Horizontal => "Horizontal"@,
        }
    }

    /// The orientation as the value of a property.
    pub fn to_string(&self) -> (r: String)
        ensures
            r@ == self.name(),
    {
        match self {
            Orientation::Vertical => "Vertical".to_owned(),
            Orientation::Horizontal => "Horizontal".to_owned(),
        }
    }
}

} // verus!
