use vstd::prelude::*;

verus! {

/// in the context of where a widget is, does the width or the height have
/// priority in regard to enforcing an aspect ratio
#[derive(Debug, Clone, Copy, PartialEq, Eq, Structural)]
pub enum AspectRatioPreferredDirection {
    WidthFromHeight,
    HeightFromWidth,
}

impl Default for AspectRatioPreferredDirection {
    fn default() -> (r: Self)
        ensures
            r == AspectRatioPreferredDirection::WidthFromHeight,
    {
        AspectRatioPreferredDirection::WidthFromHeight
    }
}

} // verus!
