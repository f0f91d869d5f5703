use vstd::prelude::*;

verus! {

/// a border style that draws nothing: it only takes up `width` on each side
#[derive(Debug, Clone, Copy, PartialEq, Eq, Structural)]
pub struct Empty {
    pub width: u32,
}

} // verus!
