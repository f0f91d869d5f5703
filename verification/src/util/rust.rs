use vstd::prelude::*;

verus! {

/// give a lifetime which is a subset of the existing lifetime
pub fn reborrow<'in_life, 'out_life, T>(something: &'in_life mut T) -> (r: &'out_life mut T) where
    'in_life: 'out_life,

    ensures
        *r == *old(something),
        *final(something) == *final(r),
{
    &mut *something
}

} // verus!
