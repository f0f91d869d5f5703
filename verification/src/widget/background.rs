use vstd::prelude::*;

verus! {

/// How a software rendered background provides a texture of a size.
#[derive(Debug, Clone, Copy, PartialEq, Eq, Structural)]
pub enum BackgroundPlan {
    /// the cached surface is large enough; use it
    Reuse,
    /// the cached surface of `old_w` by `old_h` samples is grown to `new_w` by
    /// `new_h`: the rows from `old_h` down and the columns from `old_w` right
    /// are computed, the rest is copied
    Expand { old_w: u32, old_h: u32, new_w: u32, new_h: u32 },
    /// nothing is cached: all `w` by `h` samples are computed
    Fresh { w: u32, h: u32 },
}

/// The plan for a background drawn in `width` by `height` pixels, sampled
/// every `scale_factor` pixels, given the size of the cached surface, if any.
pub open spec fn background_plan_spec(
    cached: Option<(u32, u32)>,
    width: u32,
    height: u32,
    scale_factor: u32,
) -> BackgroundPlan {
    let need_w = width / scale_factor;
    let need_h = height / scale_factor;
    match cached {
        None => BackgroundPlan::Fresh { w: need_w, h: need_h },
        Some((old_w, old_h)) => if old_w >= need_w && old_h >= need_h {
            BackgroundPlan::Reuse
        } else {
            BackgroundPlan::Expand {
                old_w,
                old_h,
                new_w: if need_w > old_w { need_w } else { old_w },
                new_h: if need_h > old_h { need_h } else { old_h },
            }
        },
    }
}

pub fn background_plan(cached: Option<(u32, u32)>, width: u32, height: u32, scale_factor: u32) -> (r: BackgroundPlan)
    requires
        scale_factor > 0,
    ensures
        r == background_plan_spec(cached, width, height, scale_factor),
{
    let need_w = width / scale_factor;
    let need_h = height / scale_factor;
    match cached {
        None => BackgroundPlan::Fresh { w: need_w, h: need_h },
        Some((old_w, old_h)) => {
            if old_w >= need_w && old_h >= need_h {
                // large enough to use cache
                BackgroundPlan::Reuse
            } else {
                // must expand texture in the cache
                let new_w = if need_w > old_w { need_w } else { old_w };
                let new_h = if need_h > old_h { need_h } else { old_h };
                BackgroundPlan::Expand { old_w, old_h, new_w, new_h }
            }
        },
    }
}

/// Law: the surface that a plan leaves always covers what is needed, and
/// covers at least what was cached: a cache is only ever grown, never shrunk.
pub proof fn lemma_background_plan_covers(
    cached: Option<(u32, u32)>,
    width: u32,
    height: u32,
    scale_factor: u32,
)
    requires
        scale_factor > 0,
    ensures
        ({
            let need_w = width / scale_factor;
            let need_h = height / scale_factor;
            match background_plan_spec(cached, width, height, scale_factor) {
                BackgroundPlan::Reuse => cached matches Some((w, h)) && w >= need_w && h >= need_h,
                BackgroundPlan::Expand { old_w, old_h, new_w, new_h } => {
                    &&& cached == Some((old_w, old_h))
                    &&& new_w >= old_w && new_w >= need_w
                    &&& new_h >= old_h && new_h >= need_h
                    &&& (new_w > old_w || new_h > old_h)
                },
                BackgroundPlan::Fresh { w, h } => cached is None && w == need_w && h == need_h,
            }
        }),
{
}

} // verus!
