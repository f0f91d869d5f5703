use vstd::prelude::*;

use crate::util::geometry::{ClippingRect, Rect};

verus! {

/// The clipping rect in effect inside a widget at `position` (nothing when
/// the position has no area), given the clipping rect `existing` around it.
pub open spec fn clipping_rect_intersection_spec(
    existing: ClippingRect,
    position: Option<Rect>,
) -> ClippingRect {
    match position {
        Some(p) => match existing {
            ClippingRect::Clip(rect) => match rect.intersection_spec(p) {
                Some(v) => ClippingRect::Clip(v),
                None => ClippingRect::Zero,
            },
            ClippingRect::Zero => ClippingRect::Zero,
            ClippingRect::Unclipped => ClippingRect::Clip(p),
        },
        None => ClippingRect::Zero,
    }
}

pub fn clipping_rect_intersection(
    existing_clipping_rect: ClippingRect,
    position: Option<Rect>,
) -> (r: ClippingRect)
    requires
        existing_clipping_rect.wf(),
        position matches Some(p) ==> p.wf(),
    ensures
        r == clipping_rect_intersection_spec(existing_clipping_rect, position),
        r.wf(),
{
    match position {
        Some(position) => {
            match existing_clipping_rect {
                ClippingRect::Clip(rect) => match rect.intersection(position) {
                    Some(v) => ClippingRect::Clip(v),
                    None => ClippingRect::Zero,
                },
                ClippingRect::Zero => ClippingRect::Zero,
                ClippingRect::Unclipped => {
                    // clipping rect has infinite area, so it's just whatever position is
                    ClippingRect::Clip(position)
                },
            }
        },
        None => {
            // position is zero area so intersection result is zero
            ClippingRect::Zero
        },
    }
}

/// Law: a point is admitted by the clipping rect inside a widget exactly when
/// it lies in the widget's position and is admitted by the clipping rect
/// around it. Nesting clips never lets a point through that either excludes.
pub proof fn lemma_clipping_rect_intersection_admits(
    existing: ClippingRect,
    position: Option<Rect>,
    x: i32,
    y: i32,
)
    requires
        existing.wf(),
        position matches Some(p) ==> p.wf(),
    ensures
        clipping_rect_intersection_spec(existing, position).admits(x, y) <==> (
        position matches Some(p) && p.contains_spec(x, y) && existing.admits(x, y)),
{
}

} // verus!
