//! The part of a render pass that is not drawing: what a program may read
//! while it draws, and when it asks to be drawn again.

use crate::input::InputEvent;
use vstd::prelude::*;

verus! {

/// The area that a program draws on, in points, and the pixels per point.
pub struct ViewportInfo<S> {
    pub point_size: (S, S),
    pub pixel_scale: S,
}

impl<S: Copy> Clone for ViewportInfo<S> {
    fn clone(&self) -> (info: Self)
        ensures
            info == *self,
    {
        *self
    }
}

impl<S: Copy> Copy for ViewportInfo<S> {

}

/// What a program works with during one draw.
pub struct RenderContext<'a, S> {
    /// The input since the last draw, oldest first.
    pub events: &'a [InputEvent<S>],
    pub viewport_info: ViewportInfo<S>,
    /// The time of the frame, in milliseconds on the compositor's clock.
    pub current_time: u64,
    /// The delay in milliseconds after which the program wants to be drawn
    /// again, if it does.
    pub requested_redraw: Option<u64>,
}

impl<'a, S: Copy> Clone for RenderContext<'a, S> {
    fn clone(&self) -> (ctx: Self)
        ensures
            ctx == *self,
    {
        *self
    }
}

impl<'a, S: Copy> Copy for RenderContext<'a, S> {

}

/// What a program works with during one draw, as a value.
#[verifier::ext_equal]
pub struct ContextState<S> {
    pub events: Seq<InputEvent<S>>,
    pub viewport_info: ViewportInfo<S>,
    pub current_time: u64,
    pub requested_redraw: Option<u64>,
}

impl<'a, S> View for RenderContext<'a, S> {
    type V = ContextState<S>;

    open spec fn view(&self) -> ContextState<S> {
        ContextState {
            events: self.events@,
            viewport_info: self.viewport_info,
            current_time: self.current_time,
            requested_redraw: self.requested_redraw,
        }
    }
}

/// The earlier of two wishes to be drawn again, each given as a delay.
pub open spec fn earliest(a: Option<u64>, b: Option<u64>) -> Option<u64> {
    match (a, b) {
        (Some(x), Some(y)) => Some(if x <= y { x } else { y }),
        (Some(_), None) => a,
        (None, _) => b,
    }
}

impl<'a, S> RenderContext<'a, S> {
    /// The context once another draw has been asked for, as soon as possible.
    pub open spec fn redraw_requested(self) -> Self {
        RenderContext { requested_redraw: Some(0), ..self }
    }

    /// The context inside a frame that leaves `point_size` for its content.
    pub open spec fn inside_frame(self, point_size: (S, S)) -> Self {
        RenderContext {
            viewport_info: ViewportInfo { point_size, ..self.viewport_info },
            ..self
        }
    }

    /// The context after a frame in which `inner` was left behind.
    pub open spec fn after_frame(self, inner: Self) -> Self {
        RenderContext {
            requested_redraw: earliest(self.requested_redraw, inner.requested_redraw),
            ..self
        }
    }
}

impl<'a, S: Copy> RenderContext<'a, S> {
    /// The context of a new draw, in which nothing has been asked for yet.
    pub fn new(
        events: &'a [InputEvent<S>],
        viewport_info: ViewportInfo<S>,
        current_time: u64,
    ) -> (ctx: Self)
        ensures
            ctx == (RenderContext { events, viewport_info, current_time, requested_redraw: None }),
    {
        RenderContext { events, viewport_info, current_time, requested_redraw: None }
    }

    /// Asks for another draw as soon as possible.
    pub fn request_redraw(&mut self)
        ensures
            *final(self) == old(self).redraw_requested(),
    {
        self.requested_redraw = Some(0);
    }

    /// The context for what stands inside a frame: the same draw on a smaller
    /// area of `point_size`.
    pub fn begin_frame(&self, point_size: (S, S)) -> (inner: Self)
        ensures
            inner == self.inside_frame(point_size),
    {
        RenderContext {
            events: self.events,
            viewport_info: ViewportInfo {
                point_size,
                pixel_scale: self.viewport_info.pixel_scale,
            },
            current_time: self.current_time,
            requested_redraw: self.requested_redraw,
        }
    }

    /// Takes over what was asked for inside a frame: the earlier wish counts.
    pub fn end_frame(&mut self, inner: &RenderContext<'a, S>)
        ensures
            *final(self) == old(self).after_frame(*inner),
    {
        if let Some(duration) = inner.requested_redraw {
            let merged: u64 = match self.requested_redraw {
                Some(other) => if duration > other {
                    other
                } else {
                    duration
                },
                None => duration,
            };
            self.requested_redraw = Some(merged);
        }
    }

    /// Draws content inside a frame that leaves `point_size` for it. `inner`
    /// draws, and returns the context that it was given as it leaves it, with
    /// what the frame's caller needs to know of the content.
    pub fn frame<B, F: FnOnce(RenderContext<'a, S>) -> (RenderContext<'a, S>, B)>(
        &mut self,
        point_size: (S, S),
        inner: F,
    ) -> (content: B)
        requires
            call_requires(inner, (old(self).inside_frame(point_size),)),
        ensures
            exists|left: RenderContext<'a, S>|
                {
                    &&& #[trigger] call_ensures(
                        inner,
                        (old(self).inside_frame(point_size),),
                        (left, content),
                    )
                    &&& *final(self) == old(self).after_frame(left)
                },
    {
        let ctx = self.begin_frame(point_size);
        let (left, content) = inner(ctx);
        self.end_frame(&left);
        content
    }
}

/// Which of two wishes comes first does not matter, nor how several are
/// grouped: `earliest` is commutative, associative and idempotent, and no wish
/// is its neutral element.
pub proof fn earliest_is_a_semilattice(a: Option<u64>, b: Option<u64>, c: Option<u64>)
    ensures
        earliest(a, b) == earliest(b, a),
        earliest(a, earliest(b, c)) == earliest(earliest(a, b), c),
        earliest(a, a) == a,
        earliest(a, None) == a,
{
}

/// The merged wish is one of the two, is there if one of them is, and is later
/// than neither.
pub proof fn earliest_is_not_late(a: Option<u64>, b: Option<u64>)
    ensures
        earliest(a, b) == a || earliest(a, b) == b,
        earliest(a, b) is Some <==> a is Some || b is Some,
        a is Some ==> earliest(a, b)->0 <= a->0,
        b is Some ==> earliest(a, b)->0 <= b->0,
{
}

/// A frame adds no wish of its own, and to ask inside a frame is to ask
/// outside of it.
pub proof fn frames_pass_requests_on<'a, S>(outer: RenderContext<'a, S>, point_size: (S, S))
    ensures
        outer.after_frame(outer.inside_frame(point_size)) == outer,
        outer.after_frame(outer.inside_frame(point_size).redraw_requested())
            == outer.redraw_requested(),
{
}

/// A program that asks by `request_redraw`, in frames or outside of them, has
/// asked for nothing or for a draw without delay.
pub proof fn requested_redraws_are_immediate<'a, S>(
    outer: RenderContext<'a, S>,
    inner: RenderContext<'a, S>,
    point_size: (S, S),
)
    requires
        outer.requested_redraw is None || outer.requested_redraw == Some(0u64),
        inner.requested_redraw is None || inner.requested_redraw == Some(0u64),
    ensures
        ({
            let asked = outer.redraw_requested().requested_redraw;
            let inside = outer.inside_frame(point_size).requested_redraw;
            let after = outer.after_frame(inner).requested_redraw;
            &&& asked == Some(0u64)
            &&& inside is None || inside == Some(0u64)
            &&& after is None || after == Some(0u64)
        }),
{
}

/// To ask for another draw touches nothing but the wish.
pub proof fn asking_touches_only_the_wish<'a, S>(ctx: RenderContext<'a, S>)
    ensures
        ctx.redraw_requested().requested_redraw == Some(0u64),
        ctx.redraw_requested().events == ctx.events,
        ctx.redraw_requested().viewport_info == ctx.viewport_info,
        ctx.redraw_requested().current_time == ctx.current_time,
{
}

/// Inside a frame only the size is another: the input, the time, the pixels per
/// point and what was asked for are those outside.
pub proof fn frames_only_change_the_size<'a, S>(outer: RenderContext<'a, S>, point_size: (S, S))
    ensures
        outer.inside_frame(point_size).viewport_info.point_size == point_size,
        outer.inside_frame(point_size).viewport_info.pixel_scale
            == outer.viewport_info.pixel_scale,
        outer.inside_frame(point_size).events == outer.events,
        outer.inside_frame(point_size).current_time == outer.current_time,
        outer.inside_frame(point_size).requested_redraw == outer.requested_redraw,
{
}

/// After a frame only the wish can be another: it is there if one was there
/// outside or inside, and is the earlier one.
pub proof fn frames_hand_on_only_the_wish<'a, S>(
    outer: RenderContext<'a, S>,
    inner: RenderContext<'a, S>,
)
    ensures
        outer.after_frame(inner).events == outer.events,
        outer.after_frame(inner).viewport_info == outer.viewport_info,
        outer.after_frame(inner).current_time == outer.current_time,
        match (outer.requested_redraw, inner.requested_redraw) {
            (Some(a), Some(b)) => outer.after_frame(inner).requested_redraw matches Some(c) && c
                <= a && c <= b && (c == a || c == b),
            (Some(a), None) => outer.after_frame(inner).requested_redraw == Some(a),
            (None, Some(b)) => outer.after_frame(inner).requested_redraw == Some(b),
            (None, None) => outer.after_frame(inner).requested_redraw is None,
        },
{
}

} // verus!
