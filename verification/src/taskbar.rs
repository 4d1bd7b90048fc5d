//! A bar that shows a text in a frame, with a line around it while the pointer
//! is over it.

use crate::frame::{FrameEdge, FrameInfo};
use crate::input::InputEvent;
use crate::render::RenderContext;
use vstd::prelude::*;

verus! {

/// What the bar remembers between draws.
pub struct Taskbar<S> {
    /// Where the pointer is, if it is on the bar.
    pub pointer: Option<(S, S)>,
    /// Whether the pointer was over the text at the last draw.
    pub hovering: bool,
}

/// Where the pointer is after some input: the last event that tells decides.
pub open spec fn pointer_after<S>(
    pointer: Option<(S, S)>,
    events: Seq<InputEvent<S>>,
) -> Option<(S, S)>
    decreases events.len(),
{
    if events.len() == 0 {
        pointer
    } else {
        match events.last() {
            InputEvent::PointerEnter { x, y } => Some((x, y)),
            InputEvent::PointerMove { time: _, x, y } => Some((x, y)),
            InputEvent::PointerLeave => None,
            _ => pointer_after(pointer, events.drop_last()),
        }
    }
}

impl<S> Taskbar<S> {
    /// The frame around the text.
    pub open spec fn framed<C, K>(
        self,
        plain: FrameInfo<S, C, K>,
        stroke: K,
        color: C,
    ) -> FrameInfo<S, C, K> {
        if self.hovering {
            FrameInfo { edge: Some(FrameEdge { color, stroke }), ..plain }
        } else {
            plain
        }
    }

    /// The bar after some input.
    pub open spec fn informed(self, events: Seq<InputEvent<S>>) -> Self {
        Taskbar { pointer: pointer_after(self.pointer, events), ..self }
    }

    /// The bar after a draw, where `inside` tells whether the text's bounds
    /// hold the pointer's position.
    pub open spec fn settled(self, inside: bool) -> Self {
        Taskbar { hovering: self.pointer is Some && inside, ..self }
    }

    /// A draw that begins with `ctx` may leave the bar `after` and the context
    /// `asked`: `paint` drew the frame and gave the text's bounds, the pointer
    /// was followed through the input, `contains` told whether the bounds hold
    /// it, and another draw was asked for exactly if that changed.
    pub open spec fn drawn<'a, C, K, B, P, I>(
        self,
        ctx: RenderContext<'a, S>,
        plain: FrameInfo<S, C, K>,
        stroke: K,
        color: C,
        paint: P,
        contains: I,
        after: Self,
        asked: RenderContext<'a, S>,
    ) -> bool where
        P: FnOnce(FrameInfo<S, C, K>, RenderContext<'a, S>) -> (RenderContext<'a, S>, B),
        I: FnOnce(B, (S, S)) -> bool,
     {
        exists|left: RenderContext<'a, S>, bounds: B|
            {
                &&& #[trigger] call_ensures(
                    paint,
                    (self.framed(plain, stroke, color), ctx),
                    (left, bounds),
                )
                &&& after.pointer == pointer_after(self.pointer, left.events@)
                &&& match after.pointer {
                    Some(position) => call_ensures(contains, (bounds, position), after.hovering),
                    None => !after.hovering,
                }
                &&& asked == if after.hovering != self.hovering {
                    left.redraw_requested()
                } else {
                    left
                }
            }
    }
}

impl<S: Copy> Taskbar<S> {
    /// The bar before its first draw.
    pub fn new() -> (bar: Self)
        ensures
            bar == (Taskbar::<S> { pointer: None, hovering: false }),
    {
        Taskbar { pointer: None, hovering: false }
    }

    /// The frame to draw around the text: `plain`, with a line if the pointer
    /// was over the text.
    pub fn frame<C, K>(&self, plain: FrameInfo<S, C, K>, stroke: K, color: C) -> (frame: FrameInfo<
        S,
        C,
        K,
    >)
        ensures
            frame == self.framed(plain, stroke, color),
    {
        if self.hovering {
            plain.with_border(stroke, color)
        } else {
            plain
        }
    }

    /// Follows the pointer through the input of a draw.
    pub fn handle_events(&mut self, events: &[InputEvent<S>])
        ensures
            *final(self) == old(self).informed(events@),
    {
        let ghost before = self.pointer;
        for i in 0..events.len()
            invariant
                self.pointer == pointer_after(before, events@.take(i as int)),
                self.hovering == old(self).hovering,
        {
            assert(events@.take(i + 1).drop_last() =~= events@.take(i as int));
            match events[i] {
                InputEvent::PointerEnter { x, y } => {
                    self.pointer = Some((x, y));
                },
                InputEvent::PointerMove { time: _, x, y } => {
                    self.pointer = Some((x, y));
                },
                InputEvent::PointerLeave => {
                    self.pointer = None;
                },
                _ => {},
            }
        }
        assert(events@.take(events.len() as int) =~= events@);
    }

    /// Ends a draw: notes whether the pointer is over the text, and asks for
    /// another draw if that changed. `inside` tells whether the text's bounds
    /// hold the pointer's position.
    pub fn settle(&mut self, inside: bool, ctx: &mut RenderContext<'_, S>)
        ensures
            *final(self) == old(self).settled(inside),
            *final(ctx) == if old(self).settled(inside).hovering != old(self).hovering {
                old(ctx).redraw_requested()
            } else {
                *old(ctx)
            },
    {
        let is_hovering: bool = self.pointer.is_some() && inside;
        if is_hovering != self.hovering {
            ctx.request_redraw();
        }
        self.hovering = is_hovering;
    }

    /// Draws the bar. `paint` draws the text in the frame that it is given, and
    /// returns the context as it leaves it, with the text's bounds. Then the
    /// pointer is followed through the draw's input, and another draw asked for
    /// if it came over the text or left it: `contains` tells whether bounds
    /// hold a position.
    pub fn draw<'a, C, K, B, P, I>(
        &mut self,
        ctx: &mut RenderContext<'a, S>,
        plain: FrameInfo<S, C, K>,
        stroke: K,
        color: C,
        paint: P,
        contains: I,
    ) where
        P: FnOnce(FrameInfo<S, C, K>, RenderContext<'a, S>) -> (RenderContext<'a, S>, B),
        I: FnOnce(B, (S, S)) -> bool,

        requires
            call_requires(paint, (old(self).framed(plain, stroke, color), *old(ctx))),
            forall|left: RenderContext<'a, S>, bounds: B| #[trigger]
                call_ensures(
                    paint,
                    (old(self).framed(plain, stroke, color), *old(ctx)),
                    (left, bounds),
                ) ==> match pointer_after(old(self).pointer, left.events@) {
                    Some(position) => call_requires(contains, (bounds, position)),
                    None => true,
                },
        ensures
            old(self).drawn(
                *old(ctx),
                plain,
                stroke,
                color,
                paint,
                contains,
                *final(self),
                *final(ctx),
            ),
    {
        let frame = self.frame(plain, stroke, color);
        let (left, bounds) = paint(frame, *ctx);
        *ctx = left;
        self.handle_events(ctx.events);
        let inside: bool = match self.pointer {
            Some(position) => contains(bounds, position),
            None => false,
        };
        self.settle(inside, ctx);
    }
}

/// Input may come in one piece or in several.
pub proof fn input_adds_up<S>(
    bar: Taskbar<S>,
    first: Seq<InputEvent<S>>,
    second: Seq<InputEvent<S>>,
)
    ensures
        bar.informed(first).informed(second) == bar.informed(first + second),
    decreases second.len(),
{
    if second.len() == 0 {
        assert(first + second =~= first);
    } else {
        assert((first + second).drop_last() =~= first + second.drop_last());
        input_adds_up(bar, first, second.drop_last());
    }
}

/// Once the pointer has left, no position counts as over the text.
pub proof fn nothing_hovers_after_leaving<S>(
    bar: Taskbar<S>,
    events: Seq<InputEvent<S>>,
    inside: bool,
)
    ensures
        !bar.informed(events.push(InputEvent::PointerLeave)).settled(inside).hovering,
{
}

/// The bar comes to rest: the draw that follows without new input finds the
/// pointer where it was, so it changes nothing and asks for no further draw.
pub proof fn bar_comes_to_rest<S>(bar: Taskbar<S>, inside: bool)
    ensures
        bar.settled(inside).informed(Seq::empty()).settled(inside) == bar.settled(inside),
{
}

/// Redraws stop after one quiet frame, with a line around the text or without:
/// a draw right after another that has no input and finds the text's bounds
/// where they were changes nothing, and leaves the context as it was given.
///
/// `bounds` are the text's bounds in both draws, whatever the frame looks like,
/// and `inside` is what both find out about positions. Painting the second time
/// asks for nothing.
pub proof fn quiet_draws_change_nothing<'a, S, C, K, B, P, I, Q, J>(
    bar: Taskbar<S>,
    first: RenderContext<'a, S>,
    once: Taskbar<S>,
    first_asked: RenderContext<'a, S>,
    second: RenderContext<'a, S>,
    twice: Taskbar<S>,
    second_asked: RenderContext<'a, S>,
    plain: FrameInfo<S, C, K>,
    stroke: K,
    color: C,
    paint_first: P,
    contains_first: I,
    paint_second: Q,
    contains_second: J,
    bounds: B,
    inside: spec_fn((S, S)) -> bool,
) where
    P: FnOnce(FrameInfo<S, C, K>, RenderContext<'a, S>) -> (RenderContext<'a, S>, B),
    I: FnOnce(B, (S, S)) -> bool,
    Q: FnOnce(FrameInfo<S, C, K>, RenderContext<'a, S>) -> (RenderContext<'a, S>, B),
    J: FnOnce(B, (S, S)) -> bool,

    requires
        bar.drawn(first, plain, stroke, color, paint_first, contains_first, once, first_asked),
        once.drawn(
            second,
            plain,
            stroke,
            color,
            paint_second,
            contains_second,
            twice,
            second_asked,
        ),
        second.events@.len() == 0,
        forall|frame: FrameInfo<S, C, K>, left: RenderContext<'a, S>, found: B| #[trigger]
            call_ensures(paint_first, (frame, first), (left, found)) ==> found == bounds,
        forall|frame: FrameInfo<S, C, K>, left: RenderContext<'a, S>, found: B| #[trigger]
            call_ensures(paint_second, (frame, second), (left, found)) ==> found == bounds
                && left == second,
        forall|position: (S, S), told: bool| #[trigger]
            call_ensures(contains_first, (bounds, position), told) ==> told == inside(position),
        forall|position: (S, S), told: bool| #[trigger]
            call_ensures(contains_second, (bounds, position), told) ==> told == inside(position),
    ensures
        twice == once,
        second_asked == second,
{
}

/// Another draw is asked for exactly if the frame would now be drawn
/// differently: a changed `hovering` means that the line appears or goes.
pub proof fn redraws_follow_the_frame<S, C, K>(
    bar: Taskbar<S>,
    inside: bool,
    plain: FrameInfo<S, C, K>,
    stroke: K,
    color: C,
)
    requires
        plain.edge is None,
    ensures
        bar.settled(inside).hovering != bar.hovering <==> bar.settled(inside).framed(
            plain,
            stroke,
            color,
        ) != bar.framed(plain, stroke, color),
{
}

/// Only entering, moving and leaving change where the pointer is: it is where
/// it last entered or moved to, or nowhere if it left after that.
pub proof fn only_the_pointer_moves_the_pointer<S>(
    pointer: Option<(S, S)>,
    events: Seq<InputEvent<S>>,
    event: InputEvent<S>,
)
    ensures
        pointer_after(pointer, Seq::empty()) == pointer,
        event matches InputEvent::PointerEnter { x, y } ==> pointer_after(
            pointer,
            events.push(event),
        ) == Some((x, y)),
        event matches InputEvent::PointerMove { time: _, x, y } ==> pointer_after(
            pointer,
            events.push(event),
        ) == Some((x, y)),
        event is PointerLeave ==> pointer_after(pointer, events.push(event)) is None,
        event !is PointerEnter && event !is PointerMove && event !is PointerLeave
            ==> pointer_after(pointer, events.push(event)) == pointer_after(pointer, events),
{
    assert(events.push(event).drop_last() =~= events);
}

/// Where the pointer was before does not matter once an event tells where it
/// is, and matters alone if none does.
pub proof fn the_last_telling_event_decides<S>(
    pointer: Option<(S, S)>,
    other: Option<(S, S)>,
    events: Seq<InputEvent<S>>,
)
    ensures
        (exists|i: int|
            0 <= i < events.len() && (#[trigger] events[i] is PointerEnter || events[i] is PointerMove
                || events[i] is PointerLeave)) ==> pointer_after(pointer, events)
            == pointer_after(other, events),
        (forall|i: int|
            0 <= i < events.len() ==> #[trigger] events[i] !is PointerEnter
                && events[i] !is PointerMove && events[i] !is PointerLeave) ==> pointer_after(
            pointer,
            events,
        ) == pointer,
    decreases events.len(),
{
    if events.len() > 0 {
        let rest = events.drop_last();
        the_last_telling_event_decides(pointer, other, rest);
        let last = events.last();
        if last !is PointerEnter && last !is PointerMove && last !is PointerLeave {
            if exists|i: int|
                0 <= i < events.len() && (#[trigger] events[i] is PointerEnter
                    || events[i] is PointerMove || events[i] is PointerLeave) {
                let i = choose|i: int|
                    0 <= i < events.len() && (#[trigger] events[i] is PointerEnter
                        || events[i] is PointerMove || events[i] is PointerLeave);
                assert(rest[i] == events[i]);
            }
            assert(forall|i: int| 0 <= i < rest.len() ==> #[trigger] rest[i] == events[i]);
        }
    }
}

/// Input moves the pointer and nothing else, and the end of a draw decides
/// about hovering and nothing else: the pointer is over the text exactly if
/// there is one and the bounds hold it.
pub proof fn input_and_hovering_are_separate<S>(
    bar: Taskbar<S>,
    events: Seq<InputEvent<S>>,
    inside: bool,
)
    ensures
        bar.informed(events).hovering == bar.hovering,
        bar.informed(events).pointer == pointer_after(bar.pointer, events),
        bar.settled(inside).pointer == bar.pointer,
        bar.settled(inside).hovering <==> bar.pointer is Some && inside,
{
}

/// The frame has the given line exactly while the pointer is over the text, and
/// is otherwise as given.
pub proof fn the_line_shows_hovering<S, C, K>(
    bar: Taskbar<S>,
    plain: FrameInfo<S, C, K>,
    stroke: K,
    color: C,
)
    ensures
        bar.hovering ==> (bar.framed(plain, stroke, color).edge matches Some(edge) && edge.stroke
            == stroke && edge.color == color),
        !bar.hovering ==> bar.framed(plain, stroke, color).edge == plain.edge,
        bar.framed(plain, stroke, color).margin == plain.margin,
        bar.framed(plain, stroke, color).padding == plain.padding,
        bar.framed(plain, stroke, color).radius == plain.radius,
        bar.framed(plain, stroke, color).color == plain.color,
{
}

/// A draw paints the frame with its line exactly if the pointer was over the
/// text before. After it the pointer is over the text only if there is one and
/// the text's bounds hold it, and another draw without delay was asked for
/// exactly if that changed. Nothing else of the context is touched.
pub proof fn draws_follow_the_pointer<'a, S, C, K, B, P, I>(
    bar: Taskbar<S>,
    ctx: RenderContext<'a, S>,
    plain: FrameInfo<S, C, K>,
    stroke: K,
    color: C,
    paint: P,
    contains: I,
    after: Taskbar<S>,
    asked: RenderContext<'a, S>,
) where
    P: FnOnce(FrameInfo<S, C, K>, RenderContext<'a, S>) -> (RenderContext<'a, S>, B),
    I: FnOnce(B, (S, S)) -> bool,

    requires
        bar.drawn(ctx, plain, stroke, color, paint, contains, after, asked),
        plain.edge is None,
    ensures
        exists|frame: FrameInfo<S, C, K>, left: RenderContext<'a, S>, bounds: B|
            {
                &&& #[trigger] call_ensures(paint, (frame, ctx), (left, bounds))
                &&& frame.edge is Some <==> bar.hovering
                &&& frame.color == plain.color
                &&& after.pointer == pointer_after(bar.pointer, left.events@)
                &&& after.hovering ==> after.pointer is Some && call_ensures(
                    contains,
                    (bounds, after.pointer->0),
                    true,
                )
                &&& !after.hovering && after.pointer is Some ==> call_ensures(
                    contains,
                    (bounds, after.pointer->0),
                    false,
                )
                &&& after.hovering != bar.hovering ==> asked.requested_redraw == Some(0u64)
                &&& after.hovering == bar.hovering ==> asked.requested_redraw
                    == left.requested_redraw
                &&& asked.events == left.events
                &&& asked.viewport_info == left.viewport_info
                &&& asked.current_time == left.current_time
            },
{
    let (left, bounds) = choose|left: RenderContext<'a, S>, bounds: B|
        {
            &&& #[trigger] call_ensures(
                paint,
                (bar.framed(plain, stroke, color), ctx),
                (left, bounds),
            )
            &&& after.pointer == pointer_after(bar.pointer, left.events@)
            &&& match after.pointer {
                Some(position) => call_ensures(contains, (bounds, position), after.hovering),
                None => !after.hovering,
            }
            &&& asked == if after.hovering != bar.hovering {
                left.redraw_requested()
            } else {
                left
            }
        };
    assert(call_ensures(paint, (bar.framed(plain, stroke, color), ctx), (left, bounds)));
}

} // verus!
