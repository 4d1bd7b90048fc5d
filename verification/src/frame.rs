//! How a frame around content looks.

use vstd::prelude::*;

verus! {

/// The line around a frame, in a color of type `C` and a stroke of type `K`.
#[derive(Clone, Debug)]
pub struct FrameEdge<C, K> {
    pub color: C,
    pub stroke: K,
}

/// A frame: the space outside it, the space between it and its content, the
/// radius of its corners, its line and its fill. Sizes have type `S`.
#[derive(Clone, Debug)]
pub struct FrameInfo<S, C, K> {
    pub margin: Option<(S, S)>,
    pub padding: Option<(S, S)>,
    pub radius: Option<S>,
    pub edge: Option<FrameEdge<C, K>>,
    pub color: C,
}

/// The sizes of a frame with the defaults filled in.
pub struct FrameSizes<S> {
    pub margin: (S, S),
    pub padding: (S, S),
    pub radius: S,
}

/// One step of drawing a frame.
pub enum FrameStep<C, K> {
    /// Fill the frame's area.
    Fill(C),
    /// Put the content, moved inwards by margin and padding.
    Content,
    /// Draw the line around the frame.
    Stroke(FrameEdge<C, K>),
}

/// The value if there is one, else the default.
pub open spec fn value_or<T>(value: Option<T>, default: T) -> T {
    match value {
        Some(value) => value,
        None => default,
    }
}

/// The steps in which a frame is drawn: the fill lies below the content, and
/// the line, where there is one, above both.
pub open spec fn frame_steps<S, C, K>(frame: FrameInfo<S, C, K>) -> Seq<FrameStep<C, K>> {
    let below = seq![FrameStep::Fill(frame.color), FrameStep::Content];
    match frame.edge {
        Some(edge) => below.push(FrameStep::Stroke(edge)),
        None => below,
    }
}

impl<S, C, K> FrameInfo<S, C, K> {
    /// A frame that is only a fill.
    pub fn new(color: C) -> (frame: Self)
        ensures
            frame == (FrameInfo::<S, C, K> {
                margin: None,
                padding: None,
                radius: None,
                edge: None,
                color,
            }),
    {
        FrameInfo { color, radius: None, margin: None, padding: None, edge: None }
    }

    #[must_use]
    pub fn with_radius(self, radius: S) -> (frame: Self)
        ensures
            frame == (FrameInfo { radius: Some(radius), ..self }),
    {
        FrameInfo { radius: Some(radius), ..self }
    }

    #[must_use]
    pub fn with_margin(self, size: (S, S)) -> (frame: Self)
        ensures
            frame == (FrameInfo { margin: Some(size), ..self }),
    {
        FrameInfo { margin: Some(size), ..self }
    }

    #[must_use]
    pub fn with_padding(self, size: (S, S)) -> (frame: Self)
        ensures
            frame == (FrameInfo { padding: Some(size), ..self }),
    {
        FrameInfo { padding: Some(size), ..self }
    }

    #[must_use]
    pub fn with_border(self, stroke: K, color: C) -> (frame: Self)
        ensures
            frame == (FrameInfo { edge: Some(FrameEdge { color, stroke }), ..self }),
    {
        FrameInfo { edge: Some(FrameEdge { color, stroke }), ..self }
    }
}

impl<S: Copy, C, K> FrameInfo<S, C, K> {
    /// The frame's sizes, with `zero` for those that were not given.
    pub fn sizes(&self, zero: S) -> (sizes: FrameSizes<S>)
        ensures
            sizes.margin == value_or(self.margin, (zero, zero)),
            sizes.padding == value_or(self.padding, (zero, zero)),
            sizes.radius == value_or(self.radius, zero),
    {
        FrameSizes {
            margin: self.margin.unwrap_or((zero, zero)),
            padding: self.padding.unwrap_or((zero, zero)),
            radius: self.radius.unwrap_or(zero),
        }
    }
}

impl<S, C: Copy, K> FrameInfo<S, C, K> {
    /// The steps in which the frame is drawn, in order.
    pub fn into_steps(self) -> (steps: Vec<FrameStep<C, K>>)
        ensures
            steps@ == frame_steps(self),
    {
        let mut steps: Vec<FrameStep<C, K>> = Vec::new();
        steps.push(FrameStep::Fill(self.color));
        steps.push(FrameStep::Content);
        if let Some(edge) = self.edge {
            steps.push(FrameStep::Stroke(edge));
        }
        steps
    }
}

/// A given value counts, whatever the default is, and the default counts only
/// where none is given.
pub proof fn given_values_count<T>(value: T, default: T, other: T)
    ensures
        value_or(Some(value), default) == value,
        value_or(Some(value), default) == value_or(Some(value), other),
        value_or(None, default) == default,
{
}

/// A frame is filled first, in its own color, then gets its content, and last
/// its line if it has one. Nothing is drawn twice.
pub proof fn frames_are_drawn_from_below<S, C, K>(frame: FrameInfo<S, C, K>)
    ensures
        ({
            let steps = frame_steps(frame);
            &&& steps.len() == if frame.edge is Some {
                3int
            } else {
                2int
            }
            &&& steps[0] == FrameStep::<C, K>::Fill(frame.color)
            &&& steps[1] is Content
            &&& frame.edge is Some ==> steps[2] == FrameStep::<C, K>::Stroke(frame.edge->0)
        }),
{
}

} // verus!
