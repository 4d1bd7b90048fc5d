//! The order in which a run of text is painted.

use vstd::prelude::*;

verus! {

/// A line along a run of text. What is not given follows the font.
pub struct Decoration<S> {
    pub offset: Option<S>,
    pub size: Option<S>,
}

/// What a font says of the lines along its text.
pub struct RunMetrics<S> {
    pub underline_offset: S,
    pub underline_size: S,
    pub strikethrough_offset: S,
    pub strikethrough_size: S,
}

/// One step of painting a run of text. Offsets are distances from the baseline
/// to the top of a line.
pub enum GlyphStep<S> {
    /// A line whose middle lies half of its width below its top.
    Underline { offset: S, width: S },
    /// The glyphs themselves.
    Glyphs,
    /// A line whose middle lies half of the font's own width below its top.
    Strikethrough { offset: S, width: S, font_width: S },
}

/// The steps of painting a run: an underline lies under the glyphs, and a
/// strikethrough on top of them.
pub open spec fn glyph_steps<S>(
    underline: Option<Decoration<S>>,
    strikethrough: Option<Decoration<S>>,
    metrics: RunMetrics<S>,
) -> Seq<GlyphStep<S>> {
    let below = match underline {
        Some(line) => seq![
            GlyphStep::Underline {
                offset: crate::frame::value_or(line.offset, metrics.underline_offset),
                width: crate::frame::value_or(line.size, metrics.underline_size),
            },
        ],
        None => Seq::empty(),
    };
    let above = match strikethrough {
        Some(line) => seq![
            GlyphStep::Strikethrough {
                offset: crate::frame::value_or(line.offset, metrics.strikethrough_offset),
                width: crate::frame::value_or(line.size, metrics.strikethrough_size),
                font_width: metrics.strikethrough_size,
            },
        ],
        None => Seq::empty(),
    };
    below.push(GlyphStep::Glyphs) + above
}

/// Plans the painting of a run of text.
pub fn plan_glyphs<S: Copy>(
    underline: Option<Decoration<S>>,
    strikethrough: Option<Decoration<S>>,
    metrics: RunMetrics<S>,
) -> (steps: Vec<GlyphStep<S>>)
    ensures
        steps@ == glyph_steps(underline, strikethrough, metrics),
{
    let mut steps: Vec<GlyphStep<S>> = Vec::new();
    if let Some(line) = &underline {
        steps.push(
            GlyphStep::Underline {
                offset: line.offset.unwrap_or(metrics.underline_offset),
                width: line.size.unwrap_or(metrics.underline_size),
            },
        );
    }
    steps.push(GlyphStep::Glyphs);
    if let Some(line) = &strikethrough {
        steps.push(
            GlyphStep::Strikethrough {
                offset: line.offset.unwrap_or(metrics.strikethrough_offset),
                width: line.size.unwrap_or(metrics.strikethrough_size),
                font_width: metrics.strikethrough_size,
            },
        );
    }
    assert(steps@ =~= glyph_steps(underline, strikethrough, metrics));
    steps
}

/// The glyphs are painted exactly once, after every underline and before every
/// strikethrough.
pub proof fn glyphs_lie_between_their_lines<S>(
    underline: Option<Decoration<S>>,
    strikethrough: Option<Decoration<S>>,
    metrics: RunMetrics<S>,
)
    ensures
        ({
            let steps = glyph_steps(underline, strikethrough, metrics);
            exists|at: int|
                {
                    &&& 0 <= at < steps.len()
                    &&& #[trigger] steps[at] is Glyphs
                    &&& forall|i: int| 0 <= i < at ==> #[trigger] steps[i] is Underline
                    &&& forall|i: int| at < i < steps.len() ==> #[trigger] steps[i] is Strikethrough
                }
        }),
{
    let steps = glyph_steps(underline, strikethrough, metrics);
    let at: int = if underline is Some { 1 } else { 0 };
    assert(steps[at] is Glyphs);
}

/// A run has a line below its glyphs exactly if it is underlined, and one above
/// exactly if it is struck through. What a line says of its offset and width
/// counts, and the font's word counts for what it does not say. The middle of a
/// strikethrough follows the font in any case.
pub proof fn lines_follow_their_style<S>(
    underline: Option<Decoration<S>>,
    strikethrough: Option<Decoration<S>>,
    metrics: RunMetrics<S>,
)
    ensures
        ({
            let steps = glyph_steps(underline, strikethrough, metrics);
            let glyphs: int = if underline is Some {
                1
            } else {
                0
            };
            &&& steps.len() == glyphs + 1 + if strikethrough is Some {
                1int
            } else {
                0int
            }
            &&& steps[glyphs] is Glyphs
            &&& underline matches Some(line) ==> {
                &&& steps[0] matches GlyphStep::Underline { offset, width }
                &&& offset == match line.offset {
                    Some(own) => own,
                    None => metrics.underline_offset,
                }
                &&& width == match line.size {
                    Some(own) => own,
                    None => metrics.underline_size,
                }
            }
            &&& strikethrough matches Some(line) ==> {
                &&& steps[glyphs + 1] matches GlyphStep::Strikethrough {
                    offset,
                    width,
                    font_width,
                }
                &&& offset == match line.offset {
                    Some(own) => own,
                    None => metrics.strikethrough_offset,
                }
                &&& width == match line.size {
                    Some(own) => own,
                    None => metrics.strikethrough_size,
                }
                &&& font_width == metrics.strikethrough_size
            }
        }),
{
}

} // verus!
