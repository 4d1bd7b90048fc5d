use desktop_things::frame::FrameStep;
use desktop_things::text::{plan_glyphs, Decoration, GlyphStep, RunMetrics};
use desktop_things::{FrameInfo, InputEvent, RenderContext, ViewportInfo};

fn viewport() -> ViewportInfo<f64> {
    ViewportInfo { point_size: (40.0, 1000.0), pixel_scale: 1.5 }
}

#[test]
fn new_context_asks_for_nothing() {
    let events: Vec<InputEvent<f64>> = vec![InputEvent::PointerLeave];
    let ctx = RenderContext::new(&events, viewport(), 77);
    assert_eq!(ctx.requested_redraw, None);
    assert_eq!(ctx.current_time, 77);
    assert_eq!(ctx.events.len(), 1);
    assert_eq!(ctx.viewport_info.point_size, (40.0, 1000.0));
}

#[test]
fn request_redraw_is_immediate() {
    let mut ctx = RenderContext::new(&[], viewport(), 0);
    ctx.request_redraw();
    assert_eq!(ctx.requested_redraw, Some(0));
    ctx.request_redraw();
    assert_eq!(ctx.requested_redraw, Some(0));
}

#[test]
fn frame_context_differs_only_in_size() {
    let events: Vec<InputEvent<f64>> = vec![InputEvent::KeyboardKey];
    let ctx = RenderContext::new(&events, viewport(), 5);
    let inner = ctx.begin_frame((28.0, 974.0));
    assert_eq!(inner.viewport_info.point_size, (28.0, 974.0));
    assert_eq!(inner.viewport_info.pixel_scale, 1.5);
    assert_eq!(inner.current_time, 5);
    assert_eq!(inner.events.len(), 1);
    assert_eq!(inner.requested_redraw, None);
}

#[test]
fn frame_passes_a_request_on() {
    let mut ctx = RenderContext::new(&[], viewport(), 0);
    let mut inner = ctx.begin_frame((1.0, 1.0));
    inner.request_redraw();
    ctx.end_frame(&inner);
    assert_eq!(ctx.requested_redraw, Some(0));
}

#[test]
fn frame_without_request_adds_none() {
    let mut ctx = RenderContext::new(&[], viewport(), 0);
    let inner = ctx.begin_frame((1.0, 1.0));
    ctx.end_frame(&inner);
    assert_eq!(ctx.requested_redraw, None);
}

#[test]
fn the_earlier_request_counts() {
    let mut ctx = RenderContext::new(&[], viewport(), 0);
    ctx.requested_redraw = Some(300);
    let mut inner = ctx.begin_frame((1.0, 1.0));
    inner.requested_redraw = Some(500);
    ctx.end_frame(&inner);
    assert_eq!(ctx.requested_redraw, Some(300));
    inner.requested_redraw = Some(200);
    ctx.end_frame(&inner);
    assert_eq!(ctx.requested_redraw, Some(200));
    inner.requested_redraw = None;
    ctx.end_frame(&inner);
    assert_eq!(ctx.requested_redraw, Some(200));
}

#[test]
fn content_is_drawn_inside_its_frame() {
    let mut ctx = RenderContext::new(&[], viewport(), 12);
    ctx.requested_redraw = Some(90);
    let seen = ctx.frame((28.0, 974.0), |mut inner| {
        let seen = (inner.viewport_info.point_size, inner.current_time, inner.requested_redraw);
        inner.request_redraw();
        (inner, seen)
    });
    assert_eq!(seen, ((28.0, 974.0), 12, Some(90)));
    assert_eq!(ctx.viewport_info.point_size, (40.0, 1000.0));
    assert_eq!(ctx.requested_redraw, Some(0));
}

#[test]
fn frame_builders_set_one_field_each() {
    let frame: FrameInfo<f64, &str, u8> = FrameInfo::new("black");
    assert!(frame.margin.is_none() && frame.padding.is_none());
    assert!(frame.radius.is_none() && frame.edge.is_none());
    let frame = frame
        .with_padding((1.0, 3.0))
        .with_margin((5.0, 10.0))
        .with_radius(4.0)
        .with_border(9, "gray");
    assert_eq!(frame.padding, Some((1.0, 3.0)));
    assert_eq!(frame.margin, Some((5.0, 10.0)));
    assert_eq!(frame.radius, Some(4.0));
    assert_eq!(frame.color, "black");
    let edge = frame.edge.unwrap();
    assert_eq!((edge.color, edge.stroke), ("gray", 9));
}

#[test]
fn a_cloned_frame_looks_the_same() {
    let frame: FrameInfo<f64, &str, u8> = FrameInfo::new("black")
        .with_margin((5.0, 10.0))
        .with_radius(4.0)
        .with_border(9, "gray");
    assert_eq!(format!("{:?}", frame.clone()), format!("{:?}", frame));
}

#[test]
fn frame_sizes_default_to_zero() {
    let frame: FrameInfo<f64, &str, u8> = FrameInfo::new("black").with_margin((5.0, 10.0));
    let sizes = frame.sizes(0.0);
    assert_eq!(sizes.margin, (5.0, 10.0));
    assert_eq!(sizes.padding, (0.0, 0.0));
    assert_eq!(sizes.radius, 0.0);
}

#[test]
fn frame_is_filled_before_its_content_and_stroked_after() {
    let plain: FrameInfo<f64, &str, u8> = FrameInfo::new("black");
    let steps = plain.into_steps();
    assert_eq!(steps.len(), 2);
    assert!(matches!(steps[0], FrameStep::Fill("black")));
    assert!(matches!(steps[1], FrameStep::Content));

    let edged: FrameInfo<f64, &str, u8> = FrameInfo::new("black").with_border(2, "gray");
    let steps = edged.into_steps();
    assert_eq!(steps.len(), 3);
    assert!(matches!(&steps[2], FrameStep::Stroke(edge) if edge.color == "gray" && edge.stroke == 2));
}

#[test]
fn glyphs_lie_over_underline_and_under_strikethrough() {
    let metrics = || RunMetrics {
        underline_offset: 1.0,
        underline_size: 2.0,
        strikethrough_offset: 3.0,
        strikethrough_size: 4.0,
    };
    let steps = plan_glyphs(
        Some(Decoration { offset: None, size: Some(8.0) }),
        Some(Decoration { offset: Some(9.0), size: Some(7.0) }),
        metrics(),
    );
    assert_eq!(steps.len(), 3);
    assert!(matches!(steps[0], GlyphStep::Underline { offset, width } if offset == 1.0 && width == 8.0));
    assert!(matches!(steps[1], GlyphStep::Glyphs));
    assert!(matches!(
        steps[2],
        GlyphStep::Strikethrough { offset, width, font_width }
            if offset == 9.0 && width == 7.0 && font_width == 4.0
    ));

    let plain = plan_glyphs::<f64>(None, None, metrics());
    assert_eq!(plain.len(), 1);
    assert!(matches!(plain[0], GlyphStep::Glyphs));
}
