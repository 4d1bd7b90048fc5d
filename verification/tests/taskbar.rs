use desktop_things::taskbar::Taskbar;
use desktop_things::{FrameInfo, InputEvent, RenderContext, ViewportInfo};

fn context(events: &[InputEvent<f64>]) -> RenderContext<'_, f64> {
    RenderContext::new(
        events,
        ViewportInfo { point_size: (40.0, 1080.0), pixel_scale: 1.0 },
        0,
    )
}

#[test]
fn the_pointer_is_where_it_was_last_seen() {
    let mut bar = Taskbar::new();
    bar.handle_events(&[
        InputEvent::PointerEnter { x: 1.0, y: 2.0 },
        InputEvent::PointerMove { time: 3, x: 4.0, y: 5.0 },
        InputEvent::PointerButton { time: 4, button: 0x110, state: true },
        InputEvent::KeyboardKey,
    ]);
    assert_eq!(bar.pointer, Some((4.0, 5.0)));
    bar.handle_events(&[]);
    assert_eq!(bar.pointer, Some((4.0, 5.0)));
    bar.handle_events(&[InputEvent::PointerLeave]);
    assert_eq!(bar.pointer, None);
    bar.handle_events(&[InputEvent::PointerAxis { time: 9, horizontal: 1.0, vertical: 0.0 }]);
    assert_eq!(bar.pointer, None);
}

#[test]
fn a_redraw_is_asked_for_when_hovering_changes() {
    let mut bar = Taskbar::new();
    bar.handle_events(&[InputEvent::PointerEnter { x: 1.0, y: 2.0 }]);
    let mut ctx = context(&[]);
    bar.settle(true, &mut ctx);
    assert!(bar.hovering);
    assert_eq!(ctx.requested_redraw, Some(0));

    let mut ctx = context(&[]);
    bar.settle(true, &mut ctx);
    assert!(bar.hovering);
    assert_eq!(ctx.requested_redraw, None);

    let mut ctx = context(&[]);
    bar.settle(false, &mut ctx);
    assert!(!bar.hovering);
    assert_eq!(ctx.requested_redraw, Some(0));
}

#[test]
fn nothing_hovers_without_a_pointer() {
    let mut bar: Taskbar<f64> = Taskbar::new();
    let mut ctx = context(&[]);
    bar.settle(true, &mut ctx);
    assert!(!bar.hovering);
    assert_eq!(ctx.requested_redraw, None);
}

#[test]
fn the_frame_has_a_line_while_hovering() {
    let mut bar: Taskbar<f64> = Taskbar::new();
    let plain = || FrameInfo::new("black").with_radius(4.0);
    assert!(bar.frame(plain(), 1, "gray").edge.is_none());
    bar.hovering = true;
    let edge = bar.frame(plain(), 1, "gray").edge.unwrap();
    assert_eq!((edge.stroke, edge.color), (1, "gray"));
}

#[test]
fn a_draw_follows_its_input() {
    let mut bar = Taskbar::new();
    let plain = || FrameInfo::new("black");
    let left_of = |bound: f64, position: (f64, f64)| position.0 < bound;
    let mut lines = Vec::new();

    let events = [
        InputEvent::PointerEnter { x: 30.0, y: 2.0 },
        InputEvent::PointerMove { time: 1, x: 10.0, y: 2.0 },
    ];
    let mut ctx = context(&events);
    bar.draw(
        &mut ctx,
        plain(),
        7,
        "gray",
        |frame, ctx| {
            lines.push(frame.edge.is_some());
            (ctx, 20.0)
        },
        left_of,
    );
    assert_eq!(bar.pointer, Some((10.0, 2.0)));
    assert!(bar.hovering);
    assert_eq!(ctx.requested_redraw, Some(0));

    let mut ctx = context(&[]);
    bar.draw(
        &mut ctx,
        plain(),
        7,
        "gray",
        |frame, ctx| {
            lines.push(frame.edge.is_some());
            (ctx, 20.0)
        },
        left_of,
    );
    assert!(bar.hovering);
    assert_eq!(ctx.requested_redraw, None);
    assert_eq!(lines, vec![false, true]);

    let mut ctx = context(&[]);
    bar.draw(&mut ctx, plain(), 7, "gray", |_, ctx| (ctx, 5.0), left_of);
    assert!(!bar.hovering);
    assert_eq!(ctx.requested_redraw, Some(0));
}

#[test]
fn what_painting_asks_for_is_kept() {
    let mut bar = Taskbar::new();
    let events = [InputEvent::PointerLeave];
    let mut ctx = context(&events);
    let plain: FrameInfo<f64, &str, u8> = FrameInfo::new("black");
    bar.draw(
        &mut ctx,
        plain,
        7,
        "gray",
        |_, mut ctx| {
            ctx.requested_redraw = Some(40);
            (ctx, ())
        },
        |_, _| panic!("there is no position to ask about"),
    );
    assert_eq!(ctx.requested_redraw, Some(40));
    assert!(!bar.hovering);
}

#[test]
fn redraws_stop_after_a_quiet_frame() {
    let plain = || FrameInfo::new("black");
    for x in [10.0, 30.0] {
        let mut bar = Taskbar::new();
        let events = [InputEvent::PointerEnter { x, y: 2.0 }];
        let mut ctx = context(&events);
        bar.draw(&mut ctx, plain(), 7, "gray", |_, ctx| (ctx, 20.0), |b, p| p.0 < b);
        let (pointer, hovering) = (bar.pointer, bar.hovering);
        assert_eq!(hovering, x == 10.0);

        let mut ctx = context(&[]);
        bar.draw(&mut ctx, plain(), 7, "gray", |_, ctx| (ctx, 20.0), |b, p| p.0 < b);
        assert_eq!((bar.pointer, bar.hovering), (pointer, hovering));
        assert_eq!(ctx.requested_redraw, None);
    }
}
