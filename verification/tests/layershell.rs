use desktop_things::layer::LayerOptions;
use desktop_things::layershell::{App, DrawStart, Refusal};
use desktop_things::scale::SCALE_PARTS;
use desktop_things::{
    Capability, InputEvent, PointerEvent, PointerEventKind, RenderContext, Scale, ViewportInfo,
};

const LEFT: u64 = 1;
const RIGHT: u64 = 2;
const LEFT_BAR: u64 = 10;
const RIGHT_BAR: u64 = 20;

fn two_bars() -> App<f64> {
    let mut app = App::new();
    app.new_output(LEFT, LEFT_BAR);
    app.new_output(RIGHT, RIGHT_BAR);
    app
}

fn refusal(result: Result<DrawStart<f64>, Refusal>) -> Refusal {
    match result {
        Ok(_) => panic!("the draw was granted"),
        Err(refusal) => refusal,
    }
}

fn event(surface: u64, kind: PointerEventKind<f64>) -> PointerEvent<f64> {
    PointerEvent { surface, x: 3.5, y: 4.25, kind }
}

#[test]
fn unknown_surfaces_are_refused() {
    let mut app = two_bars();
    assert_eq!(refusal(app.begin_draw(99)), Refusal::UnregisteredSurface);
    assert_eq!(app.configure(99, (40, 10)), Err(Refusal::UnregisteredSurface));
    assert_eq!(app.scale_factor_changed(99, 2), Err(Refusal::UnregisteredSurface));
    assert_eq!(app.preferred_scale(99, 180), Err(Refusal::UnregisteredSurface));
    assert_eq!(app.frame(99, 5), Err(Refusal::UnregisteredSurface));
    assert!(!app.closed(99));
    assert!(!app.contains_surface(99));
}

#[test]
fn a_new_bar_waits_for_its_size() {
    let mut app = two_bars();
    assert_eq!(refusal(app.begin_draw(LEFT_BAR)), Refusal::Unconfigured);
    assert_eq!(app.configure(LEFT_BAR, (40, 1080)), Ok(()));
    let start = app.begin_draw(LEFT_BAR).ok().unwrap();
    assert_eq!(start.output, LEFT);
    assert_eq!(start.size, (40, 1080));
    assert_eq!(start.scale, Scale::Factor(1));
    assert_eq!(start.current_time, 0);
    assert!(start.events.is_empty());
    assert_eq!(refusal(app.begin_draw(RIGHT_BAR)), Refusal::Unconfigured);
}

#[test]
fn a_bar_without_width_is_not_drawn() {
    let mut app = two_bars();
    assert_eq!(app.configure(LEFT_BAR, (0, 1080)), Ok(()));
    assert_eq!(refusal(app.begin_draw(LEFT_BAR)), Refusal::Unconfigured);
}

#[test]
fn input_reaches_its_surface_in_order_and_once() {
    let mut app = two_bars();
    app.configure(LEFT_BAR, (40, 1080)).unwrap();
    app.configure(RIGHT_BAR, (40, 900)).unwrap();
    let requests = app.pointer_frame(&[
        event(LEFT_BAR, PointerEventKind::Enter),
        event(99, PointerEventKind::Motion { time: 1 }),
        event(RIGHT_BAR, PointerEventKind::Press { time: 2, button: 0x110 }),
        event(LEFT_BAR, PointerEventKind::Motion { time: u32::MAX }),
        event(LEFT_BAR, PointerEventKind::Axis { time: 4, horizontal: 0.5, vertical: -1.0 }),
        event(LEFT_BAR, PointerEventKind::Release { time: 5, button: 0x111 }),
        event(LEFT_BAR, PointerEventKind::Leave),
    ]);
    assert_eq!(requests, vec![LEFT_BAR, RIGHT_BAR, LEFT_BAR, LEFT_BAR, LEFT_BAR, LEFT_BAR]);

    let events = app.begin_draw(LEFT_BAR).ok().unwrap().events;
    assert_eq!(events.len(), 5);
    assert!(matches!(events[0], InputEvent::PointerEnter { x, y } if x == 3.5 && y == 4.25));
    assert!(matches!(
        events[1],
        InputEvent::PointerMove { time: 4_294_967_295, x, y } if x == 3.5 && y == 4.25
    ));
    assert!(matches!(
        events[2],
        InputEvent::PointerAxis { time: 4, horizontal, vertical }
            if horizontal == 0.5 && vertical == -1.0
    ));
    assert!(matches!(
        events[3],
        InputEvent::PointerButton { time: 5, button: 0x111, state: false }
    ));
    assert!(matches!(events[4], InputEvent::PointerLeave));
    assert!(app.begin_draw(LEFT_BAR).ok().unwrap().events.is_empty());

    let events = app.begin_draw(RIGHT_BAR).ok().unwrap().events;
    assert_eq!(events.len(), 1);
    assert!(matches!(
        events[0],
        InputEvent::PointerButton { time: 2, button: 0x110, state: true }
    ));
}

#[test]
fn input_is_dropped_when_an_unconfigured_bar_is_drawn() {
    let mut app = two_bars();
    app.pointer_frame(&[event(LEFT_BAR, PointerEventKind::Enter)]);
    assert_eq!(refusal(app.begin_draw(LEFT_BAR)), Refusal::Unconfigured);
    app.configure(LEFT_BAR, (40, 1080)).unwrap();
    assert!(app.begin_draw(LEFT_BAR).ok().unwrap().events.is_empty());
}

#[test]
fn the_last_scale_counts_and_only_on_its_display() {
    let mut app = two_bars();
    app.configure(LEFT_BAR, (40, 1080)).unwrap();
    app.configure(RIGHT_BAR, (40, 1080)).unwrap();
    assert_eq!(app.scale_factor_changed(LEFT_BAR, 2), Ok(()));
    assert_eq!(app.begin_draw(LEFT_BAR).ok().unwrap().scale, Scale::Factor(2));
    assert_eq!(app.preferred_scale(LEFT_BAR, 180), Ok(()));
    assert_eq!(app.begin_draw(LEFT_BAR).ok().unwrap().scale, Scale::Fraction(180));
    assert_eq!(app.begin_draw(RIGHT_BAR).ok().unwrap().scale, Scale::Factor(1));
}

#[test]
fn a_draw_sees_the_time_of_the_last_frame() {
    let mut app = two_bars();
    app.configure(LEFT_BAR, (40, 1080)).unwrap();
    assert_eq!(app.frame(LEFT_BAR, 16), Ok(()));
    assert_eq!(app.frame(LEFT_BAR, 33), Ok(()));
    assert_eq!(app.begin_draw(LEFT_BAR).ok().unwrap().current_time, 33);
}

#[test]
fn finishing_a_draw_tells_timer_and_target() {
    let mut app = two_bars();
    app.configure(LEFT_BAR, (40, 1080)).unwrap();
    let start = app.begin_draw(LEFT_BAR).ok().unwrap();
    let finish = app.finish_draw(start.output, LEFT_BAR, Some(0));
    assert_eq!(finish.redraw_after, Some(0));
    assert_eq!(finish.target, Ok(()));
    let finish = app.finish_draw(start.output, RIGHT_BAR, None);
    assert_eq!(finish.redraw_after, None);
    assert_eq!(finish.target, Err(Refusal::NoRenderTarget));
    let finish = app.finish_draw(77, LEFT_BAR, None);
    assert_eq!(finish.target, Err(Refusal::UnregisteredOutput));
}

#[test]
fn an_output_takes_its_surfaces_along() {
    let mut app = two_bars();
    app.output_destroyed(LEFT);
    assert!(!app.contains_surface(LEFT_BAR));
    assert!(app.contains_surface(RIGHT_BAR));
    assert_eq!(refusal(app.begin_draw(LEFT_BAR)), Refusal::UnregisteredSurface);
    app.output_destroyed(LEFT);
    assert!(app.contains_surface(RIGHT_BAR));
}

#[test]
fn closing_a_surface_removes_its_display() {
    let mut app = two_bars();
    assert!(app.closed(RIGHT_BAR));
    assert!(!app.contains_surface(RIGHT_BAR));
    assert!(app.contains_surface(LEFT_BAR));
    assert_eq!(
        app.finish_draw(RIGHT, RIGHT_BAR, None).target,
        Err(Refusal::UnregisteredOutput)
    );
}

#[test]
fn a_replaced_display_leaves_the_old_surface_without_target() {
    let mut app = two_bars();
    app.new_output(LEFT, 11);
    assert!(app.contains_surface(LEFT_BAR));
    assert_eq!(app.configure(LEFT_BAR, (40, 10)), Err(Refusal::NoRenderTarget));
    assert_eq!(app.configure(11, (40, 10)), Ok(()));
    app.output_destroyed(LEFT);
    assert_eq!(app.frame(LEFT_BAR, 1), Err(Refusal::UnregisteredOutput));
    assert_eq!(refusal(app.begin_draw(LEFT_BAR)), Refusal::UnregisteredOutput);
    assert_eq!(app.preferred_scale(LEFT_BAR, 120), Err(Refusal::UnregisteredOutput));
}

#[test]
fn only_pointers_are_taken_up() {
    let mut app = two_bars();
    assert!(!app.new_capability(5, Capability::Keyboard));
    assert!(!app.new_capability(5, Capability::Touch));
    assert!(!app.remove_seat(5));
    assert!(app.new_capability(5, Capability::Pointer));
    assert!(!app.remove_capability(5, Capability::Keyboard));
    assert!(app.remove_capability(5, Capability::Pointer));
    assert!(!app.remove_seat(5));
    assert!(app.new_capability(6, Capability::Pointer));
    assert!(app.remove_seat(6));
}

#[test]
fn new_display_is_fresh() {
    let app: App<f64> = App::new();
    let _display = app.new_display(3);
    assert!(!app.contains_surface(3));
}

#[test]
fn bars_stand_on_opposite_edges() {
    let left = LayerOptions::left_bar();
    assert!(left.anchor.top && left.anchor.bottom && left.anchor.left && !left.anchor.right);
    assert_eq!(left.size, (40, 0));
    assert_eq!(left.exclusive_zone, 40);
    assert_eq!(left.namespace, "desktop_things");
    assert!(left.keyboard_on_demand);
    let right = LayerOptions::right_bar();
    assert!(right.anchor.top && right.anchor.bottom && right.anchor.right && !right.anchor.left);
    assert_eq!(right.size, (40, 0));
    assert_eq!(right.exclusive_zone, 40);
    assert_eq!(right.namespace, "desktop-things");
    assert!(!right.keyboard_on_demand);
}

/// What a program was given to draw with.
#[derive(Debug, PartialEq)]
struct Seen {
    events: usize,
    area: (f64, f64),
    time: u64,
    requested_redraw: Option<u64>,
}

fn look(ctx: &RenderContext<'_, f64>) -> Seen {
    Seen {
        events: ctx.events.len(),
        area: ctx.viewport_info.point_size,
        time: ctx.current_time,
        requested_redraw: ctx.requested_redraw,
    }
}

fn area(size: (u32, u32), scale: Scale) -> ViewportInfo<f64> {
    let pixel_scale = match scale {
        Scale::Factor(factor) => f64::from(factor),
        Scale::Fraction(parts) => f64::from(parts) / 120.0,
    };
    ViewportInfo {
        point_size: (f64::from(size.0) / pixel_scale, f64::from(size.1) / pixel_scale),
        pixel_scale,
    }
}

#[test]
fn a_program_draws_with_what_is_known() {
    let mut app = two_bars();
    app.configure(LEFT_BAR, (60, 900)).unwrap();
    app.preferred_scale(LEFT_BAR, 180).unwrap();
    app.frame(LEFT_BAR, 1234).unwrap();
    app.pointer_frame(&[
        event(LEFT_BAR, PointerEventKind::Enter),
        event(RIGHT_BAR, PointerEventKind::Enter),
        event(LEFT_BAR, PointerEventKind::Leave),
    ]);
    let mut seen = Vec::new();
    let finish = app
        .draw(LEFT_BAR, area, |ctx| {
            seen.push(look(&ctx));
            Some(250)
        })
        .ok()
        .unwrap();
    assert_eq!(finish.redraw_after, Some(250));
    assert_eq!(finish.target, Ok(()));
    let expected = Seen { events: 2, area: (40.0, 600.0), time: 1234, requested_redraw: None };
    assert_eq!(seen, vec![expected]);

    let finish = app
        .draw(LEFT_BAR, area, |ctx| {
            seen.push(look(&ctx));
            None
        })
        .ok()
        .unwrap();
    assert_eq!(finish.redraw_after, None);
    assert_eq!(seen.len(), 2);
    assert_eq!(seen[1].events, 0);
}

#[test]
fn a_program_is_not_asked_where_nothing_is_drawn() {
    let mut app = two_bars();
    let refused = app.draw(LEFT_BAR, area, |_| panic!("drawn without an area"));
    assert_eq!(refused.err(), Some(Refusal::Unconfigured));
    let refused = app.draw(99, area, |_| panic!("drawn without a surface"));
    assert_eq!(refused.err(), Some(Refusal::UnregisteredSurface));
}

#[test]
fn a_draw_on_a_replaced_display_is_not_shown() {
    let mut app = two_bars();
    app.configure(LEFT_BAR, (40, 900)).unwrap();
    app.new_output(LEFT, 11);
    let finish = app.draw(LEFT_BAR, area, |_| Some(5)).ok().unwrap();
    assert_eq!(finish.redraw_after, Some(5));
    assert_eq!(finish.target, Err(Refusal::NoRenderTarget));
}

#[test]
fn a_factor_and_its_fraction_are_the_same_scale() {
    for factor in [0, 1, 2, 3, 1_000_000] {
        let mut whole = two_bars();
        let mut parts = two_bars();
        whole.configure(LEFT_BAR, (80, 900)).unwrap();
        parts.configure(LEFT_BAR, (80, 900)).unwrap();
        assert_eq!(whole.scale_factor_changed(LEFT_BAR, factor), Ok(()));
        assert_eq!(parts.preferred_scale(LEFT_BAR, SCALE_PARTS * factor as u32), Ok(()));
        let whole = whole.begin_draw(LEFT_BAR).ok().unwrap();
        let parts = parts.begin_draw(LEFT_BAR).ok().unwrap();
        assert_eq!(area(whole.size, whole.scale).pixel_scale, f64::from(factor));
        assert_eq!(area(parts.size, parts.scale).pixel_scale, f64::from(factor));
    }
}
