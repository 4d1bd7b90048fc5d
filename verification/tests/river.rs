use desktop_things::bar_input::{
    button_from_code, has_known_buttons, interacted_surfaces, BarEvent, PointerButton,
};
use desktop_things::river::{
    OutputStatusEvent, Outcome, SeatStatusEvent, StatusChange, Taskbar,
};
use desktop_things::{Capability, PointerEvent, PointerEventKind, Scale};
use smithay_client_toolkit::seat::pointer;

const ROOT: u64 = 1000;
const FIRST: u64 = 1;
const SECOND: u64 = 2;

/// Output `n` has the surface `10 * n` and the viewport `100 * n`.
fn two_bars() -> Taskbar<f32> {
    let mut bar = Taskbar::new(ROOT);
    bar.new_output(FIRST, 10, 100);
    bar.new_output(SECOND, 20, 200);
    bar
}

fn repaint(outcome: Outcome) -> Vec<u64> {
    match outcome {
        Outcome::Repaint(mut viewports) => {
            viewports.sort();
            viewports
        }
        _ => panic!("nothing to draw"),
    }
}

fn event(surface: u64, kind: PointerEventKind<f32>) -> PointerEvent<f32> {
    PointerEvent { surface, x: 1.5, y: 2.5, kind }
}

#[test]
fn a_new_output_is_unknown_to_river() {
    let bar = two_bars();
    let status = bar.status(FIRST).unwrap();
    assert_eq!((status.used, status.focused, status.urgent), (0, 0, 0));
    assert_eq!(status.view_title, "");
    assert!(bar.status(9).is_none());
}

#[test]
fn status_events_change_one_field_of_one_output() {
    let mut bar = two_bars();
    let outcome = bar.output_status(FIRST, OutputStatusEvent::FocusedTags { tags: 4 });
    assert_eq!(repaint(outcome), vec![100]);
    let outcome = bar.output_status(FIRST, OutputStatusEvent::UrgentTags { tags: 2 });
    assert_eq!(repaint(outcome), vec![100]);
    let outcome = bar.output_status(FIRST, OutputStatusEvent::Layout);
    assert_eq!(repaint(outcome), vec![100]);
    let status = bar.status(FIRST).unwrap();
    assert_eq!((status.used, status.focused, status.urgent), (0, 4, 2));
    let other = bar.status(SECOND).unwrap();
    assert_eq!((other.used, other.focused, other.urgent), (0, 0, 0));
}

#[test]
fn view_tags_are_united() {
    let mut bar = two_bars();
    let bytes: Vec<u8> = bytemuck::cast_slice(&[1u32, 0x0002_0000]).to_vec();
    let aligned = bytes.as_ptr() as usize % 4 == 0;
    let outcome = bar.output_status(FIRST, OutputStatusEvent::ViewTags { bytes });
    if aligned {
        assert_eq!(repaint(outcome), vec![100]);
        assert_eq!(bar.status(FIRST).unwrap().used, 0x0002_0001);
    } else {
        assert!(matches!(outcome, Outcome::Unreadable));
    }
    let outcome = bar.output_status(FIRST, OutputStatusEvent::ViewTags { bytes: vec![] });
    assert_eq!(repaint(outcome), vec![100]);
    assert_eq!(bar.status(FIRST).unwrap().used, 0);
}

#[test]
fn unreadable_view_tags_change_nothing() {
    let mut bar = two_bars();
    repaint(bar.change_status(FIRST, StatusChange::Used(7)));
    let outcome = bar.output_status(FIRST, OutputStatusEvent::ViewTags { bytes: vec![1, 2, 3] });
    assert!(matches!(outcome, Outcome::Unreadable));
    assert_eq!(bar.status(FIRST).unwrap().used, 7);
}

#[test]
fn unknown_outputs_are_reported() {
    let mut bar = two_bars();
    let outcome = bar.output_status(9, OutputStatusEvent::FocusedTags { tags: 4 });
    assert!(matches!(outcome, Outcome::UnknownOutput));
    let outcome = bar.output_status(9, OutputStatusEvent::ViewTags { bytes: vec![1] });
    assert!(matches!(outcome, Outcome::UnknownOutput));
    assert!(matches!(bar.change_status(9, StatusChange::Nothing), Outcome::UnknownOutput));
    bar.seat_status(5, SeatStatusEvent::FocusedOutput { output: 9 });
    let outcome = bar.seat_status(5, SeatStatusEvent::FocusedView { title: "x".to_string() });
    assert!(matches!(outcome, Outcome::UnknownOutput));
}

#[test]
fn titles_go_to_the_output_of_the_seat() {
    let mut bar = two_bars();
    assert!(!bar.is_seat_focused(5));
    let outcome = bar.seat_status(5, SeatStatusEvent::FocusedOutput { output: SECOND });
    assert!(matches!(outcome, Outcome::Nothing));
    assert!(bar.is_seat_focused(5));
    let outcome = bar.seat_status(5, SeatStatusEvent::FocusedView { title: "editor".to_string() });
    assert_eq!(repaint(outcome), vec![200]);
    assert_eq!(bar.status(SECOND).unwrap().view_title, "editor");
    assert_eq!(bar.status(FIRST).unwrap().view_title, "");
    assert!(matches!(bar.seat_status(5, SeatStatusEvent::Mode), Outcome::Nothing));
    assert!(matches!(bar.seat_status(5, SeatStatusEvent::UnfocusedOutput), Outcome::Nothing));
    assert!(!bar.is_seat_focused(5));
}

#[test]
fn a_click_is_sent_for_a_seat_on_the_output() {
    let mut bar = two_bars();
    assert!(bar.tag_clicked(FIRST, 3).is_none());
    bar.seat_status(5, SeatStatusEvent::FocusedOutput { output: FIRST });
    bar.seat_status(6, SeatStatusEvent::FocusedOutput { output: SECOND });
    let command = bar.tag_clicked(FIRST, 3).unwrap();
    assert_eq!(command.seat, 5);
    assert_eq!(command.arguments, vec!["set-focused-tags", "8"]);
    assert_eq!(bar.seat_on(SECOND), Some(6));
    bar.seat_status(6, SeatStatusEvent::FocusedOutput { output: FIRST });
    assert_eq!(bar.seat_on(SECOND), None);
    assert!(matches!(bar.seat_on(FIRST), Some(5) | Some(6)));
}

#[test]
fn the_first_configure_asks_for_a_draw() {
    let mut bar = two_bars();
    assert!(bar.configure(99, (40, 900)).is_none());
    let configured = bar.configure(10, (40, 900)).unwrap();
    assert_eq!((configured.viewport, configured.first_draw), (100, true));
    let configured = bar.configure(10, (40, 800)).unwrap();
    assert_eq!((configured.viewport, configured.first_draw), (100, false));
    let start = bar.begin_frame(100).unwrap();
    assert_eq!(start.size, (40, 800));
    assert!(start.visible);
    let start = bar.begin_frame(200).unwrap();
    assert_eq!(start.size, (40, 0));
    assert!(!start.visible);
}

#[test]
fn input_is_handed_to_one_draw() {
    let mut bar = two_bars();
    bar.frame(250);
    let repaint = bar.pointer_frame(&[
        event(10, PointerEventKind::Enter),
        event(10, PointerEventKind::Press { time: 1, button: 0x110 }),
        event(99, PointerEventKind::Motion { time: 2 }),
        event(20, PointerEventKind::Axis { time: 3, horizontal: 0.0, vertical: 7.0 }),
        event(10, PointerEventKind::Release { time: 4, button: 0x114 }),
        event(10, PointerEventKind::Leave),
    ]);
    assert_eq!(repaint, vec![100, 200, 100]);
    let start = bar.begin_frame(200).unwrap();
    assert_eq!(start.time, Some(250));
    assert_eq!(start.events.len(), 6);
    assert!(matches!(start.events[0], BarEvent::PointerMoved { x, y } if x == 1.5 && y == 2.5));
    assert!(matches!(
        start.events[1],
        BarEvent::PointerButton { button: PointerButton::Primary, pressed: true, .. }
    ));
    assert!(matches!(start.events[2], BarEvent::PointerMoved { .. }));
    assert!(matches!(
        start.events[3],
        BarEvent::MouseWheel { horizontal, vertical } if horizontal == 0.0 && vertical == 7.0
    ));
    assert!(matches!(
        start.events[4],
        BarEvent::PointerButton { button: PointerButton::Extra2, pressed: false, .. }
    ));
    assert!(matches!(start.events[5], BarEvent::PointerGone));
    assert!(bar.begin_frame(100).unwrap().events.is_empty());
}

#[test]
fn input_is_lost_on_a_missing_viewport() {
    let mut bar = two_bars();
    bar.pointer_frame(&[event(10, PointerEventKind::Enter)]);
    assert!(bar.begin_frame(300).is_none());
    assert!(bar.begin_frame(100).unwrap().events.is_empty());
}

#[test]
fn button_codes_are_those_of_the_toolkit() {
    assert_eq!(button_from_code(pointer::BTN_LEFT), Some(PointerButton::Primary));
    assert_eq!(button_from_code(pointer::BTN_RIGHT), Some(PointerButton::Secondary));
    assert_eq!(button_from_code(pointer::BTN_MIDDLE), Some(PointerButton::Middle));
    assert_eq!(button_from_code(pointer::BTN_SIDE), Some(PointerButton::Extra1));
    assert_eq!(button_from_code(pointer::BTN_EXTRA), Some(PointerButton::Extra2));
    assert_eq!(button_from_code(pointer::BTN_TASK), None);
}

#[test]
fn unknown_buttons_are_noticed() {
    let known = event(10, PointerEventKind::Press { time: 0, button: 0x112 });
    let unknown = event(10, PointerEventKind::Release { time: 0, button: 0x117 });
    assert!(has_known_buttons(&[known]));
    assert!(unknown.to_bar_event().is_none());
    assert!(!has_known_buttons(&[event(10, PointerEventKind::Enter), unknown]));
}

#[test]
fn repeated_surfaces_are_listed_once() {
    let on = |surface| event(surface, PointerEventKind::Enter);
    assert_eq!(interacted_surfaces::<f32>(&[]), vec![]);
    assert_eq!(
        interacted_surfaces(&[on(1), on(1), on(2), on(2), on(2), on(1)]),
        vec![1, 2, 1]
    );
}

#[test]
fn a_destroyed_output_leaves_only_its_status() {
    let mut bar = two_bars();
    repaint(bar.change_status(FIRST, StatusChange::Used(7)));
    assert_eq!(bar.output_destroyed(FIRST), vec![10]);
    assert!(bar.begin_frame(100).is_none());
    assert!(bar.configure(10, (40, 5)).is_none());
    assert_eq!(bar.status(FIRST).unwrap().used, 7);
    let outcome = bar.output_status(FIRST, OutputStatusEvent::Layout);
    assert_eq!(repaint(outcome), vec![]);
    assert_eq!(bar.output_destroyed(FIRST), vec![]);
    assert!(bar.begin_frame(200).is_some());
}

#[test]
fn scales_are_followed_only_where_asked() {
    let mut bar: Taskbar<f32> = Taskbar::new(100);
    bar.new_output(FIRST, 10, 100);
    assert_eq!(bar.scale_of(10), Some(Scale::Factor(1)));
    bar.scale_factor_changed(10, 2, false);
    assert_eq!(bar.scale_of(10), Some(Scale::Factor(2)));
    bar.preferred_scale(FIRST, 180);
    assert_eq!(bar.scale_of(10), Some(Scale::Fraction(180)));
    bar.scale_factor_changed(10, 3, false);
    assert_eq!(bar.scale_of(10), Some(Scale::Fraction(180)));
    bar.scale_factor_changed(10, 3, true);
    assert_eq!(bar.begin_frame(100).unwrap().scale, Scale::Factor(3));
    bar.scale_factor_changed(99, 4, true);
    assert_eq!(bar.scale_of(99), None);

    let mut bar = two_bars();
    assert_eq!(bar.scale_of(10), None);
    bar.scale_factor_changed(10, 2, true);
    bar.preferred_scale(FIRST, 180);
    assert_eq!(bar.begin_frame(100).unwrap().scale, Scale::Factor(1));
}

#[test]
fn a_walk_for_a_scale_ends_at_another_output() {
    let mut bar: Taskbar<f32> = Taskbar::new(100);
    bar.new_output(FIRST, 10, 100);
    bar.new_output(SECOND, 20, 200);
    bar.preferred_scale_in(&[200, 100], FIRST, 180);
    assert_eq!(bar.scale_of(10), Some(Scale::Factor(1)));
    bar.preferred_scale_in(&[100, 200], FIRST, 180);
    assert_eq!(bar.scale_of(10), Some(Scale::Fraction(180)));
}

#[test]
fn only_pointers_are_followed() {
    let bar = two_bars();
    assert!(bar.new_capability(Capability::Pointer));
    assert!(!bar.new_capability(Capability::Keyboard));
    assert!(!bar.new_capability(Capability::Touch));
}

#[test]
fn several_bars_of_an_output_are_drawn_together() {
    let mut bar = two_bars();
    bar.new_output(FIRST, 11, 101);
    let outcome = bar.output_status(FIRST, OutputStatusEvent::Layout);
    assert_eq!(repaint(outcome), vec![100, 101]);
    let outcome = bar.output_status(SECOND, OutputStatusEvent::Layout);
    assert_eq!(repaint(outcome), vec![200]);
    let mut destroyed = bar.output_destroyed(FIRST);
    destroyed.sort();
    assert_eq!(destroyed, vec![10, 11]);
}
