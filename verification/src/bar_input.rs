//! Pointer input for a bar whose widgets are drawn by a toolkit.

use crate::input::{PointerEvent, PointerEventKind};
use vstd::prelude::*;

verus! {

/// Button codes of the kernel's input events.
pub const BTN_LEFT: u32 = 0x110;

pub const BTN_RIGHT: u32 = 0x111;

pub const BTN_MIDDLE: u32 = 0x112;

pub const BTN_SIDE: u32 = 0x113;

pub const BTN_EXTRA: u32 = 0x114;

/// A pointer button by its use.
#[derive(Clone, Copy, Debug, PartialEq, Eq, Structural)]
pub enum PointerButton {
    Primary,
    Secondary,
    Middle,
    Extra1,
    Extra2,
}

/// Input as the toolkit takes it.
pub enum BarEvent<S> {
    PointerGone,
    PointerMoved { x: S, y: S },
    PointerButton { x: S, y: S, button: PointerButton, pressed: bool },
    /// A scroll, in points.
    MouseWheel { horizontal: S, vertical: S },
}

/// The button that a code stands for, if it is one of those in use.
pub open spec fn button_for(code: u32) -> Option<PointerButton> {
    if code == BTN_LEFT {
        Some(PointerButton::Primary)
    } else if code == BTN_RIGHT {
        Some(PointerButton::Secondary)
    } else if code == BTN_MIDDLE {
        Some(PointerButton::Middle)
    } else if code == BTN_SIDE {
        Some(PointerButton::Extra1)
    } else if code == BTN_EXTRA {
        Some(PointerButton::Extra2)
    } else {
        None
    }
}

/// The button that a code stands for, if it is one of those in use.
pub fn button_from_code(code: u32) -> (button: Option<PointerButton>)
    ensures
        button == button_for(code),
{
    match code {
        BTN_LEFT => Some(PointerButton::Primary),
        BTN_RIGHT => Some(PointerButton::Secondary),
        BTN_MIDDLE => Some(PointerButton::Middle),
        BTN_SIDE => Some(PointerButton::Extra1),
        BTN_EXTRA => Some(PointerButton::Extra2),
        _ => None,
    }
}

impl<S> PointerEvent<S> {
    /// The event is about no button, or about one of those in use.
    pub open spec fn has_known_button(self) -> bool {
        match self.kind {
            PointerEventKind::Press { time: _, button } => button_for(button) is Some,
            PointerEventKind::Release { time: _, button } => button_for(button) is Some,
            _ => true,
        }
    }

    /// What the toolkit is told of the event.
    pub open spec fn bar_event(self) -> BarEvent<S> {
        match self.kind {
            PointerEventKind::Leave => BarEvent::PointerGone,
            PointerEventKind::Enter => BarEvent::PointerMoved { x: self.x, y: self.y },
            PointerEventKind::Motion { time: _ } => BarEvent::PointerMoved { x: self.x, y: self.y },
            PointerEventKind::Press { time: _, button } => BarEvent::PointerButton {
                x: self.x,
                y: self.y,
                button: button_for(button)->0,
                pressed: true,
            },
            PointerEventKind::Release { time: _, button } => BarEvent::PointerButton {
                x: self.x,
                y: self.y,
                button: button_for(button)->0,
                pressed: false,
            },
            PointerEventKind::Axis { time: _, horizontal, vertical } => BarEvent::MouseWheel {
                horizontal,
                vertical,
            },
        }
    }
}

impl<S: Copy> PointerEvent<S> {
    /// Translates the event for the toolkit, or tells that its button has no
    /// use.
    pub fn to_bar_event(&self) -> (event: Option<BarEvent<S>>)
        ensures
            event == if self.has_known_button() {
                Some(self.bar_event())
            } else {
                None
            },
            event matches Some(BarEvent::PointerMoved { x, y }) ==> x == self.x && y == self.y,
            event matches Some(BarEvent::PointerButton { x, y, button: _, pressed: _ }) ==> x
                == self.x && y == self.y,
            self.kind is Leave <==> event == Some(BarEvent::<S>::PointerGone),
            self.kind is Enter || self.kind is Motion <==> event matches Some(
                BarEvent::PointerMoved { x: _, y: _ },
            ),
            self.kind matches PointerEventKind::Press { time: _, button } ==> match event {
                Some(BarEvent::PointerButton { x: _, y: _, button: told, pressed }) => Some(told)
                    == button_for(button) && pressed,
                Some(_) => false,
                None => button_for(button) is None,
            },
            self.kind matches PointerEventKind::Release { time: _, button } ==> match event {
                Some(BarEvent::PointerButton { x: _, y: _, button: told, pressed }) => Some(told)
                    == button_for(button) && !pressed,
                Some(_) => false,
                None => button_for(button) is None,
            },
            self.kind matches PointerEventKind::Axis { time: _, horizontal, vertical } ==> event
                == Some(BarEvent::MouseWheel { horizontal, vertical }),
    {
        match self.kind {
            PointerEventKind::Leave => Some(BarEvent::PointerGone),
            PointerEventKind::Enter => Some(BarEvent::PointerMoved { x: self.x, y: self.y }),
            PointerEventKind::Motion { time: _ } => Some(
                BarEvent::PointerMoved { x: self.x, y: self.y },
            ),
            PointerEventKind::Press { time: _, button } => match button_from_code(button) {
                Some(button) => Some(
                    BarEvent::PointerButton { x: self.x, y: self.y, button, pressed: true },
                ),
                None => None,
            },
            PointerEventKind::Release { time: _, button } => match button_from_code(button) {
                Some(button) => Some(
                    BarEvent::PointerButton { x: self.x, y: self.y, button, pressed: false },
                ),
                None => None,
            },
            PointerEventKind::Axis { time: _, horizontal, vertical } => Some(
                BarEvent::MouseWheel { horizontal, vertical },
            ),
        }
    }
}

/// All events are about buttons in use, or about no button.
pub open spec fn known_buttons<S>(events: Seq<PointerEvent<S>>) -> bool {
    forall|i: int| 0 <= i < events.len() ==> (#[trigger] events[i]).has_known_button()
}

/// Whether all events are about buttons in use, or about no button.
pub fn has_known_buttons<S: Copy>(events: &[PointerEvent<S>]) -> (known: bool)
    ensures
        known == known_buttons(events@),
{
    for i in 0..events.len()
        invariant
            forall|j: int| 0 <= j < i ==> (#[trigger] events@[j]).has_known_button(),
    {
        if events[i].to_bar_event().is_none() {
            return false;
        }
    }
    true
}

/// A row without those elements that equal the one before them.
pub open spec fn dedup(row: Seq<u64>) -> Seq<u64>
    decreases row.len(),
{
    if row.len() < 2 {
        row
    } else if row.last() == row[row.len() - 2] {
        dedup(row.drop_last())
    } else {
        dedup(row.drop_last()).push(row.last())
    }
}

/// What is left ends as the row does.
proof fn lemma_dedup_last(row: Seq<u64>)
    requires
        row.len() > 0,
    ensures
        dedup(row).len() > 0,
        dedup(row).last() == row.last(),
    decreases row.len(),
{
    if row.len() >= 2 {
        lemma_dedup_last(row.drop_last());
    }
}

/// The surfaces of a row of events.
pub open spec fn surfaces_of<S>(events: Seq<PointerEvent<S>>) -> Seq<u64> {
    events.map_values(|event: PointerEvent<S>| event.surface)
}

/// The surfaces that events were on, in order, without repeating one directly
/// after itself.
pub fn interacted_surfaces<S: Copy>(events: &[PointerEvent<S>]) -> (surfaces: Vec<u64>)
    ensures
        surfaces@ == dedup(surfaces_of(events@)),
{
    let mut surfaces: Vec<u64> = Vec::new();
    let ghost row = surfaces_of(events@);
    assert(row.take(0) =~= surfaces@);
    for i in 0..events.len()
        invariant
            row == surfaces_of(events@),
            surfaces@ == dedup(row.take(i as int)),
    {
        let surface: u64 = events[i].surface;
        proof {
            assert(row.take(i + 1).drop_last() =~= row.take(i as int));
            assert(row.take(i + 1).last() == surface);
            if i > 0 {
                lemma_dedup_last(row.take(i as int));
                assert(row.take(i as int).last() == row[i - 1]);
            }
        }
        if surfaces.len() == 0 || surfaces[surfaces.len() - 1] != surface {
            surfaces.push(surface);
        }
        proof {
            if i == 0 {
                assert(row.take(1) =~= surfaces@);
            }
        }
    }
    assert(row.take(events.len() as int) =~= row);
    surfaces
}

/// Nothing that was there is missing, nothing is new, and no two neighbors are
/// the same.
pub proof fn dedup_drops_only_repeats(row: Seq<u64>)
    ensures
        forall|x: u64| #[trigger] dedup(row).contains(x) <==> row.contains(x),
        forall|i: int| 0 < i < dedup(row).len() ==> #[trigger] dedup(row)[i] != dedup(row)[i - 1],
        dedup(row).len() <= row.len(),
    decreases row.len(),
{
    if row.len() >= 2 {
        let rest = row.drop_last();
        dedup_drops_only_repeats(rest);
        lemma_dedup_last(rest);
        assert forall|x: u64| #[trigger] dedup(row).contains(x) <==> row.contains(x) by {
            if rest.contains(x) {
                let i = choose|i: int| 0 <= i < rest.len() && rest[i] == x;
                assert(row[i] == x);
                assert(dedup(rest).contains(x));
                let j = choose|j: int| 0 <= j < dedup(rest).len() && dedup(rest)[j] == x;
                assert(dedup(row)[j] == x);
            }
            if row.contains(x) && !rest.contains(x) {
                let i = choose|i: int| 0 <= i < row.len() && row[i] == x;
                assert(i < rest.len() ==> rest[i] == x);
                assert(x == row.last());
                assert(row.last() == row[row.len() - 2] ==> rest[rest.len() - 1] == x);
                assert(dedup(row)[dedup(row).len() - 1] == x);
            }
            if dedup(row).contains(x) {
                let j = choose|j: int| 0 <= j < dedup(row).len() && dedup(row)[j] == x;
                if j < dedup(rest).len() {
                    assert(dedup(rest)[j] == x);
                    assert(dedup(rest).contains(x));
                    assert(rest.contains(x));
                    let i = choose|i: int| 0 <= i < rest.len() && rest[i] == x;
                    assert(row[i] == x);
                } else {
                    assert(row[row.len() - 1] == x);
                }
            }
        }
    }
}

/// The codes of the five buttons in use. No other code stands for a button.
pub proof fn buttons_have_their_codes(code: u32)
    ensures
        button_for(code) == Some(PointerButton::Primary) <==> code == 0x110,
        button_for(code) == Some(PointerButton::Secondary) <==> code == 0x111,
        button_for(code) == Some(PointerButton::Middle) <==> code == 0x112,
        button_for(code) == Some(PointerButton::Extra1) <==> code == 0x113,
        button_for(code) == Some(PointerButton::Extra2) <==> code == 0x114,
        button_for(code) is None <==> code < 0x110 || code > 0x114,
{
}

/// Whatever is told at a place is told at the place where the pointer is: an
/// event of any kind at the same coordinates as a motion is told at the same
/// place, if it is told at a place at all.
pub proof fn bar_events_keep_their_place<S>(event: PointerEvent<S>, motion: PointerEvent<S>)
    requires
        motion.kind is Motion,
        motion.x == event.x,
        motion.y == event.y,
    ensures
        motion.bar_event() == (BarEvent::PointerMoved { x: event.x, y: event.y }),
        event.bar_event() is PointerMoved ==> event.bar_event() == motion.bar_event(),
        event.bar_event() matches BarEvent::PointerButton { x, y, button: _, pressed: _ } ==> x
            == event.x && y == event.y,
        event.bar_event() is PointerMoved <==> event.kind is Enter || event.kind is Motion,
        event.bar_event() is PointerButton <==> event.kind is Press || event.kind is Release,
{
}

/// A press and the release of the same button are told alike, but for whether
/// the button is down. Presses of different buttons are told differently.
pub proof fn bar_events_keep_their_button<S>(
    press: PointerEvent<S>,
    release: PointerEvent<S>,
    time: u32,
    button: u32,
    later: u32,
    other: u32,
)
    requires
        press.kind == (PointerEventKind::<S>::Press { time, button }),
        release.kind == (PointerEventKind::<S>::Release { time: later, button: other }),
        press.has_known_button(),
        release.has_known_button(),
    ensures
        0x110 <= button <= 0x114,
        0x110 <= other <= 0x114,
        match (press.bar_event(), release.bar_event()) {
            (
                BarEvent::PointerButton { x: _, y: _, button: b, pressed: down },
                BarEvent::PointerButton { x: _, y: _, button: c, pressed: up },
            ) => {
                &&& Some(b) == button_for(button)
                &&& Some(c) == button_for(other)
                &&& b == c <==> button == other
                &&& down
                &&& !up
            },
            _ => false,
        },
{
}

/// Leaving is told as the pointer being gone, and nothing else is. Scrolls keep
/// their two distances.
pub proof fn leaving_and_scrolling_are_told<S>(
    event: PointerEvent<S>,
    time: u32,
    horizontal: S,
    vertical: S,
)
    ensures
        event.bar_event() is PointerGone <==> event.kind is Leave,
        event.bar_event() is MouseWheel <==> event.kind is Axis,
        event.kind == (PointerEventKind::Axis { time, horizontal, vertical }) ==> event.bar_event()
            == (BarEvent::MouseWheel { horizontal, vertical }),
{
}

/// Only a press or a release can be about a button that has no use, and it is
/// one exactly if its code is outside of the five in use.
pub proof fn only_buttons_can_be_unknown<S>(event: PointerEvent<S>, time: u32, button: u32)
    ensures
        event.kind == (PointerEventKind::<S>::Press { time, button }) ==> (event.has_known_button()
            <==> 0x110 <= button <= 0x114),
        event.kind == (PointerEventKind::<S>::Release { time, button }) ==> (
        event.has_known_button() <==> 0x110 <= button <= 0x114),
        event.kind !is Press && event.kind !is Release ==> event.has_known_button(),
{
}

/// A row of events is known exactly if each of its events is.
pub proof fn known_rows_grow<S>(events: Seq<PointerEvent<S>>, event: PointerEvent<S>)
    ensures
        known_buttons(Seq::<PointerEvent<S>>::empty()),
        known_buttons(events.push(event)) <==> known_buttons(events) && event.has_known_button(),
{
    let longer = events.push(event);
    if known_buttons(longer) {
        assert(longer[events.len() as int].has_known_button());
        assert forall|i: int| 0 <= i < events.len() implies (
        #[trigger] events[i]).has_known_button() by {
            assert(longer[i].has_known_button());
        }
    }
}

/// An element is kept exactly if it differs from the one before it, and what is
/// kept stays in order.
pub proof fn dedup_keeps_the_order(row: Seq<u64>, next: u64)
    ensures
        dedup(Seq::<u64>::empty()) == Seq::<u64>::empty(),
        dedup(row.push(next)) == if row.len() > 0 && row.last() == next {
            dedup(row)
        } else {
            dedup(row).push(next)
        },
{
    assert(row.push(next).drop_last() =~= row);
    if row.len() == 0 {
        assert(dedup(row.push(next)) =~= dedup(row).push(next));
    }
}

/// The surfaces of a row are those of its events, one for each, in order.
pub proof fn surfaces_are_those_of_the_events<S>(events: Seq<PointerEvent<S>>, i: int)
    requires
        0 <= i < events.len(),
    ensures
        surfaces_of(events).len() == events.len(),
        surfaces_of(events)[i] == events[i].surface,
{
}

} // verus!
