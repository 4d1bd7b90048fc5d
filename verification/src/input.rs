//! Pointer input: what the compositor reports and what a bar's program sees.

use vstd::prelude::*;

verus! {

/// What a seat can do.
#[derive(Clone, Copy, Debug, PartialEq, Eq, Structural)]
pub enum Capability {
    Keyboard,
    Pointer,
    Touch,
}

/// One entry of a compositor's pointer frame.
///
/// `S` is the scalar type of coordinates. Nothing here computes with it.
pub struct PointerEvent<S> {
    /// The surface under the pointer.
    pub surface: u64,
    pub x: S,
    pub y: S,
    pub kind: PointerEventKind<S>,
}

/// What happened. Times are the compositor's, in milliseconds.
pub enum PointerEventKind<S> {
    Enter,
    Leave,
    Motion { time: u32 },
    Press { time: u32, button: u32 },
    Release { time: u32, button: u32 },
    /// A scroll, as steps to the right and downwards.
    Axis { time: u32, horizontal: S, vertical: S },
}

/// Input as a program drawing on a surface receives it.
///
/// Times are in milliseconds on the compositor's clock.
pub enum InputEvent<S> {
    PointerEnter { x: S, y: S },
    PointerMove { time: u64, x: S, y: S },
    PointerButton { time: u64, button: u32, state: bool },
    PointerAxis { time: u64, horizontal: S, vertical: S },
    PointerLeave,
    KeyboardKey,
}

impl<S: Copy> Clone for InputEvent<S> {
    fn clone(&self) -> (event: Self)
        ensures
            event == *self,
    {
        *self
    }
}

impl<S: Copy> Copy for InputEvent<S> {

}

impl<S> PointerEvent<S> {
    /// The input event that a pointer event stands for.
    pub open spec fn input(self) -> InputEvent<S> {
        match self.kind {
            PointerEventKind::Enter => InputEvent::PointerEnter { x: self.x, y: self.y },
            PointerEventKind::Leave => InputEvent::PointerLeave,
            PointerEventKind::Motion { time } => InputEvent::PointerMove {
                time: time as u64,
                x: self.x,
                y: self.y,
            },
            PointerEventKind::Press { time, button } => InputEvent::PointerButton {
                time: time as u64,
                button,
                state: true,
            },
            PointerEventKind::Release { time, button } => InputEvent::PointerButton {
                time: time as u64,
                button,
                state: false,
            },
            PointerEventKind::Axis { time, horizontal, vertical } => InputEvent::PointerAxis {
                time: time as u64,
                horizontal,
                vertical,
            },
        }
    }
}

impl<S: Copy> PointerEvent<S> {
    /// Translates the event for the program on its surface.
    pub fn to_input(&self) -> (event: InputEvent<S>)
        ensures
            event matches InputEvent::PointerEnter { x, y } ==> x == self.x && y == self.y,
            event matches InputEvent::PointerMove { time: _, x, y } ==> x == self.x && y
                == self.y,
            self.kind is Enter <==> event is PointerEnter,
            self.kind is Leave <==> event is PointerLeave,
            self.kind matches PointerEventKind::Motion { time } ==> (event matches
                InputEvent::PointerMove { time: told, x: _, y: _ } && told == time),
            self.kind matches PointerEventKind::Press { time, button } ==> (event matches
                InputEvent::PointerButton { time: told, button: b, state } && told == time && b
                == button && state),
            self.kind matches PointerEventKind::Release { time, button } ==> (event matches
                InputEvent::PointerButton { time: told, button: b, state } && told == time && b
                == button && !state),
            self.kind matches PointerEventKind::Axis { time, horizontal, vertical } ==> (event matches
                InputEvent::PointerAxis { time: told, horizontal: across, vertical: down } && told
                == time && across == horizontal && down == vertical),
            event == self.input(),
    {
        match self.kind {
            PointerEventKind::Enter => InputEvent::PointerEnter { x: self.x, y: self.y },
            PointerEventKind::Leave => InputEvent::PointerLeave,
            PointerEventKind::Motion { time } => InputEvent::PointerMove {
                time: time as u64,
                x: self.x,
                y: self.y,
            },
            PointerEventKind::Press { time, button } => InputEvent::PointerButton {
                time: time as u64,
                button,
                state: true,
            },
            PointerEventKind::Release { time, button } => InputEvent::PointerButton {
                time: time as u64,
                button,
                state: false,
            },
            PointerEventKind::Axis { time, horizontal, vertical } => InputEvent::PointerAxis {
                time: time as u64,
                horizontal,
                vertical,
            },
        }
    }
}

/// Every kind of event stays recognizable, and a key is never made up.
pub proof fn events_keep_their_kind<S>(event: PointerEvent<S>)
    ensures
        event.input() is PointerEnter <==> event.kind is Enter,
        event.input() is PointerLeave <==> event.kind is Leave,
        event.input() is PointerMove <==> event.kind is Motion,
        event.input() is PointerButton <==> event.kind is Press || event.kind is Release,
        event.input() is PointerAxis <==> event.kind is Axis,
        event.input() !is KeyboardKey,
{
}

/// Input that has a position is told at the place where the pointer is.
pub proof fn input_keeps_its_place<S>(event: PointerEvent<S>, x: S, y: S, time: u64)
    ensures
        event.input() == (InputEvent::PointerEnter { x, y }) ==> x == event.x && y == event.y,
        event.input() == (InputEvent::PointerMove { time, x, y }) ==> x == event.x && y == event.y,
{
}

/// A press and a release keep their button and their time, and differ in the
/// state that they tell: two events are told with the same button exactly if
/// they are about the same button.
pub proof fn input_keeps_its_button<S>(
    press: PointerEvent<S>,
    release: PointerEvent<S>,
    time: u32,
    button: u32,
    later: u32,
    other: u32,
)
    requires
        press.kind == (PointerEventKind::<S>::Press { time, button }),
        release.kind == (PointerEventKind::<S>::Release { time: later, button: other }),
    ensures
        match (press.input(), release.input()) {
            (
                InputEvent::PointerButton { time: t, button: b, state: down },
                InputEvent::PointerButton { time: u, button: c, state: up },
            ) => {
                &&& b == button
                &&& c == other
                &&& t == time
                &&& u == later
                &&& down
                &&& !up
            },
            _ => false,
        },
{
}

/// Motions and scrolls keep their time, and scrolls their two distances.
pub proof fn input_keeps_times_and_distances<S>(
    event: PointerEvent<S>,
    time: u32,
    horizontal: S,
    vertical: S,
)
    ensures
        event.kind == (PointerEventKind::<S>::Motion { time }) ==> (event.input() matches
            InputEvent::PointerMove { time: told, x: _, y: _ } && told == time),
        event.kind == (PointerEventKind::Axis { time, horizontal, vertical }) ==> (event.input() matches
            InputEvent::PointerAxis { time: told, horizontal: across, vertical: down } && told
            == time && across == horizontal && down == vertical),
{
}

} // verus!
