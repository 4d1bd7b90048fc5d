//! The bar on a layer shell: which surfaces and displays there are, what input
//! waits for each surface, and what a draw is given.

use crate::input::{Capability, InputEvent, PointerEvent};
use crate::keys::elements;
use crate::layer::BAR_WIDTH;
use crate::render::{ContextState, RenderContext, ViewportInfo};
use crate::scale::{Scale, SCALE_PARTS};
use std::collections::{HashMap, HashSet};
use vstd::prelude::*;

verus! {

broadcast use vstd::std_specs::hash::group_hash_axioms;

/// A surface that a program draws on.
pub struct Surface<S> {
    output: u64,
    size: (u32, u32),
    input_events: Vec<InputEvent<S>>,
}

/// What is known of an output that shows a bar.
pub struct Display {
    last_time: Option<u64>,
    scale: Scale,
    surfaces: HashSet<u64>,
}

/// All surfaces and displays, and the seats whose pointer is followed.
pub struct App<S> {
    surfaces: HashMap<u64, Surface<S>>,
    displays: HashMap<u64, Display>,
    pointers: HashSet<u64>,
}

/// Why an event about a surface had no effect, or a draw does not take place.
#[derive(Clone, Copy, Debug, PartialEq, Eq, Structural)]
pub enum Refusal {
    /// The surface is not known.
    UnregisteredSurface,
    /// The surface's output has no display.
    UnregisteredOutput,
    /// The display has nothing to render to for the surface.
    NoRenderTarget,
    /// The surface has no area yet.
    Unconfigured,
}

/// What one draw is given.
pub struct DrawStart<S> {
    /// The output that the surface is on.
    pub output: u64,
    /// The input since the last draw, oldest first.
    pub events: Vec<InputEvent<S>>,
    /// The surface's size in pixels.
    pub size: (u32, u32),
    pub scale: Scale,
    /// The time of the frame, in milliseconds.
    pub current_time: u64,
}

/// What one draw is given, as a value.
#[verifier::ext_equal]
pub struct DrawState<S> {
    pub output: u64,
    pub events: Seq<InputEvent<S>>,
    pub size: (u32, u32),
    pub scale: Scale,
    pub current_time: u64,
}

impl<S> DrawState<S> {
    /// What a program is given to draw with on the area `info`.
    pub open spec fn context(self, info: ViewportInfo<S>) -> ContextState<S> {
        ContextState {
            events: self.events,
            viewport_info: info,
            current_time: self.current_time,
            requested_redraw: None,
        }
    }
}

impl<S> View for DrawStart<S> {
    type V = DrawState<S>;

    open spec fn view(&self) -> DrawState<S> {
        DrawState {
            output: self.output,
            events: self.events@,
            size: self.size,
            scale: self.scale,
            current_time: self.current_time,
        }
    }
}

/// What follows when a program has drawn.
pub struct DrawFinish {
    /// The delay in milliseconds after which another frame is asked for.
    pub redraw_after: Option<u64>,
    /// Whether what was drawn can be shown.
    pub target: Result<(), Refusal>,
}

/// A surface, as a value.
#[verifier::ext_equal]
pub struct SurfaceState<S> {
    pub output: u64,
    pub size: (u32, u32),
    pub input_events: Seq<InputEvent<S>>,
}

/// A display, as a value.
#[verifier::ext_equal]
pub struct DisplayState {
    pub last_time: Option<u64>,
    pub scale: Scale,
    pub surfaces: Set<u64>,
}

/// The state of an `App`, as a value.
#[verifier::ext_equal]
pub struct AppState<S> {
    pub surfaces: Map<u64, SurfaceState<S>>,
    pub displays: Map<u64, DisplayState>,
    pub pointers: Set<u64>,
}

impl<S> View for Surface<S> {
    type V = SurfaceState<S>;

    closed spec fn view(&self) -> SurfaceState<S> {
        SurfaceState { output: self.output, size: self.size, input_events: self.input_events@ }
    }
}

impl View for Display {
    type V = DisplayState;

    closed spec fn view(&self) -> DisplayState {
        DisplayState { last_time: self.last_time, scale: self.scale, surfaces: self.surfaces@ }
    }
}

spec fn surface_states<S>(surfaces: Map<u64, Surface<S>>) -> Map<u64, SurfaceState<S>> {
    surfaces.map_values(|surface: Surface<S>| surface@)
}

spec fn display_states(displays: Map<u64, Display>) -> Map<u64, DisplayState> {
    displays.map_values(|display: Display| display@)
}

impl<S> View for App<S> {
    type V = AppState<S>;

    closed spec fn view(&self) -> AppState<S> {
        AppState {
            surfaces: surface_states(self.surfaces@),
            displays: display_states(self.displays@),
            pointers: self.pointers@,
        }
    }
}

impl<S> AppState<S> {
    pub open spec fn empty() -> Self {
        AppState { surfaces: Map::empty(), displays: Map::empty(), pointers: Set::empty() }
    }

    /// The output that a surface is on, if both are known.
    pub open spec fn output_of(self, surface: u64) -> Result<u64, Refusal> {
        if !self.surfaces.contains_key(surface) {
            Err(Refusal::UnregisteredSurface)
        } else if !self.displays.contains_key(self.surfaces[surface].output) {
            Err(Refusal::UnregisteredOutput)
        } else {
            Ok(self.surfaces[surface].output)
        }
    }

    /// The output that a surface is on, if it can be rendered to.
    pub open spec fn target_of(self, surface: u64) -> Result<u64, Refusal> {
        match self.output_of(surface) {
            Ok(output) => if self.displays[output].surfaces.contains(surface) {
                Ok(output)
            } else {
                Err(Refusal::NoRenderTarget)
            },
            Err(refusal) => Err(refusal),
        }
    }

    pub open spec fn with_surface(self, surface: u64, state: SurfaceState<S>) -> Self {
        AppState { surfaces: self.surfaces.insert(surface, state), ..self }
    }

    pub open spec fn with_display(self, output: u64, state: DisplayState) -> Self {
        AppState { displays: self.displays.insert(output, state), ..self }
    }

    /// An output appeared, and `surface` was made for its bar.
    pub open spec fn new_output(self, output: u64, surface: u64) -> Self {
        self.with_surface(
            surface,
            SurfaceState { output, size: (BAR_WIDTH, 0), input_events: Seq::empty() },
        ).with_display(
            output,
            DisplayState {
                last_time: None,
                scale: Scale::Factor(1),
                surfaces: Set::empty().insert(surface),
            },
        )
    }

    /// An output went away, with its display and all surfaces of the display.
    pub open spec fn output_destroyed(self, output: u64) -> Self {
        if self.displays.contains_key(output) {
            AppState {
                surfaces: self.surfaces.remove_keys(self.displays[output].surfaces),
                displays: self.displays.remove(output),
                ..self
            }
        } else {
            self
        }
    }

    /// The compositor closed a surface: the whole display goes.
    pub open spec fn closed(self, surface: u64) -> Self {
        if self.surfaces.contains_key(surface) {
            self.output_destroyed(self.surfaces[surface].output)
        } else {
            self
        }
    }

    /// A surface that can be rendered to was given a size.
    pub open spec fn configure(self, surface: u64, size: (u32, u32)) -> Self {
        if self.target_of(surface) is Ok {
            self.with_surface(surface, SurfaceState { size, ..self.surfaces[surface] })
        } else {
            self
        }
    }

    /// The display of a surface was given a scale.
    pub open spec fn rescaled(self, surface: u64, scale: Scale) -> Self {
        match self.output_of(surface) {
            Ok(output) => self.with_display(
                output,
                DisplayState { scale, ..self.displays[output] },
            ),
            Err(_) => self,
        }
    }

    /// A frame is due on a surface.
    pub open spec fn frame(self, surface: u64, time: u32) -> Self {
        match self.output_of(surface) {
            Ok(output) => self.with_display(
                output,
                DisplayState { last_time: Some(time as u64), ..self.displays[output] },
            ),
            Err(_) => self,
        }
    }

    /// A draw begins: the waiting input is handed over, also where the surface
    /// then turns out to have no area.
    pub open spec fn begin_draw(self, surface: u64) -> Self {
        if self.output_of(surface) is Ok {
            self.with_surface(
                surface,
                SurfaceState { input_events: Seq::empty(), ..self.surfaces[surface] },
            )
        } else {
            self
        }
    }

    /// What a draw of a surface is given, or why it does not take place.
    pub open spec fn draw(self, surface: u64) -> Result<DrawState<S>, Refusal> {
        match self.output_of(surface) {
            Ok(output) => {
                let info = self.surfaces[surface];
                if info.size.0 == 0 || info.size.1 == 0 {
                    Err(Refusal::Unconfigured)
                } else {
                    Ok(
                        DrawState {
                            output,
                            events: info.input_events,
                            size: info.size,
                            scale: self.displays[output].scale,
                            current_time: match self.displays[output].last_time {
                                Some(time) => time,
                                None => 0,
                            },
                        },
                    )
                }
            },
            Err(refusal) => Err(refusal),
        }
    }

    /// Whether what a program drew for a surface can be shown on an output.
    pub open spec fn shown_on(self, output: u64, surface: u64) -> Result<(), Refusal> {
        if !self.displays.contains_key(output) {
            Err(Refusal::UnregisteredOutput)
        } else if !self.displays[output].surfaces.contains(surface) {
            Err(Refusal::NoRenderTarget)
        } else {
            Ok(())
        }
    }

    /// Pointer input arrived: every known surface gets its own, in order.
    pub open spec fn pointer_frame(self, events: Seq<PointerEvent<S>>) -> Self {
        AppState {
            surfaces: Map::new(
                |surface: u64| self.surfaces.contains_key(surface),
                |surface: u64|
                    SurfaceState {
                        input_events: self.surfaces[surface].input_events + input_for(
                            events,
                            surface,
                        ),
                        ..self.surfaces[surface]
                    },
            ),
            ..self
        }
    }

    /// The surfaces for which pointer input asks a frame, one for each event
    /// on a known surface.
    pub open spec fn frame_requests(self, events: Seq<PointerEvent<S>>) -> Seq<u64> {
        events.filter(|event: PointerEvent<S>| self.surfaces.contains_key(event.surface)).map_values(
            |event: PointerEvent<S>| event.surface,
        )
    }

    /// Surfaces and displays agree: every surface belongs to the display of
    /// its output, and displays have no other surfaces.
    pub open spec fn consistent(self) -> bool {
        &&& forall|surface: u64| #[trigger]
            self.surfaces.contains_key(surface) ==> {
                &&& self.displays.contains_key(self.surfaces[surface].output)
                &&& self.displays[self.surfaces[surface].output].surfaces.contains(surface)
            }
        &&& forall|output: u64, surface: u64|
            self.displays.contains_key(output)
                && #[trigger] self.displays[output].surfaces.contains(surface) ==> {
                &&& self.surfaces.contains_key(surface)
                &&& self.surfaces[surface].output == output
            }
    }
}

/// The input for one surface out of a pointer frame, in order.
pub open spec fn input_for<S>(events: Seq<PointerEvent<S>>, surface: u64) -> Seq<InputEvent<S>> {
    events.filter(|event: PointerEvent<S>| event.surface == surface).map_values(
        |event: PointerEvent<S>| event.input(),
    )
}

proof fn lemma_surfaces_insert<S>(surfaces: Map<u64, Surface<S>>, key: u64, surface: Surface<S>)
    ensures
        surface_states(surfaces.insert(key, surface)) == surface_states(surfaces).insert(
            key,
            surface@,
        ),
{
    assert(surface_states(surfaces.insert(key, surface)) =~= surface_states(surfaces).insert(
        key,
        surface@,
    ));
}

proof fn lemma_surfaces_remove<S>(surfaces: Map<u64, Surface<S>>, key: u64)
    ensures
        surface_states(surfaces.remove(key)) == surface_states(surfaces).remove(key),
{
    assert(surface_states(surfaces.remove(key)) =~= surface_states(surfaces).remove(key));
}

proof fn lemma_displays_insert(displays: Map<u64, Display>, key: u64, display: Display)
    ensures
        display_states(displays.insert(key, display)) == display_states(displays).insert(
            key,
            display@,
        ),
{
    assert(display_states(displays.insert(key, display)) =~= display_states(displays).insert(
        key,
        display@,
    ));
}

proof fn lemma_displays_remove(displays: Map<u64, Display>, key: u64)
    ensures
        display_states(displays.remove(key)) == display_states(displays).remove(key),
{
    assert(display_states(displays.remove(key)) =~= display_states(displays).remove(key));
}

proof fn lemma_no_events<S>(state: AppState<S>, events: Seq<PointerEvent<S>>)
    ensures
        state.pointer_frame(events.take(0)) == state,
        state.frame_requests(events.take(0)) == Seq::<u64>::empty(),
{
    reveal(Seq::filter);
    assert forall|surface: u64| state.surfaces.contains_key(surface) implies #[trigger]
        state.pointer_frame(events.take(0)).surfaces[surface] == state.surfaces[surface] by {
        assert(input_for(events.take(0), surface) =~= Seq::empty());
        assert(state.pointer_frame(events.take(0)).surfaces[surface]
            =~= state.surfaces[surface]);
    }
    assert(state.pointer_frame(events.take(0)).surfaces =~= state.surfaces);
    assert(state.frame_requests(events.take(0)) =~= Seq::<u64>::empty());
}

/// One more event adds its input to its own surface, and a request if that
/// surface is known.
proof fn lemma_next_event<S>(state: AppState<S>, events: Seq<PointerEvent<S>>, i: int)
    requires
        0 <= i < events.len(),
    ensures
        ({
            let event = events[i];
            let done = state.pointer_frame(events.take(i));
            let next = state.pointer_frame(events.take(i + 1));
            &&& forall|surface: u64|
                surface != event.surface && state.surfaces.contains_key(surface)
                    ==> #[trigger] next.surfaces[surface] == done.surfaces[surface]
            &&& state.surfaces.contains_key(event.surface) ==> next.surfaces[event.surface]
                == (SurfaceState {
                input_events: done.surfaces[event.surface].input_events.push(event.input()),
                ..done.surfaces[event.surface]
            })
            &&& !state.surfaces.contains_key(event.surface) ==> next == done
            &&& state.frame_requests(events.take(i + 1)) == if state.surfaces.contains_key(
                event.surface,
            ) {
                state.frame_requests(events.take(i)).push(event.surface)
            } else {
                state.frame_requests(events.take(i))
            }
        }),
{
    let event = events[i];
    let done = state.pointer_frame(events.take(i));
    let next = state.pointer_frame(events.take(i + 1));
    reveal(Seq::filter);
    assert(events.take(i + 1).drop_last() =~= events.take(i));
    assert(events.take(i + 1).last() == event);
    assert forall|surface: u64|
        surface != event.surface && state.surfaces.contains_key(surface) implies #[trigger]
        next.surfaces[surface] == done.surfaces[surface] by {
        assert(input_for(events.take(i + 1), surface) =~= input_for(events.take(i), surface));
    }
    assert(input_for(events.take(i + 1), event.surface) =~= input_for(
        events.take(i),
        event.surface,
    ).push(event.input()));
    if state.surfaces.contains_key(event.surface) {
        assert(next.surfaces[event.surface].input_events
            =~= done.surfaces[event.surface].input_events.push(event.input()));
        assert(state.frame_requests(events.take(i + 1)) =~= state.frame_requests(
            events.take(i),
        ).push(event.surface));
    } else {
        assert(next.surfaces =~= done.surfaces);
    }
}

impl<S: Copy> App<S> {
    /// No outputs and no seats.
    pub fn new() -> (app: Self)
        ensures
            app@ == AppState::<S>::empty(),
    {
        let app = App { surfaces: HashMap::new(), displays: HashMap::new(), pointers: HashSet::new() };
        assert(app@.surfaces =~= Map::empty());
        assert(app@.displays =~= Map::empty());
        app
    }

    /// The display of a new output, which shows `surface`.
    pub fn new_display(&self, surface: u64) -> (display: Display)
        ensures
            display@ == (DisplayState {
                last_time: None,
                scale: Scale::Factor(1),
                surfaces: Set::empty().insert(surface),
            }),
    {
        let mut surfaces: HashSet<u64> = HashSet::new();
        surfaces.insert(surface);
        Display { last_time: None, scale: Scale::Factor(1), surfaces }
    }

    /// Registers an output and the surface of its bar.
    pub fn new_output(&mut self, output: u64, surface: u64)
        ensures
            final(self)@ == old(self)@.new_output(output, surface),
    {
        let info = Surface { output, size: (BAR_WIDTH, 0), input_events: Vec::new() };
        let display = self.new_display(surface);
        proof {
            lemma_surfaces_insert(self.surfaces@, surface, info);
            lemma_displays_insert(self.displays@, output, display);
        }
        self.surfaces.insert(surface, info);
        self.displays.insert(output, display);
    }

    /// Forgets an output, its display and the surfaces of the display.
    pub fn output_destroyed(&mut self, output: u64)
        ensures
            final(self)@ == old(self)@.output_destroyed(output),
    {
        proof {
            lemma_displays_remove(self.displays@, output);
        }
        let removed = self.displays.remove(&output);
        if let Some(display) = removed {
            self.remove_surfaces(&display.surfaces);
        } else {
            assert(self@ =~= old(self)@);
        }
    }

    /// Forgets all of the given surfaces.
    fn remove_surfaces(&mut self, gone: &HashSet<u64>)
        ensures
            final(self)@ == (AppState {
                surfaces: old(self)@.surfaces.remove_keys(gone@),
                ..old(self)@
            }),
    {
        let ghost before = self@;
        let order = elements(gone);
        assert(before.surfaces =~= before.surfaces.remove_keys(order@.take(0).to_set()));
        for i in 0..order.len()
            invariant
                self@ == (AppState {
                    surfaces: before.surfaces.remove_keys(order@.take(i as int).to_set()),
                    ..before
                }),
        {
            proof {
                let taken = order@.take(i as int);
                lemma_surfaces_remove(self.surfaces@, order[i as int]);
                assert(order@.take(i + 1) =~= taken.push(order[i as int]));
                crate::keys::lemma_to_set_push(taken, order[i as int]);
                assert(before.surfaces.remove_keys(taken.to_set()).remove(order[i as int])
                    =~= before.surfaces.remove_keys(order@.take(i + 1).to_set()));
            }
            self.surfaces.remove(&order[i]);
        }
        assert(order@.take(order.len() as int) =~= order@);
    }

    /// The compositor closed a surface. Returns whether it was known.
    pub fn closed(&mut self, surface: u64) -> (known: bool)
        ensures
            known == old(self)@.surfaces.contains_key(surface),
            final(self)@ == old(self)@.closed(surface),
    {
        let output: u64 = match self.surfaces.get(&surface) {
            Some(info) => info.output,
            None => {
                return false;
            },
        };
        self.output_destroyed(output);
        true
    }

    /// The output that a surface is on, if both are known.
    fn output_of(&self, surface: u64) -> (output: Result<u64, Refusal>)
        ensures
            output == self@.output_of(surface),
    {
        match self.surfaces.get(&surface) {
            Some(info) => if self.displays.contains_key(&info.output) {
                Ok(info.output)
            } else {
                Err(Refusal::UnregisteredOutput)
            },
            None => Err(Refusal::UnregisteredSurface),
        }
    }

    /// Whether a surface is known.
    pub fn contains_surface(&self, surface: u64) -> (known: bool)
        ensures
            known == self@.surfaces.contains_key(surface),
    {
        self.surfaces.contains_key(&surface)
    }

    /// The compositor gave a surface its size. If the surface can be rendered
    /// to it is to be drawn next.
    pub fn configure(&mut self, surface: u64, size: (u32, u32)) -> (result: Result<(), Refusal>)
        ensures
            final(self)@ == old(self)@.configure(surface, size),
            match old(self)@.target_of(surface) {
                Ok(_) => result is Ok,
                Err(refusal) => result == Err::<(), Refusal>(refusal),
            },
    {
        let output: u64 = match self.output_of(surface) {
            Ok(output) => output,
            Err(refusal) => {
                return Err(refusal);
            },
        };
        let reachable: bool = match self.displays.get(&output) {
            Some(display) => display.surfaces.contains(&surface),
            None => false,
        };
        if !reachable {
            return Err(Refusal::NoRenderTarget);
        }
        if let Some(mut info) = self.surfaces.remove(&surface) {
            info.size = size;
            proof {
                lemma_surfaces_insert(self.surfaces@, surface, info);
                lemma_surfaces_remove(old(self).surfaces@, surface);
            }
            self.surfaces.insert(surface, info);
            assert(self@ =~= old(self)@.configure(surface, size));
        }
        Ok(())
    }

    fn rescale(&mut self, surface: u64, scale: Scale) -> (result: Result<(), Refusal>)
        ensures
            final(self)@ == old(self)@.rescaled(surface, scale),
            match old(self)@.output_of(surface) {
                Ok(_) => result is Ok,
                Err(refusal) => result == Err::<(), Refusal>(refusal),
            },
    {
        let output: u64 = match self.output_of(surface) {
            Ok(output) => output,
            Err(refusal) => {
                return Err(refusal);
            },
        };
        if let Some(mut display) = self.displays.remove(&output) {
            display.scale = scale;
            proof {
                lemma_displays_insert(self.displays@, output, display);
                lemma_displays_remove(old(self).displays@, output);
            }
            self.displays.insert(output, display);
            assert(self@ =~= old(self)@.rescaled(surface, scale));
        }
        Ok(())
    }

    /// The compositor gave the display of a surface a whole scale.
    pub fn scale_factor_changed(&mut self, surface: u64, new_factor: i32) -> (result: Result<
        (),
        Refusal,
    >)
        ensures
            final(self)@ == old(self)@.rescaled(surface, Scale::Factor(new_factor)),
            match old(self)@.output_of(surface) {
                Ok(_) => result is Ok,
                Err(refusal) => result == Err::<(), Refusal>(refusal),
            },
    {
        self.rescale(surface, Scale::Factor(new_factor))
    }

    /// The compositor gave the display of a surface a fractional scale.
    pub fn preferred_scale(&mut self, surface: u64, scale: u32) -> (result: Result<(), Refusal>)
        ensures
            final(self)@ == old(self)@.rescaled(surface, Scale::Fraction(scale)),
            match old(self)@.output_of(surface) {
                Ok(_) => result is Ok,
                Err(refusal) => result == Err::<(), Refusal>(refusal),
            },
    {
        self.rescale(surface, Scale::Fraction(scale))
    }

    /// A frame is due on a surface, which is to be drawn if this succeeds.
    pub fn frame(&mut self, surface: u64, time: u32) -> (result: Result<(), Refusal>)
        ensures
            final(self)@ == old(self)@.frame(surface, time),
            match old(self)@.output_of(surface) {
                Ok(_) => result is Ok,
                Err(refusal) => result == Err::<(), Refusal>(refusal),
            },
    {
        let output: u64 = match self.output_of(surface) {
            Ok(output) => output,
            Err(refusal) => {
                return Err(refusal);
            },
        };
        if let Some(mut display) = self.displays.remove(&output) {
            display.last_time = Some(time as u64);
            proof {
                lemma_displays_insert(self.displays@, output, display);
                lemma_displays_remove(old(self).displays@, output);
            }
            self.displays.insert(output, display);
            assert(self@ =~= old(self)@.frame(surface, time));
        }
        Ok(())
    }

    /// Begins a draw of a surface. The input that waited for it is handed over
    /// and no longer waits, even if there is no area to draw on.
    pub fn begin_draw(&mut self, surface: u64) -> (result: Result<DrawStart<S>, Refusal>)
        ensures
            final(self)@ == old(self)@.begin_draw(surface),
            match (old(self)@.draw(surface), result) {
                (Ok(expected), Ok(start)) => start@ == expected,
                (Err(expected), Err(refusal)) => refusal == expected,
                _ => false,
            },
            result matches Ok(start) ==> {
                let here = old(self)@.surfaces[surface];
                &&& start.output == here.output
                &&& start.events@ == here.input_events
                &&& start.size == here.size
                &&& start.scale == old(self)@.displays[here.output].scale
                &&& start.current_time == match old(self)@.displays[here.output].last_time {
                    Some(time) => time,
                    None => 0,
                }
            },
    {
        let output: u64 = match self.output_of(surface) {
            Ok(output) => output,
            Err(refusal) => {
                return Err(refusal);
            },
        };
        if let (Some(display), Some(mut info)) = (
            self.displays.get(&output),
            self.surfaces.remove(&surface),
        ) {
            let mut events: Vec<InputEvent<S>> = Vec::new();
            std::mem::swap(&mut info.input_events, &mut events);
            let size: (u32, u32) = info.size;
            proof {
                lemma_surfaces_insert(self.surfaces@, surface, info);
                lemma_surfaces_remove(old(self).surfaces@, surface);
            }
            self.surfaces.insert(surface, info);
            assert(self@ =~= old(self)@.begin_draw(surface));
            if size.0 == 0 || size.1 == 0 {
                return Err(Refusal::Unconfigured);
            }
            let current_time: u64 = match display.last_time {
                Some(time) => time,
                None => 0,
            };
            Ok(DrawStart { output, events, size, scale: display.scale, current_time })
        } else {
            Err(Refusal::UnregisteredOutput)
        }
    }

    /// Ends a draw in which the program asked to be drawn again after
    /// `requested_redraw` milliseconds, or did not ask.
    pub fn finish_draw(&self, output: u64, surface: u64, requested_redraw: Option<u64>) -> (finish:
        DrawFinish)
        ensures
            finish.redraw_after == requested_redraw,
            finish.target == self@.shown_on(output, surface),
    {
        let target: Result<(), Refusal> = match self.displays.get(&output) {
            Some(display) => if display.surfaces.contains(&surface) {
                Ok(())
            } else {
                Err(Refusal::NoRenderTarget)
            },
            None => Err(Refusal::UnregisteredOutput),
        };
        DrawFinish { redraw_after: requested_redraw, target }
    }

    /// Has a surface drawn, unless there is a reason not to. `viewport` turns a
    /// size in pixels and a scale into the area to draw on. `program` draws,
    /// and returns the delay after which it wants to be drawn again, if it does.
    ///
    /// The program is given the input that waited for the surface, that area
    /// and the time of the frame. Where the surface is not drawn, neither of
    /// the two is called: they need to be callable for a draw that takes place
    /// and for nothing else.
    pub fn draw<
        V: FnOnce((u32, u32), Scale) -> ViewportInfo<S>,
        P: FnOnce(RenderContext<'_, S>) -> Option<u64>,
    >(&mut self, surface: u64, viewport: V, program: P) -> (result: Result<DrawFinish, Refusal>)
        requires
            old(self)@.draw(surface) matches Ok(start) ==> {
                &&& call_requires(viewport, (start.size, start.scale))
                &&& forall|ctx: RenderContext<'_, S>|
                    call_ensures(viewport, (start.size, start.scale), ctx.viewport_info) && ctx@
                        == start.context(ctx.viewport_info) ==> #[trigger] call_requires(
                        program,
                        (ctx,),
                    )
            },
        ensures
            final(self)@ == old(self)@.begin_draw(surface),
            match (old(self)@.draw(surface), result) {
                (Ok(start), Ok(finish)) => {
                    &&& finish.target == old(self)@.shown_on(start.output, surface)
                    &&& exists|ctx: RenderContext<'_, S>|
                        {
                            &&& #[trigger] call_ensures(program, (ctx,), finish.redraw_after)
                            &&& call_ensures(
                                viewport,
                                (start.size, start.scale),
                                ctx.viewport_info,
                            )
                            &&& ctx@ == start.context(ctx.viewport_info)
                            &&& ctx.events@ == old(self)@.surfaces[surface].input_events
                            &&& ctx.current_time == start.current_time
                            &&& ctx.requested_redraw is None
                        }
                },
                (Err(expected), Err(refusal)) => refusal == expected,
                _ => false,
            },
    {
        let start = match self.begin_draw(surface) {
            Ok(start) => start,
            Err(refusal) => {
                return Err(refusal);
            },
        };
        let info = viewport(start.size, start.scale);
        let ctx = RenderContext::new(start.events.as_slice(), info, start.current_time);
        assert(ctx@ =~= start@.context(info));
        let requested_redraw: Option<u64> = program(ctx);
        Ok(self.finish_draw(start.output, surface, requested_redraw))
    }

    /// Hands pointer input to the surfaces that it is for. Input for unknown
    /// surfaces is dropped. Returns the surfaces for which to ask a frame, in
    /// the order of the events.
    pub fn pointer_frame(&mut self, events: &[PointerEvent<S>]) -> (requests: Vec<u64>)
        ensures
            final(self)@ == old(self)@.pointer_frame(events@),
            requests@ == old(self)@.frame_requests(events@),
    {
        let ghost before = self@;
        let mut requests: Vec<u64> = Vec::new();
        proof {
            lemma_no_events(before, events@);
        }
        for i in 0..events.len()
            invariant
                self@ == before.pointer_frame(events@.take(i as int)),
                requests@ == before.frame_requests(events@.take(i as int)),
        {
            let event = &events[i];
            let ghost at = self.surfaces@;
            proof {
                lemma_next_event(before, events@, i as int);
                assert(self@.surfaces.contains_key(event.surface) == before.surfaces.contains_key(
                    event.surface,
                ));
            }
            if let Some(mut info) = self.surfaces.remove(&event.surface) {
                let input = event.to_input();
                info.input_events.push(input);
                proof {
                    lemma_surfaces_remove(at, event.surface);
                    lemma_surfaces_insert(self.surfaces@, event.surface, info);
                }
                self.surfaces.insert(event.surface, info);
                requests.push(event.surface);
                assert(self@.surfaces =~= before.pointer_frame(events@.take(i + 1)).surfaces);
            } else {
                assert(self.surfaces@ =~= at);
            }
        }
        assert(events@.take(events.len() as int) =~= events@);
        requests
    }

    /// A seat gained a capability. Returns whether to take up its pointer.
    pub fn new_capability(&mut self, seat: u64, capability: Capability) -> (take: bool)
        ensures
            take == (capability == Capability::Pointer),
            final(self)@ == (AppState {
                pointers: if take {
                    old(self)@.pointers.insert(seat)
                } else {
                    old(self)@.pointers
                },
                ..old(self)@
            }),
    {
        if capability == Capability::Pointer {
            self.pointers.insert(seat);
            true
        } else {
            false
        }
    }

    /// A seat lost a capability. Returns whether to let go of its pointer.
    pub fn remove_capability(&mut self, seat: u64, capability: Capability) -> (release: bool)
        ensures
            release == (capability == Capability::Pointer && old(self)@.pointers.contains(seat)),
            final(self)@ == (AppState {
                pointers: if capability == Capability::Pointer {
                    old(self)@.pointers.remove(seat)
                } else {
                    old(self)@.pointers
                },
                ..old(self)@
            }),
    {
        if capability == Capability::Pointer {
            self.remove_seat(seat)
        } else {
            false
        }
    }

    /// A seat went away. Returns whether to let go of its pointer.
    pub fn remove_seat(&mut self, seat: u64) -> (release: bool)
        ensures
            release == old(self)@.pointers.contains(seat),
            final(self)@ == (AppState {
                pointers: old(self)@.pointers.remove(seat),
                ..old(self)@
            }),
    {
        self.pointers.remove(&seat)
    }
}

/// Surfaces and displays agree before anything happened.
pub proof fn empty_is_consistent<S>()
    ensures
        AppState::<S>::empty().consistent(),
{
}

/// A new output on a new surface keeps surfaces and displays in agreement.
pub proof fn new_output_keeps_consistency<S>(state: AppState<S>, output: u64, surface: u64)
    requires
        state.consistent(),
        !state.displays.contains_key(output),
        !state.surfaces.contains_key(surface),
    ensures
        state.new_output(output, surface).consistent(),
{
    let next = state.new_output(output, surface);
    assert forall|known: u64| #[trigger] next.surfaces.contains_key(known) implies {
        &&& next.displays.contains_key(next.surfaces[known].output)
        &&& next.displays[next.surfaces[known].output].surfaces.contains(known)
    } by {
        if known != surface {
            assert(state.surfaces.contains_key(known));
        }
    }
    assert forall|at: u64, known: u64|
        next.displays.contains_key(at)
            && #[trigger] next.displays[at].surfaces.contains(known) implies {
        &&& next.surfaces.contains_key(known)
        &&& next.surfaces[known].output == at
    } by {
        if at != output {
            assert(state.displays[at].surfaces.contains(known));
        }
    }
}

/// Whatever else happens keeps surfaces and displays in agreement.
pub proof fn events_keep_consistency<S>(
    state: AppState<S>,
    output: u64,
    surface: u64,
    size: (u32, u32),
    scale: Scale,
    time: u32,
    events: Seq<PointerEvent<S>>,
)
    requires
        state.consistent(),
    ensures
        state.output_destroyed(output).consistent(),
        state.closed(surface).consistent(),
        state.configure(surface, size).consistent(),
        state.rescaled(surface, scale).consistent(),
        state.frame(surface, time).consistent(),
        state.begin_draw(surface).consistent(),
        state.pointer_frame(events).consistent(),
{
    lemma_destroyed_is_consistent(state, output);
    if state.surfaces.contains_key(surface) {
        lemma_destroyed_is_consistent(state, state.surfaces[surface].output);
    }
    lemma_same_places(state, state.configure(surface, size));
    lemma_same_places(state, state.rescaled(surface, scale));
    lemma_same_places(state, state.frame(surface, time));
    lemma_same_places(state, state.begin_draw(surface));
    lemma_same_places(state, state.pointer_frame(events));
}

proof fn lemma_destroyed_is_consistent<S>(state: AppState<S>, output: u64)
    requires
        state.consistent(),
    ensures
        state.output_destroyed(output).consistent(),
{
    let next = state.output_destroyed(output);
    assert forall|known: u64| #[trigger] next.surfaces.contains_key(known) implies {
        &&& next.displays.contains_key(next.surfaces[known].output)
        &&& next.displays[next.surfaces[known].output].surfaces.contains(known)
    } by {
        assert(state.surfaces.contains_key(known));
    }
    assert forall|at: u64, known: u64|
        next.displays.contains_key(at)
            && #[trigger] next.displays[at].surfaces.contains(known) implies {
        &&& next.surfaces.contains_key(known)
        &&& next.surfaces[known].output == at
    } by {
        assert(state.displays[at].surfaces.contains(known));
    }
}

/// A state with the same surfaces on the same outputs is as consistent.
proof fn lemma_same_places<S>(state: AppState<S>, next: AppState<S>)
    requires
        state.consistent(),
        next.surfaces.dom() =~= state.surfaces.dom(),
        next.displays.dom() =~= state.displays.dom(),
        forall|surface: u64| #[trigger]
            state.surfaces.contains_key(surface) ==> next.surfaces[surface].output
                == state.surfaces[surface].output,
        forall|output: u64| #[trigger]
            state.displays.contains_key(output) ==> next.displays[output].surfaces
                == state.displays[output].surfaces,
    ensures
        next.consistent(),
{
    assert forall|known: u64| #[trigger] next.surfaces.contains_key(known) implies {
        &&& next.displays.contains_key(next.surfaces[known].output)
        &&& next.displays[next.surfaces[known].output].surfaces.contains(known)
    } by {
        assert(state.surfaces.contains_key(known));
        assert(state.displays.contains_key(state.surfaces[known].output));
    }
    assert forall|at: u64, known: u64|
        next.displays.contains_key(at)
            && #[trigger] next.displays[at].surfaces.contains(known) implies {
        &&& next.surfaces.contains_key(known)
        &&& next.surfaces[known].output == at
    } by {
        assert(state.displays.contains_key(at));
        assert(state.displays[at].surfaces.contains(known));
    }
}

/// An output that goes away takes with it exactly what came with it.
pub proof fn output_comes_and_goes<S>(state: AppState<S>, output: u64, surface: u64)
    requires
        !state.displays.contains_key(output),
        !state.surfaces.contains_key(surface),
    ensures
        state.new_output(output, surface).output_destroyed(output) == state,
{
    let there = state.new_output(output, surface);
    assert(there.output_destroyed(output).surfaces =~= state.surfaces);
    assert(there.output_destroyed(output).displays =~= state.displays);
}

/// Closing a surface has the effect of destroying its output: nothing on that
/// output is left, and everything on other outputs is as before.
pub proof fn closing_clears_the_output<S>(state: AppState<S>, surface: u64)
    requires
        state.consistent(),
        state.surfaces.contains_key(surface),
    ensures
        ({
            let output = state.surfaces[surface].output;
            let next = state.closed(surface);
            &&& next == state.output_destroyed(output)
            &&& !next.displays.contains_key(output)
            &&& forall|other: u64| #[trigger]
                next.surfaces.contains_key(other) <==> state.surfaces.contains_key(other)
                    && state.surfaces[other].output != output
            &&& forall|other: u64| #[trigger]
                next.surfaces.contains_key(other) ==> next.surfaces[other]
                    == state.surfaces[other]
            &&& forall|other: u64|
                other != output && #[trigger] state.displays.contains_key(other)
                    ==> next.displays.contains_key(other) && next.displays[other]
                    == state.displays[other]
        }),
{
    let output = state.surfaces[surface].output;
    let next = state.closed(surface);
    assert forall|other: u64| #[trigger]
        next.surfaces.contains_key(other) <==> state.surfaces.contains_key(other)
            && state.surfaces[other].output != output by {
        if state.surfaces.contains_key(other) && state.surfaces[other].output != output {
            assert(!state.displays[output].surfaces.contains(other));
        }
    }
}

/// Input is handed to one draw only: a draw right after another gets none,
/// and changes nothing.
pub proof fn input_is_handed_over_once<S>(state: AppState<S>, surface: u64)
    ensures
        ({
            let drawn = state.begin_draw(surface);
            &&& drawn.draw(surface) is Ok <==> state.draw(surface) is Ok
            &&& drawn.draw(surface) matches Ok(again) ==> again.events =~= Seq::empty()
            &&& drawn.begin_draw(surface) == drawn
        }),
{
    let drawn = state.begin_draw(surface);
    assert(drawn.begin_draw(surface).surfaces =~= drawn.surfaces);
}

/// Input that waits is not lost and keeps its order: a draw gets what waited
/// before a pointer frame, followed by what the frame held for its surface.
pub proof fn input_waits_in_order<S>(
    state: AppState<S>,
    events: Seq<PointerEvent<S>>,
    surface: u64,
)
    ensures
        match (state.draw(surface), state.pointer_frame(events).draw(surface)) {
            (Ok(before), Ok(after)) => after == (DrawState {
                events: before.events + input_for(events, surface),
                ..before
            }),
            (Err(before), Err(after)) => before == after,
            _ => false,
        },
{
}

/// Two pointer frames one after the other have the effect of one that holds
/// the events of both.
pub proof fn pointer_frames_add_up<S>(
    state: AppState<S>,
    first: Seq<PointerEvent<S>>,
    second: Seq<PointerEvent<S>>,
)
    ensures
        state.pointer_frame(first).pointer_frame(second) == state.pointer_frame(first + second),
        state.frame_requests(first) + state.pointer_frame(first).frame_requests(second)
            == state.frame_requests(first + second),
{
    let between = state.pointer_frame(first);
    let stepwise = between.pointer_frame(second);
    let at_once = state.pointer_frame(first + second);
    assert forall|surface: u64| state.surfaces.contains_key(surface) implies #[trigger]
        stepwise.surfaces[surface] == at_once.surfaces[surface] by {
        let mine = |event: PointerEvent<S>| event.surface == surface;
        Seq::filter_distributes_over_add(first, second, mine);
        assert(input_for(first + second, surface) =~= input_for(first, surface) + input_for(
            second,
            surface,
        ));
        assert(stepwise.surfaces[surface].input_events
            =~= at_once.surfaces[surface].input_events);
    }
    assert(stepwise.surfaces =~= at_once.surfaces);
    let known = |event: PointerEvent<S>| state.surfaces.contains_key(event.surface);
    let known_between = |event: PointerEvent<S>| between.surfaces.contains_key(event.surface);
    assert(known =~= known_between);
    Seq::filter_distributes_over_add(first, second, known);
    assert(state.frame_requests(first) + between.frame_requests(second) =~= state.frame_requests(
        first + second,
    ));
}

/// Where surfaces and displays agree, the only thing that can keep a known
/// surface from being drawn is that it has no area, and what is drawn is shown.
pub proof fn known_surfaces_are_drawn<S>(state: AppState<S>, surface: u64)
    requires
        state.consistent(),
        state.surfaces.contains_key(surface),
    ensures
        ({
            let output = state.surfaces[surface].output;
            let size = state.surfaces[surface].size;
            &&& state.output_of(surface) == Ok::<u64, Refusal>(output)
            &&& state.target_of(surface) == Ok::<u64, Refusal>(output)
            &&& state.shown_on(output, surface) is Ok
            &&& state.draw(surface) is Ok <==> size.0 != 0 && size.1 != 0
            &&& state.draw(surface) matches Err(refusal) ==> refusal == Refusal::Unconfigured
        }),
{
}

/// A draw after a configure has the configured size, and takes place if that
/// size is an area.
pub proof fn draws_have_the_configured_size<S>(state: AppState<S>, surface: u64, size: (u32, u32))
    requires
        state.target_of(surface) is Ok,
    ensures
        ({
            let next = state.configure(surface, size);
            &&& next.draw(surface) is Ok <==> size.0 != 0 && size.1 != 0
            &&& next.draw(surface) matches Ok(start) ==> start.size == size
        }),
{
}

/// A new bar is not drawn before it has been configured. Its first draw then
/// has no input, the scale one and the time zero.
pub proof fn new_bar_waits_for_its_size<S>(
    state: AppState<S>,
    output: u64,
    surface: u64,
    size: (u32, u32),
)
    requires
        size.0 != 0,
        size.1 != 0,
    ensures
        ({
            let there = state.new_output(output, surface);
            &&& there.draw(surface) == Err::<DrawState<S>, Refusal>(Refusal::Unconfigured)
            &&& there.configure(surface, size).draw(surface) == Ok::<DrawState<S>, Refusal>(
                DrawState {
                    output,
                    events: Seq::empty(),
                    size,
                    scale: Scale::Factor(1),
                    current_time: 0,
                },
            )
        }),
{
}

/// The scale that counts is the last one given, and the other displays and all
/// surfaces do not notice.
pub proof fn last_scale_counts<S>(state: AppState<S>, surface: u64, first: Scale, second: Scale)
    requires
        state.output_of(surface) is Ok,
    ensures
        ({
            let output = state.surfaces[surface].output;
            let next = state.rescaled(surface, second);
            &&& state.rescaled(surface, first).rescaled(surface, second) == next
            &&& next.displays[output] == (DisplayState {
                scale: second,
                ..state.displays[output]
            })
            &&& next.displays.remove(output) == state.displays.remove(output)
            &&& next.surfaces == state.surfaces
        }),
{
    let output = state.surfaces[surface].output;
    let next = state.rescaled(surface, second);
    assert(state.rescaled(surface, first).rescaled(surface, second).displays =~= next.displays);
    assert(next.displays.remove(output) =~= state.displays.remove(output));
}

/// A whole factor and the fraction for the same number leave the same scale on
/// the surface's display, and everything else as it was. On an unknown surface
/// or output neither changes anything.
pub proof fn factors_and_fractions_agree<S>(state: AppState<S>, surface: u64, factor: i32)
    requires
        0 <= factor <= u32::MAX / SCALE_PARTS,
    ensures
        ({
            let whole = state.rescaled(surface, Scale::Factor(factor));
            let parts = state.rescaled(surface, Scale::fraction_of(factor));
            match state.output_of(surface) {
                Ok(output) => {
                    &&& whole.displays[output].scale.parts() == SCALE_PARTS * factor
                    &&& parts.displays[output].scale.parts() == SCALE_PARTS * factor
                    &&& whole == state.with_display(
                        output,
                        DisplayState {
                            scale: whole.displays[output].scale,
                            ..state.displays[output]
                        },
                    )
                    &&& parts == whole.with_display(
                        output,
                        DisplayState {
                            scale: parts.displays[output].scale,
                            ..whole.displays[output]
                        },
                    )
                },
                Err(_) => whole == state && parts == state,
            }
        }),
{
    let whole = state.rescaled(surface, Scale::Factor(factor));
    let parts = state.rescaled(surface, Scale::fraction_of(factor));
    crate::scale::factors_are_fractions(factor, factor);
    if let Ok(output) = state.output_of(surface) {
        assert(parts.displays =~= whole.displays.insert(output, parts.displays[output]));
    }
}

/// Draws after a whole factor and after the fraction for the same number are
/// given the same, with a scale that stands for the same number.
pub proof fn draws_see_the_same_scale<S>(state: AppState<S>, surface: u64, factor: i32)
    requires
        0 <= factor <= u32::MAX / SCALE_PARTS,
    ensures
        match (
            state.rescaled(surface, Scale::Factor(factor)).draw(surface),
            state.rescaled(surface, Scale::fraction_of(factor)).draw(surface),
        ) {
            (Ok(whole), Ok(parts)) => {
                &&& whole.scale.parts() == parts.scale.parts()
                &&& whole == (DrawState { scale: whole.scale, ..parts })
            },
            (Err(whole), Err(parts)) => whole == parts,
            _ => false,
        },
{
    crate::scale::factors_are_fractions(factor, factor);
}

/// The time that a draw sees is that of the last frame on its display.
pub proof fn draws_see_the_frame_time<S>(state: AppState<S>, surface: u64, time: u32)
    ensures
        match (state.draw(surface), state.frame(surface, time).draw(surface)) {
            (Ok(before), Ok(after)) => after == (DrawState {
                current_time: time as u64,
                ..before
            }),
            (Err(before), Err(after)) => before == after,
            _ => false,
        },
{
}

/// Before anything happened nothing is known.
pub proof fn nothing_is_known_at_first<S>(surface: u64, output: u64, seat: u64)
    ensures
        !AppState::<S>::empty().surfaces.contains_key(surface),
        !AppState::<S>::empty().displays.contains_key(output),
        !AppState::<S>::empty().pointers.contains(seat),
{
}

/// A surface is refused exactly for the first of these reasons that holds: it
/// is not known, its output is not, or its output does not render to it.
/// Otherwise the answer is the output that it is on.
pub proof fn refusals_have_their_reason<S>(state: AppState<S>, surface: u64)
    ensures
        ({
            let known = state.surfaces.contains_key(surface);
            let output = state.surfaces[surface].output;
            let there = state.displays.contains_key(output);
            let shown = state.displays[output].surfaces.contains(surface);
            &&& state.output_of(surface) == Err::<u64, Refusal>(Refusal::UnregisteredSurface)
                <==> !known
            &&& state.output_of(surface) == Err::<u64, Refusal>(Refusal::UnregisteredOutput)
                <==> known && !there
            &&& state.output_of(surface) == Ok::<u64, Refusal>(output) <==> known && there
            &&& state.target_of(surface) == Err::<u64, Refusal>(Refusal::UnregisteredSurface)
                <==> !known
            &&& state.target_of(surface) == Err::<u64, Refusal>(Refusal::UnregisteredOutput)
                <==> known && !there
            &&& state.target_of(surface) == Err::<u64, Refusal>(Refusal::NoRenderTarget)
                <==> known && there && !shown
            &&& state.target_of(surface) == Ok::<u64, Refusal>(output) <==> known && there && shown
        }),
{
}

/// What was drawn is shown exactly if the output is known and renders to the
/// surface. An unknown output is told before a surface that it does not render
/// to.
pub proof fn shown_where_rendered<S>(state: AppState<S>, output: u64, surface: u64)
    ensures
        state.shown_on(output, surface) is Ok <==> state.displays.contains_key(output)
            && state.displays[output].surfaces.contains(surface),
        state.shown_on(output, surface) == Err::<(), Refusal>(Refusal::UnregisteredOutput)
            <==> !state.displays.contains_key(output),
        state.shown_on(output, surface) == Err::<(), Refusal>(Refusal::NoRenderTarget)
            <==> state.displays.contains_key(output) && !state.displays[output].surfaces.contains(
            surface,
        ),
{
}

/// A new output brings a display and a surface, and nothing else changes. The
/// surface is on the output, as wide as a bar, without height and input. The
/// display renders to that surface only, at one pixel per point, and has seen
/// no frame.
pub proof fn new_outputs_bring_only_their_own<S>(
    state: AppState<S>,
    output: u64,
    surface: u64,
    other: u64,
)
    ensures
        ({
            let next = state.new_output(output, surface);
            &&& next.surfaces.contains_key(surface)
            &&& next.surfaces[surface].output == output
            &&& next.surfaces[surface].size == (40u32, 0u32)
            &&& next.surfaces[surface].input_events.len() == 0
            &&& next.surfaces.remove(surface) == state.surfaces.remove(surface)
            &&& next.displays.contains_key(output)
            &&& next.displays[output].last_time is None
            &&& next.displays[output].scale == Scale::Factor(1)
            &&& next.displays[output].surfaces.contains(other) <==> other == surface
            &&& next.displays.remove(output) == state.displays.remove(output)
            &&& next.pointers == state.pointers
        }),
{
    let next = state.new_output(output, surface);
    assert(next.surfaces.remove(surface) =~= state.surfaces.remove(surface));
    assert(next.displays.remove(output) =~= state.displays.remove(output));
}

/// A destroyed output takes its display and the surfaces that the display
/// renders to, and nothing else. An unknown one takes nothing.
pub proof fn destroyed_outputs_take_only_their_own<S>(
    state: AppState<S>,
    output: u64,
    surface: u64,
)
    ensures
        ({
            let next = state.output_destroyed(output);
            let own = state.displays.contains_key(output)
                && state.displays[output].surfaces.contains(surface);
            &&& !next.displays.contains_key(output)
            &&& next.displays.remove(output) == state.displays.remove(output)
            &&& next.surfaces.contains_key(surface) <==> state.surfaces.contains_key(surface)
                && !own
            &&& next.surfaces.contains_key(surface) ==> next.surfaces[surface]
                == state.surfaces[surface]
            &&& next.pointers == state.pointers
            &&& !state.displays.contains_key(output) ==> next == state
        }),
{
    let next = state.output_destroyed(output);
    assert(next.displays.remove(output) =~= state.displays.remove(output));
}

/// Closing a known surface destroys the output that it is on, whatever else is
/// on it. Closing an unknown one does nothing.
pub proof fn closing_destroys_the_output<S>(state: AppState<S>, surface: u64)
    ensures
        state.surfaces.contains_key(surface) ==> state.closed(surface) == state.output_destroyed(
            state.surfaces[surface].output,
        ),
        !state.surfaces.contains_key(surface) ==> state.closed(surface) == state,
{
}

/// A configure changes the size of a surface that is rendered to, and nothing
/// else. On any other surface it does nothing.
pub proof fn configuring_changes_only_the_size<S>(
    state: AppState<S>,
    surface: u64,
    size: (u32, u32),
)
    ensures
        ({
            let next = state.configure(surface, size);
            let output = state.surfaces[surface].output;
            let rendered = state.surfaces.contains_key(surface) && state.displays.contains_key(
                output,
            ) && state.displays[output].surfaces.contains(surface);
            &&& rendered ==> {
                &&& next.surfaces.contains_key(surface)
                &&& next.surfaces[surface].size == size
                &&& next.surfaces[surface].output == output
                &&& next.surfaces[surface].input_events == state.surfaces[surface].input_events
            }
            &&& next.surfaces.remove(surface) == state.surfaces.remove(surface)
            &&& next.displays == state.displays
            &&& next.pointers == state.pointers
            &&& !rendered ==> next == state
        }),
{
    let next = state.configure(surface, size);
    assert(next.surfaces.remove(surface) =~= state.surfaces.remove(surface));
}

/// A scale goes to the display of the surface's output and changes nothing
/// else of it or of the other displays. Without such a display nothing changes.
pub proof fn scaling_changes_only_the_scale<S>(state: AppState<S>, surface: u64, scale: Scale)
    ensures
        ({
            let next = state.rescaled(surface, scale);
            let output = state.surfaces[surface].output;
            let there = state.surfaces.contains_key(surface) && state.displays.contains_key(output);
            &&& there ==> {
                &&& next.displays.contains_key(output)
                &&& next.displays[output].scale == scale
                &&& next.displays[output].last_time == state.displays[output].last_time
                &&& next.displays[output].surfaces == state.displays[output].surfaces
                &&& next.displays.remove(output) == state.displays.remove(output)
            }
            &&& next.surfaces == state.surfaces
            &&& next.pointers == state.pointers
            &&& !there ==> next == state
        }),
{
    let next = state.rescaled(surface, scale);
    let output = state.surfaces[surface].output;
    assert(next.displays.remove(output) =~= state.displays.remove(output));
}

/// A frame gives its time to the display of the surface's output and changes
/// nothing else. Without such a display nothing changes.
pub proof fn frames_change_only_the_time<S>(state: AppState<S>, surface: u64, time: u32)
    ensures
        ({
            let next = state.frame(surface, time);
            let output = state.surfaces[surface].output;
            let there = state.surfaces.contains_key(surface) && state.displays.contains_key(output);
            &&& there ==> {
                &&& next.displays.contains_key(output)
                &&& next.displays[output].last_time == Some(time as u64)
                &&& next.displays[output].scale == state.displays[output].scale
                &&& next.displays[output].surfaces == state.displays[output].surfaces
                &&& next.displays.remove(output) == state.displays.remove(output)
            }
            &&& next.surfaces == state.surfaces
            &&& next.pointers == state.pointers
            &&& !there ==> next == state
        }),
{
    let next = state.frame(surface, time);
    let output = state.surfaces[surface].output;
    assert(next.displays.remove(output) =~= state.displays.remove(output));
}

/// A draw that begins takes the input that waited for its surface, and nothing
/// else. If the surface or its output is not known, the input stays.
pub proof fn drawing_takes_only_the_input<S>(state: AppState<S>, surface: u64)
    ensures
        ({
            let next = state.begin_draw(surface);
            let there = state.surfaces.contains_key(surface) && state.displays.contains_key(
                state.surfaces[surface].output,
            );
            &&& there ==> {
                &&& next.surfaces.contains_key(surface)
                &&& next.surfaces[surface].input_events.len() == 0
                &&& next.surfaces[surface].size == state.surfaces[surface].size
                &&& next.surfaces[surface].output == state.surfaces[surface].output
            }
            &&& next.surfaces.remove(surface) == state.surfaces.remove(surface)
            &&& next.displays == state.displays
            &&& next.pointers == state.pointers
            &&& !there ==> next == state
        }),
{
    let next = state.begin_draw(surface);
    assert(next.surfaces.remove(surface) =~= state.surfaces.remove(surface));
}

/// A surface is drawn exactly if it and its output are known and it has an
/// area. The draw is given the surface's own input, size and output, and the
/// scale and time of the output's display, where the time is zero before the
/// first frame.
pub proof fn draws_are_given_what_is_known<S>(
    state: AppState<S>,
    surface: u64,
    info: ViewportInfo<S>,
)
    ensures
        ({
            let known = state.surfaces.contains_key(surface);
            let here = state.surfaces[surface];
            let there = state.displays.contains_key(here.output);
            let display = state.displays[here.output];
            let flat = here.size.0 == 0 || here.size.1 == 0;
            match state.draw(surface) {
                Ok(start) => {
                    &&& known && there && !flat
                    &&& start.output == here.output
                    &&& start.events == here.input_events
                    &&& start.size == here.size
                    &&& start.scale == display.scale
                    &&& display.last_time is None ==> start.current_time == 0
                    &&& display.last_time matches Some(time) ==> start.current_time == time
                    &&& start.context(info).events == here.input_events
                    &&& start.context(info).viewport_info == info
                    &&& start.context(info).current_time == start.current_time
                    &&& start.context(info).requested_redraw is None
                },
                Err(refusal) => {
                    &&& refusal == Refusal::UnregisteredSurface <==> !known
                    &&& refusal == Refusal::UnregisteredOutput <==> known && !there
                    &&& refusal == Refusal::Unconfigured <==> known && there && flat
                },
            }
        }),
{
}

/// One more event adds its own input to its own surface, at the end, and no
/// input to any other. No events are no input.
pub proof fn input_reaches_only_its_surface<S>(
    events: Seq<PointerEvent<S>>,
    event: PointerEvent<S>,
    surface: u64,
)
    ensures
        input_for(Seq::<PointerEvent<S>>::empty(), surface).len() == 0,
        input_for(events.push(event), surface) == if event.surface == surface {
            input_for(events, surface).push(event.input())
        } else {
            input_for(events, surface)
        },
{
    reveal(Seq::filter);
    assert(events.push(event).drop_last() =~= events);
    assert(input_for(events.push(event), surface) =~= if event.surface == surface {
        input_for(events, surface).push(event.input())
    } else {
        input_for(events, surface)
    });
}

/// Pointer input goes behind the input that waits for each known surface and
/// touches nothing else. Unknown surfaces stay unknown.
pub proof fn pointer_frames_only_add_input<S>(
    state: AppState<S>,
    events: Seq<PointerEvent<S>>,
    surface: u64,
)
    ensures
        ({
            let next = state.pointer_frame(events);
            &&& next.surfaces.contains_key(surface) <==> state.surfaces.contains_key(surface)
            &&& state.surfaces.contains_key(surface) ==> {
                &&& next.surfaces[surface].input_events == state.surfaces[surface].input_events
                    + input_for(events, surface)
                &&& next.surfaces[surface].size == state.surfaces[surface].size
                &&& next.surfaces[surface].output == state.surfaces[surface].output
            }
            &&& next.displays == state.displays
            &&& next.pointers == state.pointers
        }),
{
}

/// Every event on a known surface asks for a frame on that surface, in the
/// order of the events, and an event on an unknown surface asks for none.
pub proof fn known_events_ask_for_frames<S>(
    state: AppState<S>,
    events: Seq<PointerEvent<S>>,
    event: PointerEvent<S>,
)
    ensures
        state.frame_requests(Seq::<PointerEvent<S>>::empty()).len() == 0,
        state.frame_requests(events.push(event)) == if state.surfaces.contains_key(event.surface) {
            state.frame_requests(events).push(event.surface)
        } else {
            state.frame_requests(events)
        },
{
    reveal(Seq::filter);
    assert(events.push(event).drop_last() =~= events);
    assert(state.frame_requests(events.push(event)) =~= if state.surfaces.contains_key(
        event.surface,
    ) {
        state.frame_requests(events).push(event.surface)
    } else {
        state.frame_requests(events)
    });
}

} // verus!
