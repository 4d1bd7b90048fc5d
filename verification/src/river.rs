//! The bar for the river compositor: tags, window titles and one viewport for
//! each output.

use crate::bar_input::{interacted_surfaces, BarEvent};
use crate::input::{Capability, PointerEvent};
use crate::keys::keys;
use crate::layer::BAR_WIDTH;
use crate::scale::Scale;
use crate::tags::{focus_tag_arguments, tags_in_use, TAG_COUNT};
use std::collections::HashMap;
use vstd::prelude::*;

verus! {

broadcast use vstd::std_specs::hash::group_hash_axioms;

/// The area that a bar is drawn on.
pub struct Viewport {
    /// The output that the bar is on.
    pub parent: u64,
    /// The surface of the bar.
    pub surface: u64,
    /// The size in pixels.
    pub size: (u32, u32),
}

/// What river told of an output.
pub struct RiverOutputStatus {
    /// The tags that some view has.
    pub used: u32,
    /// The tags that are shown.
    pub focused: u32,
    /// The tags with a view that wants attention.
    pub urgent: u32,
    /// The title of the focused view.
    pub view_title: String,
}

/// The bar's knowledge of outputs, surfaces, seats and pending input.
pub struct Taskbar<S> {
    viewports: HashMap<u64, Viewport>,
    surfaces: HashMap<u64, u64>,
    river_outputs: HashMap<u64, RiverOutputStatus>,
    river_focus: HashMap<u64, u64>,
    scales: HashMap<u64, Option<Scale>>,
    time: Option<u64>,
    events: Vec<BarEvent<S>>,
}

/// What river tells of an output.
pub enum OutputStatusEvent {
    /// The tags that are shown.
    FocusedTags { tags: u32 },
    /// The tags with a view that wants attention.
    UrgentTags { tags: u32 },
    /// The tags of every view, as the bytes of numbers.
    ViewTags { bytes: Vec<u8> },
    /// Anything about layouts.
    Layout,
}

/// A change to what is known of an output.
pub enum StatusChange {
    Focused(u32),
    Urgent(u32),
    Used(u32),
    Nothing,
}

/// What river tells of a seat.
pub enum SeatStatusEvent {
    FocusedOutput { output: u64 },
    UnfocusedOutput,
    FocusedView { title: String },
    Mode,
}

/// What follows from an event.
pub enum Outcome {
    /// Nothing is to be drawn.
    Nothing,
    /// The event was about an output that is not known.
    UnknownOutput,
    /// The event could not be read.
    Unreadable,
    /// These viewports are to be drawn, in any order.
    Repaint(Vec<u64>),
}

/// What follows when a viewport was given a size.
pub struct Configured {
    pub viewport: u64,
    /// Whether the viewport is to be drawn, which it is when it had no height.
    pub first_draw: bool,
}

/// What one draw of a viewport is given.
pub struct FrameStart<S> {
    /// The input since the last draw, oldest first.
    pub events: Vec<BarEvent<S>>,
    /// The time of the last frame in milliseconds, if there was one.
    pub time: Option<u64>,
    /// The size in pixels.
    pub size: (u32, u32),
    /// Whether there is an area to show anything on.
    pub visible: bool,
    pub scale: Scale,
}

/// A command for river on behalf of a seat.
pub struct SeatCommand {
    pub seat: u64,
    pub arguments: Vec<String>,
}

impl Clone for Viewport {
    fn clone(&self) -> (viewport: Self)
        ensures
            viewport == *self,
    {
        *self
    }
}

impl Copy for Viewport {

}

/// What river told of an output, as a value.
#[verifier::ext_equal]
pub struct StatusState {
    pub used: u32,
    pub focused: u32,
    pub urgent: u32,
    pub view_title: Seq<char>,
}

impl StatusState {
    /// Nothing has been told yet.
    pub open spec fn unknown() -> Self {
        StatusState { used: 0, focused: 0, urgent: 0, view_title: Seq::empty() }
    }

    pub open spec fn changed(self, change: StatusChange) -> Self {
        match change {
            StatusChange::Focused(tags) => StatusState { focused: tags, ..self },
            StatusChange::Urgent(tags) => StatusState { urgent: tags, ..self },
            StatusChange::Used(tags) => StatusState { used: tags, ..self },
            StatusChange::Nothing => self,
        }
    }
}

impl View for RiverOutputStatus {
    type V = StatusState;

    open spec fn view(&self) -> StatusState {
        StatusState {
            used: self.used,
            focused: self.focused,
            urgent: self.urgent,
            view_title: self.view_title@,
        }
    }
}

/// The state of a `Taskbar`, as a value.
#[verifier::ext_equal]
pub struct TaskbarState<S> {
    /// The viewports.
    pub viewports: Map<u64, Viewport>,
    /// The viewport of each surface.
    pub surfaces: Map<u64, u64>,
    /// What is known of each output.
    pub river_outputs: Map<u64, StatusState>,
    /// The output that a seat is on.
    pub river_focus: Map<u64, u64>,
    /// The viewports whose scale is followed, and the scale if one was given.
    pub scales: Map<u64, Option<Scale>>,
    /// The time of the last frame in milliseconds.
    pub time: Option<u64>,
    /// The input since the last draw.
    pub events: Seq<BarEvent<S>>,
}

spec fn statuses(outputs: Map<u64, RiverOutputStatus>) -> Map<u64, StatusState> {
    outputs.map_values(|status: RiverOutputStatus| status@)
}

impl<S> View for Taskbar<S> {
    type V = TaskbarState<S>;

    closed spec fn view(&self) -> TaskbarState<S> {
        TaskbarState {
            viewports: self.viewports@,
            surfaces: self.surfaces@,
            river_outputs: statuses(self.river_outputs@),
            river_focus: self.river_focus@,
            scales: self.scales@,
            time: self.time,
            events: self.events@,
        }
    }
}

/// What one draw is given, as a value.
#[verifier::ext_equal]
pub struct FrameState<S> {
    pub events: Seq<BarEvent<S>>,
    pub time: Option<u64>,
    pub size: (u32, u32),
    pub visible: bool,
    pub scale: Scale,
}

impl<S> View for FrameStart<S> {
    type V = FrameState<S>;

    open spec fn view(&self) -> FrameState<S> {
        FrameState {
            events: self.events@,
            time: self.time,
            size: self.size,
            visible: self.visible,
            scale: self.scale,
        }
    }
}

/// The scale that counts where a viewport has been given one, or none.
pub open spec fn scale_or_one(scale: Option<Scale>) -> Scale {
    match scale {
        Some(scale) => scale,
        None => Scale::Factor(1),
    }
}

impl<S> TaskbarState<S> {
    /// Before anything happened, when only the scale of the toolkit's own
    /// viewport is followed.
    pub open spec fn initial(root: u64) -> Self {
        TaskbarState {
            viewports: Map::empty(),
            surfaces: Map::empty(),
            river_outputs: Map::empty(),
            river_focus: Map::empty(),
            scales: Map::empty().insert(root, None),
            time: None,
            events: Seq::empty(),
        }
    }

    /// The viewports on an output.
    pub open spec fn viewports_on(self, output: u64) -> Set<u64> {
        Set::new(
            |id: u64| self.viewports.contains_key(id) && self.viewports[id].parent == output,
        )
    }

    /// The surfaces of the viewports on an output.
    pub open spec fn surfaces_on(self, output: u64) -> Set<u64> {
        self.viewports_on(output).map(|id: u64| self.viewports[id].surface)
    }

    /// `repaint` lists the viewports on an output.
    pub open spec fn repaints(self, output: u64, repaint: Seq<u64>) -> bool {
        crate::keys::enumerates(repaint, self.viewports_on(output))
    }

    /// An output appeared, and a surface and viewport were made for its bar.
    pub open spec fn new_output(self, output: u64, surface: u64, viewport: u64) -> Self {
        TaskbarState {
            surfaces: self.surfaces.insert(surface, viewport),
            viewports: self.viewports.insert(
                viewport,
                Viewport { parent: output, surface, size: (BAR_WIDTH, 0) },
            ),
            river_outputs: self.river_outputs.insert(output, StatusState::unknown()),
            ..self
        }
    }

    /// An output went away, with its viewports, their surfaces and scales.
    /// What river told of it stays known.
    pub open spec fn output_destroyed(self, output: u64) -> Self {
        TaskbarState {
            viewports: self.viewports.remove_keys(self.viewports_on(output)),
            surfaces: self.surfaces.remove_keys(self.surfaces_on(output)),
            scales: self.scales.remove_keys(self.viewports_on(output)),
            ..self
        }
    }

    /// The viewport that a surface shows, if there is one.
    pub open spec fn viewport_of(self, surface: u64) -> Option<u64> {
        if self.surfaces.contains_key(surface) && self.viewports.contains_key(
            self.surfaces[surface],
        ) {
            Some(self.surfaces[surface])
        } else {
            None
        }
    }

    /// What follows when a surface is given a size: its viewport is to be drawn
    /// if it had no height so far.
    pub open spec fn configured(self, surface: u64) -> Option<Configured> {
        match self.viewport_of(surface) {
            Some(viewport) => Some(
                Configured { viewport, first_draw: self.viewports[viewport].size.1 == 0 },
            ),
            None => None,
        }
    }

    /// A surface was given a size.
    pub open spec fn configure(self, surface: u64, size: (u32, u32)) -> Self {
        match self.viewport_of(surface) {
            Some(id) => TaskbarState {
                viewports: self.viewports.insert(id, Viewport { size, ..self.viewports[id] }),
                ..self
            },
            None => self,
        }
    }

    /// What river tells of an output changed.
    pub open spec fn status_changed(self, output: u64, change: StatusChange) -> Self {
        if self.river_outputs.contains_key(output) {
            TaskbarState {
                river_outputs: self.river_outputs.insert(
                    output,
                    self.river_outputs[output].changed(change),
                ),
                ..self
            }
        } else {
            self
        }
    }

    /// The focused view of an output has a title.
    pub open spec fn titled(self, output: u64, title: Seq<char>) -> Self {
        if self.river_outputs.contains_key(output) {
            TaskbarState {
                river_outputs: self.river_outputs.insert(
                    output,
                    StatusState { view_title: title, ..self.river_outputs[output] },
                ),
                ..self
            }
        } else {
            self
        }
    }

    /// River told something of a seat.
    pub open spec fn seat_status(self, seat: u64, event: SeatStatusEvent) -> Self {
        match event {
            SeatStatusEvent::FocusedOutput { output } => TaskbarState {
                river_focus: self.river_focus.insert(seat, output),
                ..self
            },
            SeatStatusEvent::UnfocusedOutput => TaskbarState {
                river_focus: self.river_focus.remove(seat),
                ..self
            },
            SeatStatusEvent::FocusedView { title } => self.titled(self.river_focus[seat], title@),
            SeatStatusEvent::Mode => self,
        }
    }

    /// A viewport is reached by a walk over the viewports that ends at the
    /// first one that is not on the output.
    pub open spec fn reached(self, order: Seq<u64>, output: u64, id: u64) -> bool {
        exists|i: int|
            {
                &&& 0 <= i < order.len()
                &&& #[trigger] order[i] == id
                &&& forall|j: int|
                    0 <= j <= i ==> self.viewports[#[trigger] order[j]].parent == output
            }
    }

    /// A fractional scale was given for an output: the viewports that a walk
    /// in `order` reaches take it, if their scale is followed.
    pub open spec fn preferred_scale(self, order: Seq<u64>, output: u64, scale: Scale) -> Self {
        TaskbarState {
            scales: Map::new(
                |id: u64| self.scales.contains_key(id),
                |id: u64|
                    if self.reached(order, output, id) {
                        Some(scale)
                    } else {
                        self.scales[id]
                    },
            ),
            ..self
        }
    }

    /// A whole scale was given for a surface. It counts if the scale so far
    /// was a whole one too, which of a fraction `fraction_is_whole` tells.
    pub open spec fn scale_factor_changed(
        self,
        surface: u64,
        factor: i32,
        fraction_is_whole: bool,
    ) -> Self {
        if self.surfaces.contains_key(surface) && self.scales.contains_key(self.surfaces[surface])
            && (scale_or_one(self.scales[self.surfaces[surface]]) is Fraction
            ==> fraction_is_whole) {
            TaskbarState {
                scales: self.scales.insert(self.surfaces[surface], Some(Scale::Factor(factor))),
                ..self
            }
        } else {
            self
        }
    }

    /// Pointer input arrived.
    pub open spec fn pointer_frame(self, events: Seq<PointerEvent<S>>) -> Self {
        TaskbarState {
            events: self.events + events.map_values(|event: PointerEvent<S>| event.bar_event()),
            ..self
        }
    }

    /// The viewports to draw after pointer input: those of the surfaces that
    /// the input was on, in order.
    pub open spec fn pointed_at(self, events: Seq<PointerEvent<S>>) -> Seq<u64> {
        crate::bar_input::dedup(crate::bar_input::surfaces_of(events)).filter(
            |surface: u64| self.surfaces.contains_key(surface),
        ).map_values(|surface: u64| self.surfaces[surface])
    }

    /// A draw takes the pending input.
    pub open spec fn input_taken(self) -> Self {
        TaskbarState { events: Seq::empty(), ..self }
    }

    /// What a draw of a viewport is given.
    pub open spec fn frame_start(self, viewport: u64) -> FrameState<S> {
        let size = self.viewports[viewport].size;
        FrameState {
            events: self.events,
            time: self.time,
            size,
            visible: size.0 > 0 && size.1 > 0,
            scale: if self.scales.contains_key(viewport) {
                scale_or_one(self.scales[viewport])
            } else {
                Scale::Factor(1)
            },
        }
    }

    /// Viewports and surfaces belong together in pairs.
    pub open spec fn consistent(self) -> bool {
        &&& forall|id: u64| #[trigger]
            self.viewports.contains_key(id) ==> {
                &&& self.surfaces.contains_key(self.viewports[id].surface)
                &&& self.surfaces[self.viewports[id].surface] == id
            }
        &&& forall|surface: u64| #[trigger]
            self.surfaces.contains_key(surface) ==> {
                &&& self.viewports.contains_key(self.surfaces[surface])
                &&& self.viewports[self.surfaces[surface]].surface == surface
            }
    }
}

proof fn lemma_statuses_insert(
    outputs: Map<u64, RiverOutputStatus>,
    output: u64,
    status: RiverOutputStatus,
)
    ensures
        statuses(outputs.insert(output, status)) == statuses(outputs).insert(output, status@),
{
    assert(statuses(outputs.insert(output, status)) =~= statuses(outputs).insert(output, status@));
}

proof fn lemma_statuses_remove(outputs: Map<u64, RiverOutputStatus>, output: u64)
    ensures
        statuses(outputs.remove(output)) == statuses(outputs).remove(output),
{
    assert(statuses(outputs.remove(output)) =~= statuses(outputs).remove(output));
}

impl<S: Copy> Taskbar<S> {
    /// A bar without outputs. `root` is the toolkit's own viewport.
    pub fn new(root: u64) -> (bar: Self)
        ensures
            bar@ == TaskbarState::<S>::initial(root),
    {
        let mut scales: HashMap<u64, Option<Scale>> = HashMap::new();
        scales.insert(root, None);
        let bar = Taskbar {
            viewports: HashMap::new(),
            surfaces: HashMap::new(),
            river_outputs: HashMap::new(),
            river_focus: HashMap::new(),
            scales,
            time: None,
            events: Vec::new(),
        };
        assert(bar@.river_outputs =~= Map::empty());
        bar
    }

    /// Registers an output and the surface and viewport of its bar.
    pub fn new_output(&mut self, output: u64, surface: u64, viewport: u64)
        ensures
            final(self)@ == old(self)@.new_output(output, surface, viewport),
    {
        let status = RiverOutputStatus {
            used: 0,
            focused: 0,
            urgent: 0,
            view_title: String::new(),
        };
        proof {
            lemma_statuses_insert(self.river_outputs@, output, status);
            assert(status@ =~= StatusState::unknown());
        }
        self.surfaces.insert(surface, viewport);
        self.viewports.insert(
            viewport,
            Viewport { parent: output, surface, size: (BAR_WIDTH, 0) },
        );
        self.river_outputs.insert(output, status);
    }

    /// The viewports on an output.
    fn viewports_on(&self, output: u64) -> (found: Vec<u64>)
        ensures
            self@.repaints(output, found@),
    {
        let order = keys(&self.viewports);
        let mut found: Vec<u64> = Vec::new();
        for i in 0..order.len()
            invariant
                crate::keys::enumerates(order@, self.viewports@.dom()),
                found@.no_duplicates(),
                forall|id: u64| #[trigger]
                    found@.contains(id) <==> self@.viewports_on(output).contains(id)
                        && order@.take(i as int).contains(id),
        {
            let id: u64 = order[i];
            let ghost seen = order@.take(i as int);
            let ghost before = found@;
            proof {
                assert(order@.contains(id));
                assert(order@.to_set().contains(id));
                assert(order@.take(i + 1) =~= seen.push(id));
                assert(!seen.contains(id));
                assert(!found@.contains(id));
            }
            let on_output: bool = match self.viewports.get(&id) {
                Some(viewport) => viewport.parent == output,
                None => false,
            };
            if on_output {
                found.push(id);
            }
            proof {
                lemma_contains_push(seen, id);
                lemma_contains_push(before, id);
            }
        }
        proof {
            assert(order@.take(order.len() as int) =~= order@);
            assert forall|id: u64| #[trigger]
                found@.to_set().contains(id) <==> self@.viewports_on(output).contains(id) by {
                if self@.viewports_on(output).contains(id) {
                    assert(order@.to_set().contains(id));
                }
                assert(found@.to_set().contains(id) == found@.contains(id));
            }
            assert(found@.to_set() =~= self@.viewports_on(output));
        }
        found
    }
}

proof fn lemma_contains_push(row: Seq<u64>, last: u64)
    ensures
        forall|x: u64| #[trigger] row.push(last).contains(x) <==> row.contains(x) || x == last,
{
    assert forall|x: u64| #[trigger] row.push(last).contains(x) <==> row.contains(x) || x
        == last by {
        crate::keys::lemma_to_set_push(row, last);
        assert(row.push(last).to_set().contains(x) == row.push(last).contains(x));
        assert(row.to_set().contains(x) == row.contains(x));
    }
}

impl<S: Copy> Taskbar<S> {
    /// Forgets an output's viewports, with their surfaces and scales. Returns
    /// the surfaces, which are to be destroyed.
    pub fn output_destroyed(&mut self, output: u64) -> (destroyed: Vec<u64>)
        ensures
            final(self)@ == old(self)@.output_destroyed(output),
            exists|gone: Seq<u64>|
                {
                    &&& #[trigger] old(self)@.repaints(output, gone)
                    &&& destroyed@ == gone.map_values(|id: u64| old(self)@.viewports[id].surface)
                },
    {
        let ghost before = self@;
        let gone = self.viewports_on(output);
        let mut destroyed: Vec<u64> = Vec::new();
        proof {
            let none = gone@.take(0).to_set();
            assert(before.viewports =~= before.viewports.remove_keys(none));
            assert(before.scales =~= before.scales.remove_keys(none));
            assert(before.surfaces =~= before.surfaces.remove_keys(
                surfaces_in(before.viewports, gone@.take(0)),
            ));
        }
        for i in 0..gone.len()
            invariant
                before.repaints(output, gone@),
                destroyed@ == gone@.take(i as int).map_values(
                    |id: u64| before.viewports[id].surface,
                ),
                self@ == (TaskbarState {
                    viewports: before.viewports.remove_keys(gone@.take(i as int).to_set()),
                    scales: before.scales.remove_keys(gone@.take(i as int).to_set()),
                    surfaces: before.surfaces.remove_keys(
                        surfaces_in(before.viewports, gone@.take(i as int)),
                    ),
                    ..before
                }),
        {
            let id: u64 = gone[i];
            let ghost taken = gone@.take(i as int);
            let ghost next = gone@.take(i + 1);
            proof {
                assert(next =~= taken.push(id));
                assert(gone@.to_set().contains(id));
                assert(!taken.contains(id));
                crate::keys::lemma_to_set_push(taken, id);
                lemma_surfaces_in_push(before.viewports, taken, id);
                assert(before.viewports.remove_keys(taken.to_set()).remove(id)
                    =~= before.viewports.remove_keys(next.to_set()));
                assert(before.scales.remove_keys(taken.to_set()).remove(id)
                    =~= before.scales.remove_keys(next.to_set()));
                assert(before.surfaces.remove_keys(surfaces_in(before.viewports, taken)).remove(
                    before.viewports[id].surface,
                ) =~= before.surfaces.remove_keys(surfaces_in(before.viewports, next)));
            }
            if let Some(viewport) = self.viewports.remove(&id) {
                self.scales.remove(&id);
                self.surfaces.remove(&viewport.surface);
                destroyed.push(viewport.surface);
            }
            assert(destroyed@ =~= next.map_values(|id: u64| before.viewports[id].surface));
        }
        proof {
            assert(gone@.take(gone.len() as int) =~= gone@);
            lemma_surfaces_in_all(before, output, gone@);
        }
        destroyed
    }

    /// A surface was given a size. Returns its viewport, and whether to draw
    /// it, unless it shows none.
    pub fn configure(&mut self, surface: u64, size: (u32, u32)) -> (configured: Option<Configured>)
        ensures
            final(self)@ == old(self)@.configure(surface, size),
            configured == old(self)@.configured(surface),
    {
        let id: u64 = match self.surfaces.get(&surface) {
            Some(id) => *id,
            None => {
                return None;
            },
        };
        let viewport: Viewport = match self.viewports.get(&id) {
            Some(viewport) => *viewport,
            None => {
                return None;
            },
        };
        let first_draw: bool = viewport.size.1 == 0;
        self.viewports.insert(id, Viewport { size, ..viewport });
        Some(Configured { viewport: id, first_draw })
    }

    /// Takes over a change to what is known of an output. Returns the
    /// viewports to draw, unless the output is not known.
    pub fn change_status(&mut self, output: u64, change: StatusChange) -> (outcome: Outcome)
        ensures
            final(self)@ == old(self)@.status_changed(output, change),
            match outcome {
                Outcome::UnknownOutput => !old(self)@.river_outputs.contains_key(output),
                Outcome::Repaint(repaint) => {
                    &&& old(self)@.river_outputs.contains_key(output)
                    &&& old(self)@.repaints(output, repaint@)
                },
                _ => false,
            },
    {
        let ghost before = self.river_outputs@;
        if let Some(mut status) = self.river_outputs.remove(&output) {
            match change {
                StatusChange::Focused(tags) => {
                    status.focused = tags;
                },
                StatusChange::Urgent(tags) => {
                    status.urgent = tags;
                },
                StatusChange::Used(tags) => {
                    status.used = tags;
                },
                StatusChange::Nothing => {},
            }
            proof {
                lemma_statuses_remove(before, output);
                lemma_statuses_insert(self.river_outputs@, output, status);
            }
            self.river_outputs.insert(output, status);
            assert(self@.river_outputs =~= old(self)@.status_changed(output, change).river_outputs);
            Outcome::Repaint(self.viewports_on(output))
        } else {
            assert(self.river_outputs@ =~= before);
            Outcome::UnknownOutput
        }
    }

    /// River told something of an output. The tags of all views come as bytes
    /// in the machine's byte order. If those cannot be read, nothing changes.
    pub fn output_status(&mut self, output: u64, event: OutputStatusEvent) -> (outcome: Outcome)
        ensures
            !old(self)@.river_outputs.contains_key(output) <==> outcome is UnknownOutput,
            outcome is UnknownOutput || outcome is Unreadable ==> final(self)@ == old(self)@,
            outcome matches Outcome::Repaint(repaint) ==> old(self)@.repaints(output, repaint@),
            outcome !is Nothing,
            outcome is Unreadable ==> (event matches OutputStatusEvent::ViewTags { bytes }
                && bytes@.len() > 0 && exists|told: &[u8]| #[trigger]
                crate::tags::cast_fails(told) && told@ == bytes@),
            outcome is Repaint ==> match event {
                OutputStatusEvent::FocusedTags { tags } => final(self)@
                    == old(self)@.status_changed(output, StatusChange::Focused(tags)),
                OutputStatusEvent::UrgentTags { tags } => final(self)@
                    == old(self)@.status_changed(output, StatusChange::Urgent(tags)),
                OutputStatusEvent::ViewTags { bytes } => {
                    &&& bytes@.len() % 4 == 0
                    &&& final(self)@ == old(self)@.status_changed(
                        output,
                        StatusChange::Used(
                            crate::tags::union_of(
                                crate::tags::words(bytes@, crate::tags::native_order()),
                            ),
                        ),
                    )
                },
                OutputStatusEvent::Layout => final(self)@ == old(self)@,
            },
    {
        if !self.river_outputs.contains_key(&output) {
            return Outcome::UnknownOutput;
        }
        let change = match event {
            OutputStatusEvent::FocusedTags { tags } => StatusChange::Focused(tags),
            OutputStatusEvent::UrgentTags { tags } => StatusChange::Urgent(tags),
            OutputStatusEvent::ViewTags { bytes } => match tags_in_use(bytes.as_slice()) {
                Ok(used) => StatusChange::Used(used),
                Err(_) => {
                    return Outcome::Unreadable;
                },
            },
            OutputStatusEvent::Layout => {
                assert(self@.status_changed(output, StatusChange::Nothing).river_outputs
                    =~= self@.river_outputs);
                StatusChange::Nothing
            },
        };
        self.change_status(output, change)
    }

    /// Whether a seat is on some output.
    pub fn is_seat_focused(&self, seat: u64) -> (focused: bool)
        ensures
            focused == self@.river_focus.contains_key(seat),
    {
        self.river_focus.contains_key(&seat)
    }

    /// River told something of a seat. A seat can focus a view only while it
    /// is on an output.
    pub fn seat_status(&mut self, seat: u64, event: SeatStatusEvent) -> (outcome: Outcome)
        requires
            event is FocusedView ==> old(self)@.river_focus.contains_key(seat),
        ensures
            final(self)@ == old(self)@.seat_status(seat, event),
            match outcome {
                Outcome::Nothing => event !is FocusedView,
                Outcome::UnknownOutput => {
                    &&& event is FocusedView
                    &&& !old(self)@.river_outputs.contains_key(old(self)@.river_focus[seat])
                },
                Outcome::Repaint(repaint) => {
                    let output = old(self)@.river_focus[seat];
                    &&& event is FocusedView
                    &&& old(self)@.river_outputs.contains_key(output)
                    &&& old(self)@.repaints(output, repaint@)
                },
                Outcome::Unreadable => false,
            },
    {
        match event {
            SeatStatusEvent::FocusedOutput { output } => {
                self.river_focus.insert(seat, output);
                Outcome::Nothing
            },
            SeatStatusEvent::UnfocusedOutput => {
                self.river_focus.remove(&seat);
                Outcome::Nothing
            },
            SeatStatusEvent::FocusedView { title } => {
                let focused: u64 = *self.river_focus.get(&seat).unwrap();
                let ghost before = self.river_outputs@;
                if let Some(mut status) = self.river_outputs.remove(&focused) {
                    status.view_title = title;
                    proof {
                        lemma_statuses_remove(before, focused);
                        lemma_statuses_insert(self.river_outputs@, focused, status);
                    }
                    self.river_outputs.insert(focused, status);
                    assert(self@.river_outputs =~= old(self)@.titled(
                        focused,
                        title@,
                    ).river_outputs);
                    Outcome::Repaint(self.viewports_on(focused))
                } else {
                    assert(self.river_outputs@ =~= before);
                    Outcome::UnknownOutput
                }
            },
            SeatStatusEvent::Mode => Outcome::Nothing,
        }
    }

    /// A seat gained a capability. Returns whether to take up its pointer.
    pub fn new_capability(&self, capability: Capability) -> (take: bool)
        ensures
            take == (capability == Capability::Pointer),
    {
        capability == Capability::Pointer
    }

    /// A frame is due.
    pub fn frame(&mut self, time: u32)
        ensures
            final(self)@ == (TaskbarState { time: Some(time as u64), ..old(self)@ }),
    {
        self.time = Some(time as u64);
    }
}

/// The surfaces of some viewports.
spec fn surfaces_in(viewports: Map<u64, Viewport>, ids: Seq<u64>) -> Set<u64> {
    ids.map_values(|id: u64| viewports[id].surface).to_set()
}

proof fn lemma_surfaces_in_push(viewports: Map<u64, Viewport>, ids: Seq<u64>, last: u64)
    ensures
        surfaces_in(viewports, ids.push(last)) == surfaces_in(viewports, ids).insert(
            viewports[last].surface,
        ),
{
    let surface = |id: u64| viewports[id].surface;
    assert(ids.push(last).map_values(surface) =~= ids.map_values(surface).push(
        viewports[last].surface,
    ));
    crate::keys::lemma_to_set_push(ids.map_values(surface), viewports[last].surface);
}

proof fn lemma_surfaces_in_all<S>(state: TaskbarState<S>, output: u64, ids: Seq<u64>)
    requires
        state.repaints(output, ids),
    ensures
        surfaces_in(state.viewports, ids) == state.surfaces_on(output),
{
    let surface = |id: u64| state.viewports[id].surface;
    ids.lemma_to_set_map_commutes(surface);
    assert(surfaces_in(state.viewports, ids) =~= state.surfaces_on(output));
}

impl<S: Copy> Taskbar<S> {
    /// A fractional scale was given for an output. The viewports are visited
    /// in the order of the hash map, up to the first that is on another output.
    pub fn preferred_scale(&mut self, output: u64, scale: u32)
        ensures
            exists|order: Seq<u64>|
                {
                    &&& crate::keys::enumerates(order, old(self)@.viewports.dom())
                    &&& final(self)@ == #[trigger] old(self)@.preferred_scale(
                        order,
                        output,
                        Scale::Fraction(scale),
                    )
                },
    {
        let order = keys(&self.viewports);
        proof {
            assert forall|i: int| 0 <= i < order@.len() implies self@.viewports.contains_key(
                #[trigger] order@[i],
            ) by {
                assert(order@.to_set().contains(order@[i]));
            }
        }
        self.preferred_scale_in(order.as_slice(), output, scale);
    }

    /// Gives a fractional scale to the viewports on an output, visiting the
    /// viewports in `order` up to the first that is on another output.
    pub fn preferred_scale_in(&mut self, order: &[u64], output: u64, scale: u32)
        requires
            forall|i: int|
                0 <= i < order@.len() ==> old(self)@.viewports.contains_key(#[trigger] order@[i]),
        ensures
            final(self)@ == old(self)@.preferred_scale(order@, output, Scale::Fraction(scale)),
    {
        let ghost before = self@;
        let ghost given = Scale::Fraction(scale);
        assert(before.preferred_scale(order@.take(0), output, given).scales =~= before.scales);
        for i in 0..order.len()
            invariant
                before == old(self)@,
                given == Scale::Fraction(scale),
                forall|j: int|
                    0 <= j < order@.len() ==> before.viewports.contains_key(#[trigger] order@[j]),
                forall|j: int|
                    0 <= j < i ==> before.viewports[#[trigger] order@[j]].parent == output,
                self@ == before.preferred_scale(order@.take(i as int), output, given),
        {
            let id: u64 = order[i];
            let on_output: bool = match self.viewports.get(&id) {
                Some(viewport) => viewport.parent == output,
                None => false,
            };
            if !on_output {
                proof {
                    lemma_walk_ends(before, order@, output, given, i as int);
                }
                return;
            }
            proof {
                lemma_walk_goes_on(before, order@, output, given, i as int);
            }
            if self.scales.contains_key(&id) {
                self.scales.insert(id, Some(Scale::Fraction(scale)));
            }
            assert(self@.scales =~= before.preferred_scale(
                order@.take(i + 1),
                output,
                given,
            ).scales);
        }
        assert(order@.take(order.len() as int) =~= order@);
    }

    /// The scale of the viewport that a surface shows, where it is followed.
    pub fn scale_of(&self, surface: u64) -> (scale: Option<Scale>)
        ensures
            scale == if self@.surfaces.contains_key(surface) && self@.scales.contains_key(
                self@.surfaces[surface],
            ) {
                Some(scale_or_one(self@.scales[self@.surfaces[surface]]))
            } else {
                None
            },
    {
        match self.surfaces.get(&surface) {
            Some(id) => match self.scales.get(id) {
                Some(scale) => Some(scale.unwrap_or(Scale::Factor(1))),
                None => None,
            },
            None => None,
        }
    }

    /// A whole scale was given for a surface. It replaces whole scales only:
    /// `fraction_is_whole` tells of a fractional scale whether it is one.
    pub fn scale_factor_changed(&mut self, surface: u64, new_factor: i32, fraction_is_whole: bool)
        ensures
            final(self)@ == old(self)@.scale_factor_changed(
                surface,
                new_factor,
                fraction_is_whole,
            ),
    {
        let id: u64 = match self.surfaces.get(&surface) {
            Some(id) => *id,
            None => {
                return;
            },
        };
        let replace: bool = match self.scales.get(&id) {
            Some(Some(Scale::Fraction(_))) => fraction_is_whole,
            Some(_) => true,
            None => false,
        };
        if replace {
            self.scales.insert(id, Some(Scale::Factor(new_factor)));
        }
    }

    /// Notes pointer input. Returns the viewports to draw.
    pub fn pointer_frame(&mut self, events: &[PointerEvent<S>]) -> (repaint: Vec<u64>)
        requires
            crate::bar_input::known_buttons(events@),
        ensures
            final(self)@ == old(self)@.pointer_frame(events@),
            repaint@ == old(self)@.pointed_at(events@),
    {
        let ghost before = self@;
        let ghost told = events@.map_values(|event: PointerEvent<S>| event.bar_event());
        assert(before.events + told.take(0) =~= before.events);
        for i in 0..events.len()
            invariant
                crate::bar_input::known_buttons(events@),
                told == events@.map_values(|event: PointerEvent<S>| event.bar_event()),
                self@ == (TaskbarState { events: before.events + told.take(i as int), ..before }),
        {
            if let Some(event) = events[i].to_bar_event() {
                self.events.push(event);
                assert(self@.events =~= before.events + told.take(i + 1));
            }
        }
        assert(told.take(events.len() as int) =~= told);
        let interacted = interacted_surfaces(events);
        self.viewports_of(&interacted)
    }

    /// The viewports of those surfaces that show one, in order.
    fn viewports_of(&self, surfaces: &Vec<u64>) -> (ids: Vec<u64>)
        ensures
            ids@ == surfaces@.filter(
                |surface: u64| self@.surfaces.contains_key(surface),
            ).map_values(|surface: u64| self@.surfaces[surface]),
    {
        let mut ids: Vec<u64> = Vec::new();
        let ghost known = |surface: u64| self@.surfaces.contains_key(surface);
        let ghost shown = |surface: u64| self@.surfaces[surface];
        proof {
            reveal(Seq::filter);
            assert(ids@ =~= surfaces@.take(0).filter(known).map_values(shown));
        }
        for i in 0..surfaces.len()
            invariant
                known == (|surface: u64| self@.surfaces.contains_key(surface)),
                shown == (|surface: u64| self@.surfaces[surface]),
                ids@ == surfaces@.take(i as int).filter(known).map_values(shown),
        {
            proof {
                reveal(Seq::filter);
                assert(surfaces@.take(i + 1).drop_last() =~= surfaces@.take(i as int));
            }
            if let Some(id) = self.surfaces.get(&surfaces[i]) {
                ids.push(*id);
            }
            assert(ids@ =~= surfaces@.take(i + 1).filter(known).map_values(shown));
        }
        assert(surfaces@.take(surfaces.len() as int) =~= surfaces@);
        ids
    }

    /// A seat on an output, if there is one. If there are several, which one
    /// it is follows from the order of the hash map.
    pub fn seat_on(&self, output: u64) -> (seat: Option<u64>)
        ensures
            match seat {
                Some(seat) => self@.river_focus.contains_key(seat) && self@.river_focus[seat]
                    == output,
                None => forall|seat: u64| #[trigger]
                    self@.river_focus.contains_key(seat) ==> self@.river_focus[seat] != output,
            },
    {
        let order = keys(&self.river_focus);
        for i in 0..order.len()
            invariant
                crate::keys::enumerates(order@, self.river_focus@.dom()),
                forall|j: int| 0 <= j < i ==> self@.river_focus[#[trigger] order@[j]] != output,
        {
            let seat: u64 = order[i];
            assert(order@.to_set().contains(seat));
            if let Some(focused) = self.river_focus.get(&seat) {
                if *focused == output {
                    return Some(seat);
                }
            }
        }
        assert forall|seat: u64| #[trigger] self@.river_focus.contains_key(seat) implies
            self@.river_focus[seat] != output by {
            assert(order@.to_set().contains(seat));
            let j = choose|j: int| 0 <= j < order@.len() && order@[j] == seat;
            assert(self@.river_focus[order@[j]] != output);
        }
        None
    }

    /// The command for a click on the button of a tag on an output's bar: a
    /// seat on that output is to show that tag. Without such a seat there is
    /// no command.
    pub fn tag_clicked(&self, output: u64, tag: u32) -> (command: Option<SeatCommand>)
        requires
            tag < TAG_COUNT,
        ensures
            match command {
                Some(command) => {
                    &&& self@.river_focus.contains_key(command.seat)
                    &&& self@.river_focus[command.seat] == output
                    &&& command.arguments@.len() == 2
                    &&& command.arguments@[0]@ == "set-focused-tags"@
                    &&& command.arguments@[1]@ == crate::number::decimal((1u32 << tag) as nat)
                },
                None => forall|seat: u64| #[trigger]
                    self@.river_focus.contains_key(seat) ==> self@.river_focus[seat] != output,
            },
    {
        match self.seat_on(output) {
            Some(seat) => Some(SeatCommand { seat, arguments: focus_tag_arguments(tag) }),
            None => None,
        }
    }

    /// What is known of an output.
    pub fn status(&self, output: u64) -> (status: Option<&RiverOutputStatus>)
        ensures
            match status {
                Some(status) => {
                    &&& self@.river_outputs.contains_key(output)
                    &&& self@.river_outputs[output] == status@
                    &&& self@.river_outputs[output].used == status.used
                    &&& self@.river_outputs[output].focused == status.focused
                    &&& self@.river_outputs[output].urgent == status.urgent
                    &&& self@.river_outputs[output].view_title == status.view_title@
                },
                None => !self@.river_outputs.contains_key(output),
            },
    {
        self.river_outputs.get(&output)
    }

    /// Begins a draw of a viewport. The pending input is handed over and no
    /// longer pending, even if there is no such viewport.
    pub fn begin_frame(&mut self, viewport: u64) -> (start: Option<FrameStart<S>>)
        ensures
            final(self)@ == old(self)@.input_taken(),
            match start {
                Some(start) => {
                    &&& old(self)@.viewports.contains_key(viewport)
                    &&& start@ == old(self)@.frame_start(viewport)
                    &&& start.events@ == old(self)@.events
                    &&& start.time == old(self)@.time
                    &&& start.size == old(self)@.viewports[viewport].size
                    &&& start.visible <==> start.size.0 != 0 && start.size.1 != 0
                },
                None => !old(self)@.viewports.contains_key(viewport),
            },
    {
        let mut events: Vec<BarEvent<S>> = Vec::new();
        std::mem::swap(&mut self.events, &mut events);
        let size: (u32, u32) = match self.viewports.get(&viewport) {
            Some(found) => found.size,
            None => {
                return None;
            },
        };
        let scale: Scale = match self.scales.get(&viewport) {
            Some(scale) => scale.unwrap_or(Scale::Factor(1)),
            None => Scale::Factor(1),
        };
        Some(
            FrameStart {
                events,
                time: self.time,
                size,
                visible: size.0 > 0 && size.1 > 0,
                scale,
            },
        )
    }
}

/// A walk that stopped at a viewport on another output reaches nothing behind
/// it.
proof fn lemma_walk_ends<S>(
    state: TaskbarState<S>,
    order: Seq<u64>,
    output: u64,
    scale: Scale,
    i: int,
)
    requires
        0 <= i < order.len(),
        state.viewports[order[i]].parent != output,
    ensures
        state.preferred_scale(order.take(i), output, scale) == state.preferred_scale(
            order,
            output,
            scale,
        ),
{
    assert forall|id: u64| #[trigger]
        state.reached(order, output, id) == state.reached(order.take(i), output, id) by {
        if state.reached(order, output, id) {
            let at = choose|at: int|
                {
                    &&& 0 <= at < order.len()
                    &&& #[trigger] order[at] == id
                    &&& forall|j: int|
                        0 <= j <= at ==> state.viewports[#[trigger] order[j]].parent == output
                };
            assert(at < i);
            assert(order.take(i)[at] == id);
        }
        if state.reached(order.take(i), output, id) {
            let at = choose|at: int|
                {
                    &&& 0 <= at < i
                    &&& #[trigger] order.take(i)[at] == id
                    &&& forall|j: int|
                        0 <= j <= at ==> state.viewports[#[trigger] order.take(i)[j]].parent
                            == output
                };
            assert(order[at] == id);
            assert forall|j: int| 0 <= j <= at implies state.viewports[#[trigger] order[j]].parent
                == output by {
                assert(order.take(i)[j] == order[j]);
            }
        }
    }
    assert(state.preferred_scale(order.take(i), output, scale).scales =~= state.preferred_scale(
        order,
        output,
        scale,
    ).scales);
}

/// A walk over viewports on the output reaches all of them.
proof fn lemma_walk_goes_on<S>(
    state: TaskbarState<S>,
    order: Seq<u64>,
    output: u64,
    scale: Scale,
    i: int,
)
    requires
        0 <= i < order.len(),
        forall|j: int| 0 <= j <= i ==> state.viewports[#[trigger] order[j]].parent == output,
    ensures
        forall|id: u64| #[trigger]
            state.reached(order.take(i + 1), output, id) <==> state.reached(
                order.take(i),
                output,
                id,
            ) || id == order[i],
{
    assert forall|id: u64| #[trigger]
        state.reached(order.take(i + 1), output, id) <==> state.reached(
            order.take(i),
            output,
            id,
        ) || id == order[i] by {
        let longer = order.take(i + 1);
        let shorter = order.take(i);
        if state.reached(longer, output, id) && id != order[i] {
            let at = choose|at: int|
                {
                    &&& 0 <= at < longer.len()
                    &&& #[trigger] longer[at] == id
                    &&& forall|j: int|
                        0 <= j <= at ==> state.viewports[#[trigger] longer[j]].parent == output
                };
            assert(shorter[at] == id);
        }
        if state.reached(shorter, output, id) {
            let at = choose|at: int|
                {
                    &&& 0 <= at < shorter.len()
                    &&& #[trigger] shorter[at] == id
                    &&& forall|j: int|
                        0 <= j <= at ==> state.viewports[#[trigger] shorter[j]].parent == output
                };
            assert(longer[at] == id);
        }
        if id == order[i] {
            assert(longer[i] == id);
        }
    }
}

/// Viewports and surfaces are paired before anything happened.
pub proof fn initial_is_consistent<S>(root: u64)
    ensures
        TaskbarState::<S>::initial(root).consistent(),
{
}

/// A new output on a new surface and a new viewport keeps the pairs.
pub proof fn new_output_keeps_pairs<S>(
    state: TaskbarState<S>,
    output: u64,
    surface: u64,
    viewport: u64,
)
    requires
        state.consistent(),
        !state.surfaces.contains_key(surface),
        !state.viewports.contains_key(viewport),
    ensures
        state.new_output(output, surface, viewport).consistent(),
{
    let next = state.new_output(output, surface, viewport);
    assert forall|id: u64| #[trigger] next.viewports.contains_key(id) implies {
        &&& next.surfaces.contains_key(next.viewports[id].surface)
        &&& next.surfaces[next.viewports[id].surface] == id
    } by {
        assert(id != viewport ==> state.viewports.contains_key(id));
    }
    assert forall|known: u64| #[trigger] next.surfaces.contains_key(known) implies {
        &&& next.viewports.contains_key(next.surfaces[known])
        &&& next.viewports[next.surfaces[known]].surface == known
    } by {
        assert(known != surface ==> state.surfaces.contains_key(known));
    }
}

/// Whatever else happens keeps the pairs.
pub proof fn events_keep_pairs<S>(
    state: TaskbarState<S>,
    output: u64,
    surface: u64,
    size: (u32, u32),
    change: StatusChange,
    seat: u64,
    seat_event: SeatStatusEvent,
    order: Seq<u64>,
    scale: Scale,
    factor: i32,
    fraction_is_whole: bool,
    events: Seq<PointerEvent<S>>,
)
    requires
        state.consistent(),
    ensures
        state.output_destroyed(output).consistent(),
        state.configure(surface, size).consistent(),
        state.status_changed(output, change).consistent(),
        state.seat_status(seat, seat_event).consistent(),
        state.preferred_scale(order, output, scale).consistent(),
        state.scale_factor_changed(surface, factor, fraction_is_whole).consistent(),
        state.pointer_frame(events).consistent(),
        state.input_taken().consistent(),
{
    let gone = state.output_destroyed(output);
    assert forall|id: u64| #[trigger] gone.viewports.contains_key(id) implies {
        &&& gone.surfaces.contains_key(gone.viewports[id].surface)
        &&& gone.surfaces[gone.viewports[id].surface] == id
    } by {
        assert(state.viewports.contains_key(id));
        lemma_surface_stays(state, output, id);
    }
    assert forall|known: u64| #[trigger] gone.surfaces.contains_key(known) implies {
        &&& gone.viewports.contains_key(gone.surfaces[known])
        &&& gone.viewports[gone.surfaces[known]].surface == known
    } by {
        assert(state.surfaces.contains_key(known));
        let id = state.surfaces[known];
        if state.viewports_on(output).contains(id) {
            assert(state.surfaces_on(output).contains(state.viewports[id].surface));
        }
    }
    let sized = state.configure(surface, size);
    assert forall|id: u64| #[trigger] sized.viewports.contains_key(id) implies {
        &&& sized.surfaces.contains_key(sized.viewports[id].surface)
        &&& sized.surfaces[sized.viewports[id].surface] == id
    } by {
        assert(state.viewports.contains_key(id));
    }
    assert forall|known: u64| #[trigger] sized.surfaces.contains_key(known) implies {
        &&& sized.viewports.contains_key(sized.surfaces[known])
        &&& sized.viewports[sized.surfaces[known]].surface == known
    } by {
        assert(state.surfaces.contains_key(known));
    }
}

/// The surface of a viewport on another output is not one of the output's.
proof fn lemma_surface_stays<S>(state: TaskbarState<S>, output: u64, id: u64)
    requires
        state.consistent(),
        state.viewports.contains_key(id),
        state.viewports[id].parent != output,
    ensures
        !state.surfaces_on(output).contains(state.viewports[id].surface),
{
    let surface = state.viewports[id].surface;
    if state.surfaces_on(output).contains(surface) {
        let other = choose|other: u64|
            state.viewports_on(output).contains(other) && surface
                == state.viewports[other].surface;
        assert(state.viewports.contains_key(other));
        assert(state.surfaces[surface] == other);
    }
}

/// When an output is gone, nothing of it is left but what river told of it,
/// and everything on other outputs is as before.
pub proof fn destroyed_outputs_leave_nothing<S>(state: TaskbarState<S>, output: u64)
    requires
        state.consistent(),
    ensures
        ({
            let next = state.output_destroyed(output);
            &&& next.viewports_on(output) == Set::<u64>::empty()
            &&& forall|id: u64|
                state.viewports_on(output).contains(id) ==> !next.scales.contains_key(id)
                    && !next.surfaces.contains_key(#[trigger] state.viewports[id].surface)
            &&& forall|id: u64| #[trigger]
                state.viewports.contains_key(id) && state.viewports[id].parent != output ==> {
                    &&& next.viewports.contains_key(id)
                    &&& next.viewports[id] == state.viewports[id]
                    &&& next.surfaces.contains_key(state.viewports[id].surface)
                    &&& next.surfaces[state.viewports[id].surface] == id
                    &&& next.scales.contains_key(id) == state.scales.contains_key(id)
                    &&& next.scales.contains_key(id) ==> next.scales[id] == state.scales[id]
                }
            &&& next.river_outputs == state.river_outputs
            &&& next.river_focus == state.river_focus
        }),
{
    let next = state.output_destroyed(output);
    assert(next.viewports_on(output) =~= Set::<u64>::empty());
    assert forall|id: u64| state.viewports_on(output).contains(id) implies !next.scales.contains_key(
        id,
    ) && !next.surfaces.contains_key(#[trigger] state.viewports[id].surface) by {
        assert(state.surfaces_on(output).contains(state.viewports[id].surface));
    }
    assert forall|id: u64| #[trigger]
        state.viewports.contains_key(id) && state.viewports[id].parent != output implies {
        &&& next.viewports.contains_key(id)
        &&& next.viewports[id] == state.viewports[id]
        &&& next.surfaces.contains_key(state.viewports[id].surface)
        &&& next.surfaces[state.viewports[id].surface] == id
        &&& next.scales.contains_key(id) == state.scales.contains_key(id)
        &&& next.scales.contains_key(id) ==> next.scales[id] == state.scales[id]
    } by {
        lemma_surface_stays(state, output, id);
    }
}

/// An output that comes and goes leaves behind that nothing was told of it.
pub proof fn output_comes_and_goes<S>(
    state: TaskbarState<S>,
    output: u64,
    surface: u64,
    viewport: u64,
)
    requires
        !state.surfaces.contains_key(surface),
        !state.viewports.contains_key(viewport),
        !state.scales.contains_key(viewport),
        forall|id: u64| #[trigger]
            state.viewports.contains_key(id) ==> state.viewports[id].parent != output,
    ensures
        state.new_output(output, surface, viewport).output_destroyed(output) == (TaskbarState {
            river_outputs: state.river_outputs.insert(output, StatusState::unknown()),
            ..state
        }),
{
    let there = state.new_output(output, surface, viewport);
    let gone = there.output_destroyed(output);
    assert(there.viewports_on(output) =~= Set::empty().insert(viewport));
    assert forall|known: u64| #[trigger]
        there.surfaces_on(output).contains(known) <==> known == surface by {
        if known == surface {
            assert(there.viewports_on(output).contains(viewport));
        }
    }
    assert(gone.viewports =~= state.viewports);
    assert(gone.surfaces =~= state.surfaces);
    assert(gone.scales =~= state.scales);
}

/// A fractional scale for one output never touches viewports on another, in
/// whichever order the viewports are visited. If all viewports are on the
/// output, all whose scale is followed take it.
pub proof fn scales_stay_on_their_output<S>(
    state: TaskbarState<S>,
    order: Seq<u64>,
    output: u64,
    scale: Scale,
)
    requires
        crate::keys::enumerates(order, state.viewports.dom()),
    ensures
        ({
            let next = state.preferred_scale(order, output, scale);
            &&& next.scales.dom() == state.scales.dom()
            &&& forall|id: u64| #[trigger]
                next.scales.contains_key(id) && !state.viewports_on(output).contains(id)
                    ==> next.scales[id] == state.scales[id]
            &&& state.viewports_on(output) == state.viewports.dom() ==> forall|id: u64| #[trigger]
                next.scales.contains_key(id) && state.viewports_on(output).contains(id)
                    ==> next.scales[id] == Some(scale)
        }),
{
    let next = state.preferred_scale(order, output, scale);
    assert(next.scales.dom() =~= state.scales.dom());
    assert forall|id: u64| #[trigger]
        next.scales.contains_key(id) && !state.viewports_on(output).contains(id) implies
        next.scales[id] == state.scales[id] by {
        if state.reached(order, output, id) {
            let at = choose|at: int|
                {
                    &&& 0 <= at < order.len()
                    &&& #[trigger] order[at] == id
                    &&& forall|j: int|
                        0 <= j <= at ==> state.viewports[#[trigger] order[j]].parent == output
                };
            assert(order.to_set().contains(order[at]));
        }
    }
    if state.viewports_on(output) == state.viewports.dom() {
        assert forall|id: u64| #[trigger]
            next.scales.contains_key(id) && state.viewports_on(output).contains(id) implies
            next.scales[id] == Some(scale) by {
            assert(order.to_set().contains(id));
            let at = choose|at: int| 0 <= at < order.len() && order[at] == id;
            assert forall|j: int| 0 <= j <= at implies state.viewports[#[trigger] order[j]].parent
                == output by {
                assert(order.to_set().contains(order[j]));
                assert(state.viewports_on(output).contains(order[j]));
            }
            assert(order[at] == id);
            assert(state.reached(order, output, id));
        }
    }
}

/// A whole scale does not displace one with a fraction.
pub proof fn fractions_are_not_displaced<S>(state: TaskbarState<S>, surface: u64, factor: i32)
    requires
        state.surfaces.contains_key(surface),
        state.scales.contains_key(state.surfaces[surface]),
        scale_or_one(state.scales[state.surfaces[surface]]) is Fraction,
    ensures
        state.scale_factor_changed(surface, factor, false) == state,
{
}

/// Of whole scales, the last one given counts.
pub proof fn last_whole_scale_counts<S>(
    state: TaskbarState<S>,
    surface: u64,
    first: i32,
    second: i32,
)
    requires
        state.surfaces.contains_key(surface),
        state.scales.contains_key(state.surfaces[surface]),
        scale_or_one(state.scales[state.surfaces[surface]]) is Factor,
    ensures
        ({
            let next = state.scale_factor_changed(surface, second, false);
            &&& state.scale_factor_changed(surface, first, false).scale_factor_changed(
                surface,
                second,
                false,
            ) == next
            &&& next.scales[state.surfaces[surface]] == Some(Scale::Factor(second))
        }),
{
    assert(state.scale_factor_changed(surface, first, false).scale_factor_changed(
        surface,
        second,
        false,
    ).scales =~= state.scale_factor_changed(surface, second, false).scales);
}

/// The title that a seat's focused view has is shown on the output that the
/// seat is on, and on no other.
pub proof fn titles_go_to_the_focused_output<S>(
    state: TaskbarState<S>,
    seat: u64,
    output: u64,
    title: String,
)
    requires
        state.river_outputs.contains_key(output),
    ensures
        ({
            let next = state.seat_status(
                seat,
                SeatStatusEvent::FocusedOutput { output },
            ).seat_status(seat, SeatStatusEvent::FocusedView { title });
            &&& next.river_outputs[output].view_title == title@
            &&& next.river_outputs.remove(output) == state.river_outputs.remove(output)
            &&& next.viewports == state.viewports
        }),
{
    let next = state.seat_status(seat, SeatStatusEvent::FocusedOutput { output }).seat_status(
        seat,
        SeatStatusEvent::FocusedView { title },
    );
    assert(next.river_outputs.remove(output) =~= state.river_outputs.remove(output));
}

/// A seat that leaves the output that it came to is where it was before: on
/// none.
pub proof fn unfocusing_undoes_focusing<S>(state: TaskbarState<S>, seat: u64, output: u64)
    requires
        !state.river_focus.contains_key(seat),
    ensures
        state.seat_status(seat, SeatStatusEvent::FocusedOutput { output }).seat_status(
            seat,
            SeatStatusEvent::UnfocusedOutput,
        ) == state,
{
    assert(state.river_focus.insert(seat, output).remove(seat) =~= state.river_focus);
}

/// What river tells of one output changes nothing that is known of another,
/// and of two changes of the same kind the second counts.
pub proof fn status_changes_are_separate<S>(
    state: TaskbarState<S>,
    output: u64,
    change: StatusChange,
    first: u32,
    second: u32,
)
    requires
        state.river_outputs.contains_key(output),
    ensures
        state.status_changed(output, change).river_outputs.remove(output)
            == state.river_outputs.remove(output),
        state.status_changed(output, change).river_outputs[output]
            == state.river_outputs[output].changed(change),
        state.status_changed(output, StatusChange::Focused(first)).status_changed(
            output,
            StatusChange::Focused(second),
        ) == state.status_changed(output, StatusChange::Focused(second)),
        state.status_changed(output, StatusChange::Urgent(first)).status_changed(
            output,
            StatusChange::Urgent(second),
        ) == state.status_changed(output, StatusChange::Urgent(second)),
        state.status_changed(output, StatusChange::Used(first)).status_changed(
            output,
            StatusChange::Used(second),
        ) == state.status_changed(output, StatusChange::Used(second)),
{
    assert(state.status_changed(output, change).river_outputs.remove(output)
        =~= state.river_outputs.remove(output));
    assert(state.status_changed(output, StatusChange::Focused(first)).status_changed(
        output,
        StatusChange::Focused(second),
    ).river_outputs =~= state.status_changed(
        output,
        StatusChange::Focused(second),
    ).river_outputs);
    assert(state.status_changed(output, StatusChange::Urgent(first)).status_changed(
        output,
        StatusChange::Urgent(second),
    ).river_outputs =~= state.status_changed(output, StatusChange::Urgent(second)).river_outputs);
    assert(state.status_changed(output, StatusChange::Used(first)).status_changed(
        output,
        StatusChange::Used(second),
    ).river_outputs =~= state.status_changed(output, StatusChange::Used(second)).river_outputs);
}

/// Input is handed to one draw only, in the order in which it came, and with
/// what came before it.
pub proof fn input_is_handed_over_once<S>(
    state: TaskbarState<S>,
    events: Seq<PointerEvent<S>>,
    viewport: u64,
    other: u64,
)
    ensures
        state.pointer_frame(events).frame_start(viewport).events == state.events
            + events.map_values(|event: PointerEvent<S>| event.bar_event()),
        state.pointer_frame(events).input_taken().frame_start(other).events == Seq::<
            BarEvent<S>,
        >::empty(),
        state.pointer_frame(events).input_taken() == state.input_taken(),
{
}

/// Two pointer frames one after the other leave the input of one that holds
/// the events of both.
pub proof fn pointer_frames_add_up<S>(
    state: TaskbarState<S>,
    first: Seq<PointerEvent<S>>,
    second: Seq<PointerEvent<S>>,
)
    ensures
        state.pointer_frame(first).pointer_frame(second) == state.pointer_frame(first + second),
{
    assert(state.pointer_frame(first).pointer_frame(second).events =~= state.pointer_frame(
        first + second,
    ).events);
}

/// Where viewports and surfaces are paired, pointer input asks only for draws
/// of viewports that there are.
pub proof fn pointed_at_viewports_exist<S>(
    state: TaskbarState<S>,
    events: Seq<PointerEvent<S>>,
    i: int,
)
    requires
        state.consistent(),
        0 <= i < state.pointed_at(events).len(),
    ensures
        state.viewports.contains_key(state.pointed_at(events)[i]),
{
    let known = |surface: u64| state.surfaces.contains_key(surface);
    let surfaces = crate::bar_input::dedup(crate::bar_input::surfaces_of(events));
    surfaces.lemma_filter_pred(known, i);
    assert(state.surfaces.contains_key(surfaces.filter(known)[i]));
}

/// A new bar has no area. Its first configure has it drawn, and once it has a
/// height a further configure does not.
pub proof fn first_configure_draws<S>(
    state: TaskbarState<S>,
    output: u64,
    surface: u64,
    viewport: u64,
    size: (u32, u32),
)
    ensures
        ({
            let there = state.new_output(output, surface, viewport);
            let sized = there.configure(surface, size);
            &&& !there.frame_start(viewport).visible
            &&& there.configured(surface) == Some(Configured { viewport, first_draw: true })
            &&& sized.configured(surface) == Some(
                Configured { viewport, first_draw: size.1 == 0 },
            )
            &&& sized.frame_start(viewport).size == size
            &&& sized.frame_start(viewport).visible <==> size.0 > 0 && size.1 > 0
        }),
{
}

/// The bar of a new output is the one that is drawn when river tells something
/// of the output, and the bars of other outputs are drawn as before.
pub proof fn bars_follow_their_output<S>(
    state: TaskbarState<S>,
    output: u64,
    surface: u64,
    viewport: u64,
    other: u64,
)
    requires
        !state.viewports.contains_key(viewport),
        other != output,
    ensures
        ({
            let there = state.new_output(output, surface, viewport);
            &&& there.viewports_on(output) == state.viewports_on(output).insert(viewport)
            &&& there.viewports_on(other) == state.viewports_on(other)
        }),
{
    let there = state.new_output(output, surface, viewport);
    assert(there.viewports_on(output) =~= state.viewports_on(output).insert(viewport));
    assert(there.viewports_on(other) =~= state.viewports_on(other));
}

/// Before anything happened nothing is known, no input is pending, and only the
/// toolkit's own viewport has its scale followed.
pub proof fn nothing_is_known_at_first<S>(root: u64, id: u64)
    ensures
        ({
            let state = TaskbarState::<S>::initial(root);
            &&& !state.viewports.contains_key(id)
            &&& !state.surfaces.contains_key(id)
            &&& !state.river_outputs.contains_key(id)
            &&& !state.river_focus.contains_key(id)
            &&& state.scales.contains_key(id) <==> id == root
            &&& state.scales[root] is None
            &&& state.time is None
            &&& state.events.len() == 0
        }),
{
}

/// A viewport is on an output exactly if there is such a viewport and the
/// output is its parent, and a surface is exactly if it is such a viewport's.
pub proof fn viewports_are_on_their_parent<S>(
    state: TaskbarState<S>,
    output: u64,
    id: u64,
    surface: u64,
)
    ensures
        state.viewports_on(output).contains(id) <==> state.viewports.contains_key(id)
            && state.viewports[id].parent == output,
        state.surfaces_on(output).contains(surface) <==> exists|other: u64| #[trigger]
            state.viewports.contains_key(other) && state.viewports[other].parent == output
                && state.viewports[other].surface == surface,
{
    if state.surfaces_on(output).contains(surface) {
        let other = choose|other: u64|
            state.viewports_on(output).contains(other) && surface
                == state.viewports[other].surface;
        assert(state.viewports.contains_key(other));
    }
    if exists|other: u64| #[trigger]
        state.viewports.contains_key(other) && state.viewports[other].parent == output
            && state.viewports[other].surface == surface {
        let other = choose|other: u64| #[trigger]
            state.viewports.contains_key(other) && state.viewports[other].parent == output
                && state.viewports[other].surface == surface;
        assert(state.viewports_on(output).contains(other));
    }
}

/// Those to draw for an output are its viewports, each once.
pub proof fn repaints_are_the_viewports<S>(
    state: TaskbarState<S>,
    output: u64,
    repaint: Seq<u64>,
    id: u64,
)
    requires
        state.repaints(output, repaint),
    ensures
        repaint.contains(id) <==> state.viewports.contains_key(id) && state.viewports[id].parent
            == output,
        repaint.no_duplicates(),
{
    assert(repaint.to_set().contains(id) == repaint.contains(id));
}

/// A new output brings a viewport, its surface and a blank status, and nothing
/// else changes: no seat, no scale, no input, no time.
pub proof fn new_outputs_bring_only_their_own<S>(
    state: TaskbarState<S>,
    output: u64,
    surface: u64,
    viewport: u64,
)
    ensures
        ({
            let next = state.new_output(output, surface, viewport);
            &&& next.surfaces.contains_key(surface)
            &&& next.surfaces[surface] == viewport
            &&& next.surfaces.remove(surface) == state.surfaces.remove(surface)
            &&& next.viewports.contains_key(viewport)
            &&& next.viewports[viewport].parent == output
            &&& next.viewports[viewport].surface == surface
            &&& next.viewports[viewport].size == (40u32, 0u32)
            &&& next.viewports.remove(viewport) == state.viewports.remove(viewport)
            &&& next.river_outputs.contains_key(output)
            &&& next.river_outputs[output].used == 0
            &&& next.river_outputs[output].focused == 0
            &&& next.river_outputs[output].urgent == 0
            &&& next.river_outputs[output].view_title.len() == 0
            &&& next.river_outputs.remove(output) == state.river_outputs.remove(output)
            &&& next.river_focus == state.river_focus
            &&& next.scales == state.scales
            &&& next.time == state.time
            &&& next.events == state.events
        }),
{
    let next = state.new_output(output, surface, viewport);
    assert(next.surfaces.remove(surface) =~= state.surfaces.remove(surface));
    assert(next.viewports.remove(viewport) =~= state.viewports.remove(viewport));
    assert(next.river_outputs.remove(output) =~= state.river_outputs.remove(output));
}

/// A destroyed output takes the viewports on it, their scales and their
/// surfaces, and nothing else. What river told of it, the seats, the time and
/// the input stay.
pub proof fn destroyed_outputs_take_only_their_own<S>(
    state: TaskbarState<S>,
    output: u64,
    id: u64,
    surface: u64,
)
    ensures
        ({
            let next = state.output_destroyed(output);
            let gone = state.viewports.contains_key(id) && state.viewports[id].parent == output;
            let lost = exists|other: u64| #[trigger]
                state.viewports.contains_key(other) && state.viewports[other].parent == output
                    && state.viewports[other].surface == surface;
            &&& next.viewports.contains_key(id) <==> state.viewports.contains_key(id) && !gone
            &&& next.viewports.contains_key(id) ==> next.viewports[id] == state.viewports[id]
            &&& next.scales.contains_key(id) <==> state.scales.contains_key(id) && !gone
            &&& next.scales.contains_key(id) ==> next.scales[id] == state.scales[id]
            &&& next.surfaces.contains_key(surface) <==> state.surfaces.contains_key(surface)
                && !lost
            &&& next.surfaces.contains_key(surface) ==> next.surfaces[surface]
                == state.surfaces[surface]
            &&& next.river_outputs == state.river_outputs
            &&& next.river_focus == state.river_focus
            &&& next.time == state.time
            &&& next.events == state.events
        }),
{
    viewports_are_on_their_parent(state, output, id, surface);
}

/// A configure gives the viewport of a known surface its size and changes
/// nothing else. It asks for a draw exactly if the viewport had no height.
/// A surface that shows no viewport is passed over.
pub proof fn configuring_changes_only_the_size<S>(
    state: TaskbarState<S>,
    surface: u64,
    size: (u32, u32),
)
    ensures
        ({
            let next = state.configure(surface, size);
            let id = state.surfaces[surface];
            let shown = state.surfaces.contains_key(surface) && state.viewports.contains_key(id);
            &&& shown ==> {
                &&& next.viewports.contains_key(id)
                &&& next.viewports[id].size == size
                &&& next.viewports[id].parent == state.viewports[id].parent
                &&& next.viewports[id].surface == state.viewports[id].surface
                &&& next.viewports.remove(id) == state.viewports.remove(id)
                &&& state.configured(surface) matches Some(configured)
                &&& configured.viewport == id
                &&& configured.first_draw <==> state.viewports[id].size.1 == 0
            }
            &&& !shown ==> next == state && state.configured(surface) is None
            &&& next.surfaces == state.surfaces
            &&& next.river_outputs == state.river_outputs
            &&& next.river_focus == state.river_focus
            &&& next.scales == state.scales
            &&& next.time == state.time
            &&& next.events == state.events
        }),
{
    let next = state.configure(surface, size);
    let id = state.surfaces[surface];
    assert(next.viewports.remove(id) =~= state.viewports.remove(id));
}

/// A change to what is known of an output goes to the field that it is about
/// and leaves the other fields. The title is never touched by tags.
pub proof fn changes_go_to_their_field(status: StatusState, tags: u32)
    ensures
        status.changed(StatusChange::Focused(tags)).focused == tags,
        status.changed(StatusChange::Focused(tags)).urgent == status.urgent,
        status.changed(StatusChange::Focused(tags)).used == status.used,
        status.changed(StatusChange::Focused(tags)).view_title == status.view_title,
        status.changed(StatusChange::Urgent(tags)).urgent == tags,
        status.changed(StatusChange::Urgent(tags)).focused == status.focused,
        status.changed(StatusChange::Urgent(tags)).used == status.used,
        status.changed(StatusChange::Urgent(tags)).view_title == status.view_title,
        status.changed(StatusChange::Used(tags)).used == tags,
        status.changed(StatusChange::Used(tags)).focused == status.focused,
        status.changed(StatusChange::Used(tags)).urgent == status.urgent,
        status.changed(StatusChange::Used(tags)).view_title == status.view_title,
        status.changed(StatusChange::Nothing) == status,
{
}

/// What river tells of an output touches only what is known of that output, and
/// nothing at all where the output is not known.
pub proof fn statuses_change_nothing_else<S>(
    state: TaskbarState<S>,
    output: u64,
    change: StatusChange,
    title: Seq<char>,
)
    ensures
        ({
            let next = state.status_changed(output, change);
            let named = state.titled(output, title);
            &&& state.river_outputs.contains_key(output) ==> {
                &&& next.river_outputs.contains_key(output)
                &&& next.river_outputs[output] == state.river_outputs[output].changed(change)
                &&& next.river_outputs.remove(output) == state.river_outputs.remove(output)
                &&& named.river_outputs.contains_key(output)
                &&& named.river_outputs[output].view_title == title
                &&& named.river_outputs[output].used == state.river_outputs[output].used
                &&& named.river_outputs[output].focused == state.river_outputs[output].focused
                &&& named.river_outputs[output].urgent == state.river_outputs[output].urgent
                &&& named.river_outputs.remove(output) == state.river_outputs.remove(output)
            }
            &&& !state.river_outputs.contains_key(output) ==> next == state && named == state
            &&& next.viewports == state.viewports && named.viewports == state.viewports
            &&& next.surfaces == state.surfaces && named.surfaces == state.surfaces
            &&& next.river_focus == state.river_focus && named.river_focus == state.river_focus
            &&& next.scales == state.scales && named.scales == state.scales
            &&& next.time == state.time && named.time == state.time
            &&& next.events == state.events && named.events == state.events
        }),
{
    let next = state.status_changed(output, change);
    let named = state.titled(output, title);
    assert(next.river_outputs.remove(output) =~= state.river_outputs.remove(output));
    assert(named.river_outputs.remove(output) =~= state.river_outputs.remove(output));
}

/// A seat's output changes only by that seat's coming to an output or leaving
/// one: any other event leaves all seats where they are, and those two leave
/// all other seats.
pub proof fn seats_move_only_by_themselves<S>(
    state: TaskbarState<S>,
    seat: u64,
    event: SeatStatusEvent,
)
    ensures
        ({
            let next = state.seat_status(seat, event);
            &&& event !is FocusedOutput && event !is UnfocusedOutput ==> next.river_focus
                == state.river_focus
            &&& event matches SeatStatusEvent::FocusedOutput { output } ==> {
                &&& next.river_focus.contains_key(seat)
                &&& next.river_focus[seat] == output
            }
            &&& event is UnfocusedOutput ==> !next.river_focus.contains_key(seat)
            &&& next.river_focus.remove(seat) == state.river_focus.remove(seat)
        }),
{
    let next = state.seat_status(seat, event);
    assert(next.river_focus.remove(seat) =~= state.river_focus.remove(seat));
}

/// What river tells of a seat changes only where the seat is or, for a focused
/// view, the title of the output that it is on. A mode changes nothing.
pub proof fn seats_change_nothing_else<S>(
    state: TaskbarState<S>,
    seat: u64,
    event: SeatStatusEvent,
)
    ensures
        ({
            let next = state.seat_status(seat, event);
            &&& event is Mode ==> next == state
            &&& event is FocusedOutput || event is UnfocusedOutput ==> next.river_outputs
                == state.river_outputs
            &&& event matches SeatStatusEvent::FocusedView { title } ==> {
                let output = state.river_focus[seat];
                &&& next.river_outputs.dom() == state.river_outputs.dom()
                &&& next.river_outputs.remove(output) == state.river_outputs.remove(output)
                &&& state.river_outputs.contains_key(output) ==> {
                    &&& next.river_outputs[output].view_title == title@
                    &&& next.river_outputs[output].used == state.river_outputs[output].used
                    &&& next.river_outputs[output].focused == state.river_outputs[output].focused
                    &&& next.river_outputs[output].urgent == state.river_outputs[output].urgent
                }
            }
            &&& next.viewports == state.viewports
            &&& next.surfaces == state.surfaces
            &&& next.scales == state.scales
            &&& next.time == state.time
            &&& next.events == state.events
        }),
{
    if let SeatStatusEvent::FocusedView { title } = event {
        let next = state.seat_status(seat, event);
        let output = state.river_focus[seat];
        assert(next.river_outputs.dom() =~= state.river_outputs.dom());
        assert(next.river_outputs.remove(output) =~= state.river_outputs.remove(output));
    }
}

/// A viewport is reached by a walk exactly if it is the next one and all before
/// it are on the output too: a walk of one more step reaches one more viewport
/// if it has not ended before and that viewport is on the output.
pub proof fn walks_end_at_another_output<S>(
    state: TaskbarState<S>,
    order: Seq<u64>,
    next: u64,
    output: u64,
    id: u64,
)
    ensures
        !state.reached(Seq::<u64>::empty(), output, id),
        state.reached(order.push(next), output, id) <==> state.reached(order, output, id) || (id
            == next && state.viewports[next].parent == output && forall|j: int|
            0 <= j < order.len() ==> state.viewports[#[trigger] order[j]].parent == output),
{
    let longer = order.push(next);
    if state.reached(longer, output, id) {
        let at = choose|at: int|
            {
                &&& 0 <= at < longer.len()
                &&& #[trigger] longer[at] == id
                &&& forall|j: int|
                    0 <= j <= at ==> state.viewports[#[trigger] longer[j]].parent == output
            };
        assert forall|j: int| 0 <= j <= at && j < order.len() implies state.viewports[
            #[trigger] order[j]
        ].parent == output by {
            assert(longer[j] == order[j]);
        }
        if at < order.len() {
            assert(order[at] == id);
        }
    }
    if state.reached(order, output, id) {
        let at = choose|at: int|
            {
                &&& 0 <= at < order.len()
                &&& #[trigger] order[at] == id
                &&& forall|j: int|
                    0 <= j <= at ==> state.viewports[#[trigger] order[j]].parent == output
            };
        assert(longer[at] == id);
    }
    if id == next && state.viewports[next].parent == output && (forall|j: int|
        0 <= j < order.len() ==> state.viewports[#[trigger] order[j]].parent == output) {
        assert(longer[order.len() as int] == id);
    }
}

/// A fractional scale goes to the viewports that are reached and whose scale is
/// followed. Scales that are not followed do not become so, and nothing but
/// scales changes.
pub proof fn fractions_change_only_scales<S>(
    state: TaskbarState<S>,
    order: Seq<u64>,
    output: u64,
    scale: Scale,
    id: u64,
)
    ensures
        ({
            let next = state.preferred_scale(order, output, scale);
            &&& next.scales.contains_key(id) <==> state.scales.contains_key(id)
            &&& state.scales.contains_key(id) && state.reached(order, output, id) ==> next.scales[id]
                == Some(scale)
            &&& state.scales.contains_key(id) && !state.reached(order, output, id)
                ==> next.scales[id] == state.scales[id]
            &&& next.viewports == state.viewports
            &&& next.surfaces == state.surfaces
            &&& next.river_outputs == state.river_outputs
            &&& next.river_focus == state.river_focus
            &&& next.time == state.time
            &&& next.events == state.events
        }),
{
}

/// A whole scale goes to the viewport of its surface, if its scale is followed
/// and was not a fraction that is no whole number. Nothing else changes.
pub proof fn factors_change_only_their_scale<S>(
    state: TaskbarState<S>,
    surface: u64,
    factor: i32,
    fraction_is_whole: bool,
)
    ensures
        ({
            let next = state.scale_factor_changed(surface, factor, fraction_is_whole);
            let id = state.surfaces[surface];
            let followed = state.surfaces.contains_key(surface) && state.scales.contains_key(id);
            let fraction = state.scales[id] matches Some(Scale::Fraction(_));
            &&& followed && (!fraction || fraction_is_whole) ==> {
                &&& next.scales.contains_key(id)
                &&& next.scales[id] == Some(Scale::Factor(factor))
                &&& next.scales.remove(id) == state.scales.remove(id)
            }
            &&& !followed || (fraction && !fraction_is_whole) ==> next == state
            &&& next.viewports == state.viewports
            &&& next.surfaces == state.surfaces
            &&& next.river_outputs == state.river_outputs
            &&& next.river_focus == state.river_focus
            &&& next.time == state.time
            &&& next.events == state.events
        }),
{
    let next = state.scale_factor_changed(surface, factor, fraction_is_whole);
    let id = state.surfaces[surface];
    assert(next.scales.remove(id) =~= state.scales.remove(id));
}

/// Pointer input goes behind the pending input, one for each event, in order,
/// and nothing else changes.
pub proof fn pointer_frames_only_add_input<S>(
    state: TaskbarState<S>,
    events: Seq<PointerEvent<S>>,
    i: int,
)
    ensures
        ({
            let next = state.pointer_frame(events);
            let before = state.events.len();
            &&& next.events.len() == before + events.len()
            &&& 0 <= i < before ==> next.events[i] == state.events[i]
            &&& 0 <= i < events.len() ==> next.events[before + i] == events[i].bar_event()
            &&& next.viewports == state.viewports
            &&& next.surfaces == state.surfaces
            &&& next.river_outputs == state.river_outputs
            &&& next.river_focus == state.river_focus
            &&& next.scales == state.scales
            &&& next.time == state.time
        }),
{
}

/// One more event has the viewport of its surface drawn last, unless the event
/// before it was on the same surface or the surface shows no viewport.
pub proof fn events_draw_what_they_point_at<S>(
    state: TaskbarState<S>,
    events: Seq<PointerEvent<S>>,
    event: PointerEvent<S>,
)
    ensures
        state.pointed_at(Seq::<PointerEvent<S>>::empty()).len() == 0,
        state.pointed_at(events.push(event)) == if (events.len() > 0 && events.last().surface
            == event.surface) || !state.surfaces.contains_key(event.surface) {
            state.pointed_at(events)
        } else {
            state.pointed_at(events).push(state.surfaces[event.surface])
        },
{
    reveal(Seq::filter);
    let row = crate::bar_input::surfaces_of(events);
    assert(crate::bar_input::surfaces_of(Seq::<PointerEvent<S>>::empty()) =~= Seq::<u64>::empty());
    assert(crate::bar_input::surfaces_of(events.push(event)) =~= row.push(event.surface));
    crate::bar_input::dedup_keeps_the_order(row, event.surface);
    let kept = crate::bar_input::dedup(row);
    assert(kept.push(event.surface).drop_last() =~= kept);
    assert(state.pointed_at(events.push(event)) =~= if (events.len() > 0 && events.last().surface
        == event.surface) || !state.surfaces.contains_key(event.surface) {
        state.pointed_at(events)
    } else {
        state.pointed_at(events).push(state.surfaces[event.surface])
    });
}

/// A given scale counts, and one pixel per point where none was given.
pub proof fn scales_default_to_one(scale: Scale)
    ensures
        scale_or_one(Some(scale)) == scale,
        scale_or_one(None) == Scale::Factor(1),
{
}

/// A draw takes all pending input and nothing else.
pub proof fn drawing_takes_only_the_input<S>(state: TaskbarState<S>)
    ensures
        state.input_taken().events.len() == 0,
        state.input_taken().viewports == state.viewports,
        state.input_taken().surfaces == state.surfaces,
        state.input_taken().river_outputs == state.river_outputs,
        state.input_taken().river_focus == state.river_focus,
        state.input_taken().scales == state.scales,
        state.input_taken().time == state.time,
{
}

/// A draw is given the pending input, the last frame's time and the viewport's
/// own size and scale, which is one pixel per point where none was given. It is
/// visible exactly if it has an area.
pub proof fn draws_are_given_what_is_known<S>(state: TaskbarState<S>, viewport: u64)
    ensures
        ({
            let start = state.frame_start(viewport);
            &&& start.events == state.events
            &&& start.time == state.time
            &&& start.size == state.viewports[viewport].size
            &&& start.visible <==> start.size.0 != 0 && start.size.1 != 0
            &&& !state.scales.contains_key(viewport) || state.scales[viewport] is None
                ==> start.scale == Scale::Factor(1)
            &&& state.scales.contains_key(viewport) && state.scales[viewport] is Some
                ==> Some(start.scale) == state.scales[viewport]
        }),
{
}

} // verus!
