use vstd::prelude::*;
use crate::input::{map_button, renderer_button};
use crate::text::{decimal, decimal_text, ends_with, text_ends_with};

verus! {

// ---------------------------------------------------------------------------
// Queued renderer input
// ---------------------------------------------------------------------------

/// The queue after one more event: a pointer move that follows a pointer move
/// replaces it, anything else is appended. Entries pair an event with whether
/// it is a pointer move.
pub open spec fn pushed<E>(entries: Seq<(E, bool)>, event: E, pointer_move: bool) -> Seq<(E, bool)> {
    if pointer_move && entries.len() > 0 && entries.last().1 {
        entries.drop_last().push((event, true))
    } else {
        entries.push((event, pointer_move))
    }
}

/// The queue that a run of pushes builds from an empty one.
pub open spec fn coalesced<E>(inputs: Seq<(E, bool)>) -> Seq<(E, bool)>
    decreases inputs.len(),
{
    if inputs.len() == 0 {
        Seq::empty()
    } else {
        pushed(coalesced(inputs.drop_last()), inputs.last().0, inputs.last().1)
    }
}

/// The events of a queue that are not pointer moves, in order.
pub open spec fn actions<E>(entries: Seq<(E, bool)>) -> Seq<E>
    decreases entries.len(),
{
    if entries.len() == 0 {
        Seq::empty()
    } else if entries.last().1 {
        actions(entries.drop_last())
    } else {
        actions(entries.drop_last()).push(entries.last().0)
    }
}

/// No two neighbouring entries are both pointer moves.
pub open spec fn moves_apart<E>(entries: Seq<(E, bool)>) -> bool {
    forall|i: int| 0 <= i && i + 1 < entries.len() ==> !(#[trigger] entries[i].1 && entries[i + 1].1)
}

/// Renderer input events waiting for the next frame.
pub struct PendingInput<E> {
    events: Vec<E>,
    moves: Vec<bool>,
}

impl<E> View for PendingInput<E> {
    type V = Seq<(E, bool)>;

    closed spec fn view(&self) -> Seq<(E, bool)> {
        Seq::new(self.events.len() as nat, |i: int| (self.events[i], self.moves[i]))
    }
}

impl<E> PendingInput<E> {
    /// The event and move flag lists have the same length.
    #[verifier::type_invariant]
    spec fn wf(self) -> bool {
        self.events.len() == self.moves.len()
    }

    pub fn new() -> (pending: Self)
        ensures
            pending@ == Seq::<(E, bool)>::empty(),
    {
        let pending = PendingInput { events: Vec::new(), moves: Vec::new() };
        assert(pending@ =~= Seq::<(E, bool)>::empty());
        pending
    }

    /// Takes the queue's two lists out, leaving it empty.
    fn take_lists(&mut self) -> (lists: (Vec<E>, Vec<bool>))
        ensures
            lists.0.len() == lists.1.len(),
            lists.0@ == old(self).events@,
            lists.1@ == old(self).moves@,
            final(self)@ == Seq::<(E, bool)>::empty(),
    {
        proof {
            use_type_invariant(&*self);
        }
        let mut taken = PendingInput { events: Vec::new(), moves: Vec::new() };
        std::mem::swap(&mut taken, self);
        assert(self@ =~= Seq::<(E, bool)>::empty());
        proof {
            use_type_invariant(&taken);
        }
        let PendingInput { events, moves } = taken;
        (events, moves)
    }

    /// Queues an event; `pointer_move` says whether it is a pointer move,
    /// which replaces a pointer move queued just before it.
    pub fn push(&mut self, event: E, pointer_move: bool)
        ensures
            final(self)@ == pushed(old(self)@, event, pointer_move),
    {
        let ghost before = self@;
        let (mut events, mut moves) = self.take_lists();
        let n = moves.len();
        let replace = pointer_move && n > 0 && moves[n - 1];
        if replace {
            events.pop();
            events.push(event);
        } else {
            events.push(event);
            moves.push(pointer_move);
        }
        *self = PendingInput { events, moves };
        proof {
            if replace {
                assert(self@ =~= before.drop_last().push((event, true)));
            } else {
                assert(self@ =~= before.push((event, pointer_move)));
            }
        }
    }

    /// Hands out the queued events in order and leaves the queue empty.
    pub fn drain(&mut self) -> (events: Vec<E>)
        ensures
            final(self)@ == Seq::<(E, bool)>::empty(),
            events@ == old(self)@.map_values(|entry: (E, bool)| entry.0),
    {
        let ghost before = self@;
        let (events, _moves) = self.take_lists();
        assert(events@ =~= before.map_values(|entry: (E, bool)| entry.0));
        events
    }

    /// Drops every queued event.
    pub fn clear(&mut self)
        ensures
            final(self)@ == Seq::<(E, bool)>::empty(),
    {
        let _ = self.take_lists();
    }
}

proof fn lemma_pushed_actions<E>(entries: Seq<(E, bool)>, event: E, pointer_move: bool)
    ensures
        actions(pushed(entries, event, pointer_move)) == (if pointer_move {
            actions(entries)
        } else {
            actions(entries).push(event)
        }),
{
    let after = pushed(entries, event, pointer_move);
    if pointer_move && entries.len() > 0 && entries.last().1 {
        assert(after.drop_last() =~= entries.drop_last());
    } else {
        assert(after.drop_last() =~= entries);
    }
}

/// Pointer moves are the only events that queueing ever drops: whatever the
/// events pushed, the queue keeps every other event, in order.
pub proof fn lemma_actions_are_never_discarded<E>(inputs: Seq<(E, bool)>)
    ensures
        actions(coalesced(inputs)) == actions(inputs),
    decreases inputs.len(),
{
    if inputs.len() > 0 {
        lemma_actions_are_never_discarded(inputs.drop_last());
        lemma_pushed_actions(coalesced(inputs.drop_last()), inputs.last().0, inputs.last().1);
    }
}

/// Consecutive pointer moves are coalesced: the queue never holds two pointer
/// moves side by side, and its newest entry is always the newest event.
pub proof fn lemma_moves_are_coalesced<E>(inputs: Seq<(E, bool)>)
    ensures
        moves_apart(coalesced(inputs)),
        inputs.len() > 0 ==> coalesced(inputs).len() > 0 && coalesced(inputs).last() == inputs.last(),
    decreases inputs.len(),
{
    if inputs.len() > 0 {
        lemma_moves_are_coalesced(inputs.drop_last());
        let before = coalesced(inputs.drop_last());
        let after = coalesced(inputs);
        assert forall|i: int| 0 <= i && i + 1 < after.len() implies !(#[trigger] after[i].1 && after[i + 1].1) by {
            assert(after[i] == before[i]);
            if i + 1 < before.len() - 1 || (i + 1 < before.len() && after.len() > before.len()) {
                assert(after[i + 1] == before[i + 1]);
            }
        }
    }
}

// ---------------------------------------------------------------------------
// Pointer focus and buttons
// ---------------------------------------------------------------------------

/// A pointer event for the renderer at a renderer position `P`; buttons are
/// renderer indices (left 0, middle 1, right 2).
#[derive(Debug, Clone, Copy, PartialEq)]
pub enum PointerEvent<P> {
    Focus(bool),
    Move(P),
    Down(P, usize),
    Up(P, usize),
    Wheel(P, i32, i32),
}

/// What the pointer state knows: focus, the last renderer position and which
/// of the three buttons are held.
pub struct PointerModel<P> {
    pub focused: bool,
    pub position: Option<P>,
    pub left: bool,
    pub middle: bool,
    pub right: bool,
}

impl<P> PointerModel<P> {
    pub open spec fn is_pressed(self, button: int) -> bool {
        if button == 0 {
            self.left
        } else if button == 1 {
            self.middle
        } else if button == 2 {
            self.right
        } else {
            false
        }
    }

    pub open spec fn with_pressed(self, button: int, pressed: bool) -> PointerModel<P> {
        PointerModel {
            left: if button == 0 { pressed } else { self.left },
            middle: if button == 1 { pressed } else { self.middle },
            right: if button == 2 { pressed } else { self.right },
            ..self
        }
    }

    pub open spec fn with_position(self, position: Option<P>) -> PointerModel<P> {
        PointerModel { position: if position is Some { position } else { self.position }, ..self }
    }

    /// Nothing focused, held or known.
    pub open spec fn released() -> PointerModel<P> {
        PointerModel { focused: false, position: None, left: false, middle: false, right: false }
    }
}

/// The releases of the held buttons at `position`, in button order; none
/// where no position is known.
pub open spec fn releases<P>(position: Option<P>, state: PointerModel<P>) -> Seq<PointerEvent<P>> {
    match position {
        None => Seq::empty(),
        Some(p) => (if state.left { seq![PointerEvent::Up(p, 0usize)] } else { Seq::empty() })
            + (if state.middle { seq![PointerEvent::Up(p, 1usize)] } else { Seq::empty() })
            + (if state.right { seq![PointerEvent::Up(p, 2usize)] } else { Seq::empty() }),
    }
}

/// What leaving the surface reports: the releases of the held buttons at the
/// current position (or the last known one), then the loss of focus.
pub open spec fn leave_events<P>(state: PointerModel<P>, current: Option<P>) -> Seq<PointerEvent<P>> {
    let position = if current is Some { current } else { state.position };
    releases(position, state) + (if state.focused {
        seq![PointerEvent::Focus(false)]
    } else {
        Seq::empty()
    })
}

/// The focus and button state of the pointer over the wallpaper surface.
/// Positions come in already mapped to renderer coordinates (`current` is the
/// pointer's surface position mapped through the present geometry, where
/// that mapping exists).
pub struct PointerInputState<P> {
    focused: bool,
    renderer_position: Option<P>,
    left: bool,
    middle: bool,
    right: bool,
}

impl<P> View for PointerInputState<P> {
    type V = PointerModel<P>;

    closed spec fn view(&self) -> PointerModel<P> {
        PointerModel {
            focused: self.focused,
            position: self.renderer_position,
            left: self.left,
            middle: self.middle,
            right: self.right,
        }
    }
}

impl<P: Copy> PointerInputState<P> {
    pub fn new() -> (state: Self)
        ensures
            state@ == PointerModel::<P>::released(),
    {
        PointerInputState { focused: false, renderer_position: None, left: false, middle: false, right: false }
    }

    pub fn focused(&self) -> (focused: bool)
        ensures
            focused == self@.focused,
    {
        self.focused
    }

    /// Whether the button with this renderer index is held.
    pub fn is_pressed(&self, button: usize) -> (pressed: bool)
        ensures
            pressed == self@.is_pressed(button as int),
    {
        if button == 0 {
            self.left
        } else if button == 1 {
            self.middle
        } else if button == 2 {
            self.right
        } else {
            false
        }
    }

    fn set_pressed(&mut self, button: usize, pressed: bool)
        ensures
            final(self)@ == old(self)@.with_pressed(button as int, pressed),
    {
        if button == 0 {
            self.left = pressed;
        } else if button == 1 {
            self.middle = pressed;
        } else if button == 2 {
            self.right = pressed;
        }
    }

    fn note_position(&mut self, current: Option<P>)
        ensures
            final(self)@ == old(self)@.with_position(current),
    {
        if current.is_some() {
            self.renderer_position = current;
        }
    }

    /// The pointer enters the surface: focus is reported once, then the move
    /// to the entry position.
    pub fn enter(&mut self, mapped: Option<P>) -> (events: Vec<PointerEvent<P>>)
        ensures
            final(self)@ == (PointerModel { focused: true, ..old(self)@ }).with_position(mapped),
            events@ == (if old(self)@.focused {
                Seq::<PointerEvent<P>>::empty()
            } else {
                seq![PointerEvent::Focus(true)]
            }) + (match mapped {
                Some(p) => seq![PointerEvent::Move(p)],
                None => Seq::<PointerEvent<P>>::empty(),
            }),
    {
        let mut events: Vec<PointerEvent<P>> = Vec::new();
        if !self.focused {
            self.focused = true;
            events.push(PointerEvent::Focus(true));
        }
        let ghost first = events@;
        if let Some(event) = self.move_to(mapped) {
            events.push(event);
        }
        proof {
            match mapped {
                Some(p) => assert(events@ =~= first + seq![PointerEvent::Move(p)]),
                None => assert(events@ =~= first + Seq::<PointerEvent<P>>::empty()),
            }
        }
        events
    }

    /// The pointer moves; only a focused pointer with a mapped position
    /// reports it.
    pub fn move_to(&mut self, mapped: Option<P>) -> (event: Option<PointerEvent<P>>)
        ensures
            !old(self)@.focused ==> event is None && final(self)@ == old(self)@,
            old(self)@.focused ==> final(self)@ == old(self)@.with_position(mapped) && event == (match mapped {
                Some(p) => Some(PointerEvent::Move(p)),
                None => None,
            }),
    {
        if !self.focused {
            return None;
        }
        match mapped {
            Some(p) => {
                self.renderer_position = Some(p);
                Some(PointerEvent::Move(p))
            },
            None => None,
        }
    }

    /// A Linux button changes state. A press needs a current position; a
    /// release falls back to the last known one and clears the button either
    /// way. Unfocused pointers, unknown buttons and repeated states report
    /// nothing.
    pub fn button(&mut self, linux_button: u32, pressed: bool, current: Option<P>) -> (event: Option<PointerEvent<P>>)
        ensures
            ({
                let before = old(self)@;
                match renderer_button(linux_button) {
                    None => event is None && final(self)@ == before,
                    Some(b) => if !before.focused || before.is_pressed(b as int) == pressed {
                        event is None && final(self)@ == before
                    } else if pressed {
                        match current {
                            None => event is None && final(self)@ == before,
                            Some(p) => event == Some(PointerEvent::Down(p, b))
                                && final(self)@ == before.with_position(current).with_pressed(b as int, true),
                        }
                    } else {
                        let position = if current is Some { current } else { before.position };
                        final(self)@ == before.with_position(current).with_pressed(b as int, false)
                            && event == (match position {
                                Some(p) => Some(PointerEvent::Up(p, b)),
                                None => None,
                            })
                    },
                }
            }),
    {
        if !self.focused {
            return None;
        }
        let button = match map_button(linux_button) {
            Some(button) => button,
            None => return None,
        };
        if self.is_pressed(button) == pressed {
            return None;
        }
        if pressed {
            match current {
                Some(p) => {
                    self.note_position(current);
                    self.set_pressed(button, true);
                    Some(PointerEvent::Down(p, button))
                },
                None => None,
            }
        } else {
            self.note_position(current);
            let position = self.renderer_position;
            self.set_pressed(button, false);
            match position {
                Some(p) => Some(PointerEvent::Up(p, button)),
                None => None,
            }
        }
    }

    /// A pointer frame ends with these wheel deltas: a focused pointer with a
    /// current position reports a wheel event unless both deltas are zero.
    pub fn finish_wheel(&mut self, delta_x: i32, delta_y: i32, current: Option<P>) -> (event: Option<PointerEvent<P>>)
        ensures
            !old(self)@.focused || (delta_x == 0 && delta_y == 0) ==> event is None && final(self)@ == old(self)@,
            old(self)@.focused && !(delta_x == 0 && delta_y == 0) ==> final(self)@ == old(self)@.with_position(current)
                && event == (match current {
                    Some(p) => Some(PointerEvent::Wheel(p, delta_x, delta_y)),
                    None => None,
                }),
    {
        if !self.focused || (delta_x == 0 && delta_y == 0) {
            return None;
        }
        self.note_position(current);
        match current {
            Some(p) => Some(PointerEvent::Wheel(p, delta_x, delta_y)),
            None => None,
        }
    }

    /// The pointer leaves the surface: every held button is released and
    /// focus is lost; nothing is remembered.
    pub fn leave(&mut self, current: Option<P>) -> (events: Vec<PointerEvent<P>>)
        ensures
            final(self)@ == PointerModel::<P>::released(),
            events@ == leave_events(old(self)@, current),
    {
        let ghost before = self@;
        let position = if current.is_some() { current } else { self.renderer_position };
        let mut events: Vec<PointerEvent<P>> = Vec::new();
        if let Some(p) = position {
            if self.left {
                events.push(PointerEvent::Up(p, 0));
            }
            if self.middle {
                events.push(PointerEvent::Up(p, 1));
            }
            if self.right {
                events.push(PointerEvent::Up(p, 2));
            }
        }
        assert(events@ =~= releases(position, before));
        if self.focused {
            events.push(PointerEvent::Focus(false));
        }
        assert(events@ =~= leave_events(before, current));
        self.clear();
        events
    }

    /// Forgets focus, position and held buttons.
    pub fn clear(&mut self)
        ensures
            final(self)@ == PointerModel::<P>::released(),
    {
        self.focused = false;
        self.renderer_position = None;
        self.left = false;
        self.middle = false;
        self.right = false;
    }
}

/// Leaving the surface releases every held button wherever a position is
/// known, and reports the loss of focus last.
pub proof fn lemma_leave_releases_every_held_button<P>(state: PointerModel<P>, current: Option<P>, button: int)
    requires
        0 <= button < 3,
        state.is_pressed(button),
        current is Some || state.position is Some,
    ensures
        ({
            let p = if current is Some { current->0 } else { state.position->0 };
            leave_events(state, current).contains(PointerEvent::Up(p, button as usize))
        }),
        state.focused ==> leave_events(state, current).last() == PointerEvent::<P>::Focus(false),
{
    let position = if current is Some { current } else { state.position };
    let p = position->0;
    let r = releases(position, state);
    let events = leave_events(state, current);
    let a: Seq<PointerEvent<P>> = if state.left { seq![PointerEvent::Up(p, 0usize)] } else { Seq::empty() };
    let b: Seq<PointerEvent<P>> = if state.middle { seq![PointerEvent::Up(p, 1usize)] } else { Seq::empty() };
    let c: Seq<PointerEvent<P>> = if state.right { seq![PointerEvent::Up(p, 2usize)] } else { Seq::empty() };
    assert(r == a + b + c);
    let target = PointerEvent::Up(p, button as usize);
    if button == 0 {
        assert(events[0] == target);
    } else if button == 1 {
        assert(events[a.len() as int] == target);
    } else {
        assert(events[(a.len() + b.len()) as int] == target);
    }
}

/// The output whose surface the pointer is on: outputs are named with their
/// surface's protocol id at the end, and the first name that ends with the
/// id in decimal is taken.
pub open spec fn output_of_surface(names: Seq<String>, surface_id: u32) -> Option<int> {
    if exists|i: int| 0 <= i < names.len() && ends_with(names[i]@, decimal(surface_id as nat)) {
        Some(choose|i: int| 0 <= i < names.len() && ends_with(names[i]@, decimal(surface_id as nat))
            && forall|k: int| 0 <= k < i ==> !ends_with(names[k]@, decimal(surface_id as nat)))
    } else {
        None
    }
}

pub fn focused_output_index(names: &[String], surface_id: u32) -> (index: Option<usize>)
    ensures
        index == (match output_of_surface(names@, surface_id) {
            Some(i) => Some(i as usize),
            None => None,
        }),
{
    let suffix = decimal_text(surface_id as u64);
    let ghost d = decimal(surface_id as nat);
    for i in 0..names.len()
        invariant
            suffix@ == d,
            d == decimal(surface_id as nat),
            forall|k: int| 0 <= k < i ==> !ends_with(names@[k]@, d),
    {
        if text_ends_with(names[i].as_str(), suffix.as_str()) {
            proof {
                let w = i as int;
                let c = choose|j: int| 0 <= j < names@.len() && ends_with(names@[j]@, d)
                    && forall|k: int| 0 <= k < j ==> !ends_with(names@[k]@, d);
                assert(0 <= w < names@.len() && ends_with(names@[w]@, d)
                    && forall|k: int| 0 <= k < w ==> !ends_with(names@[k]@, d));
                assert(c == w) by {
                    if c < w {
                        assert(!ends_with(names@[c]@, d));
                    } else if c > w {
                        assert(!ends_with(names@[w]@, d));
                    }
                }
            }
            return Some(i);
        }
    }
    None
}

/// A move or a release with no mapped position keeps the last known renderer
/// position, and a mapped one replaces it: after any run of such steps a
/// release of a held button is reported where the pointer was last mapped.
pub proof fn lemma_unmapped_positions_keep_the_last_one<P>(state: PointerModel<P>, mapped: Option<P>, button: int)
    ensures
        state.with_position(None) == state,
        mapped matches Some(p) ==> state.with_position(mapped).position == Some(p),
        state.with_position(mapped).focused == state.focused,
        state.with_position(mapped).is_pressed(button) == state.is_pressed(button),
        state.with_position(mapped).position is None ==> state.position is None && mapped is None,
        state.with_pressed(button, false).position == state.position,
{
}

/// Pressing or releasing one of the three buttons changes that button
/// alone: it is then held exactly when pressed, every other button and the
/// focus and position stay as they were.
pub proof fn lemma_buttons_change_one_at_a_time<P>(state: PointerModel<P>, button: int, other: int, pressed: bool)
    requires
        0 <= button < 3,
        other != button,
    ensures
        state.with_pressed(button, pressed).is_pressed(button) == pressed,
        state.with_pressed(button, pressed).is_pressed(other) == state.is_pressed(other),
        state.with_pressed(button, pressed).focused == state.focused,
        state.with_pressed(button, pressed).position == state.position,
{
}

} // verus!
