use crate::fraction::{clamped_ratio, Fraction, Ratio};
use crate::geometry::Size;
use vstd::prelude::*;

verus! {

/// Where a gesture stands: no button is held, or the primary button has
/// been held since a press inside the indicator.
#[derive(Clone, Copy, Debug, PartialEq, Eq, Structural)]
pub enum GestureState {
    Idle,
    Capturing,
}

/// The button of a press or a release.
#[derive(Clone, Copy, Debug, PartialEq, Eq, Structural)]
pub enum PointerButton {
    Primary,
    Secondary,
    Middle,
    Other,
}

/// What the pointer did, with its position relative to the top left corner
/// of the indicator. A release also says whether the pointer was over the
/// indicator at that moment, as the host sees it.
#[derive(Clone, Copy, Debug, PartialEq, Eq, Structural)]
pub enum PointerEvent {
    Press { x: i32, y: i32, button: PointerButton },
    Move { x: i32, y: i32 },
    Release { x: i32, y: i32, button: PointerButton, hovering: bool },
}

/// The state after `event`. A press of the primary button inside the
/// bounds starts a gesture, a release of the primary button ends it, and
/// nothing else changes the state.
pub open spec fn next_state(state: GestureState, event: PointerEvent, bounds: Size)
    -> GestureState {
    match event {
        PointerEvent::Press { x, y, button } => if state is Idle && button is Primary
            && bounds.covers(x as int, y as int) {
            GestureState::Capturing
        } else {
            state
        },
        PointerEvent::Move { .. } => state,
        PointerEvent::Release { button, .. } => if state is Capturing && button is Primary {
            GestureState::Idle
        } else {
            state
        },
    }
}

/// The seek request that `event` gives rise to, if any: the release that
/// ends a gesture over the indicator asks for the position of the pointer
/// as a proportion of the width, held within zero and one.
pub open spec fn seek_request(state: GestureState, event: PointerEvent, bounds: Size) -> Option<
    Ratio,
> {
    match event {
        PointerEvent::Release { x, button, hovering, .. } => if state is Capturing
            && button is Primary && hovering {
            Some(clamped_ratio(x as int, bounds.width as int))
        } else {
            None
        },
        _ => None,
    }
}

/// The state after a run of events, and the requests made on the way, in
/// order.
pub open spec fn run(state: GestureState, events: Seq<PointerEvent>, bounds: Size) -> (
    GestureState,
    Seq<Ratio>,
)
    decreases events.len(),
{
    if events.len() == 0 {
        (state, Seq::empty())
    } else {
        let (before, requests) = run(state, events.drop_last(), bounds);
        let event = events.last();
        (
            next_state(before, event, bounds),
            match seek_request(before, event, bounds) {
                Some(request) => requests.push(request),
                None => requests,
            },
        )
    }
}

/// A request is made only by the event that ends a gesture: before it the
/// button was held, after it none is. So a gesture makes at most one.
pub proof fn lemma_request_ends_gesture(state: GestureState, event: PointerEvent, bounds: Size)
    requires
        seek_request(state, event, bounds) is Some,
    ensures
        state is Capturing,
        next_state(state, event, bounds) is Idle,
        event is Release,
        seek_request(state, event, bounds)->0.in_unit_interval(),
{
}

/// A press of any button but the primary one changes nothing and asks for
/// nothing, whatever the state and wherever the pointer is.
pub proof fn lemma_other_button_ignored(state: GestureState, event: PointerEvent, bounds: Size)
    requires
        event is Press,
        !(event->Press_button is Primary),
    ensures
        next_state(state, event, bounds) == state,
        seek_request(state, event, bounds) is None,
{
}

/// While the pointer only moves, the state stays as it is and nothing is
/// asked for.
pub proof fn lemma_moves_are_silent(state: GestureState, moves: Seq<PointerEvent>, bounds: Size)
    requires
        forall|i: int| 0 <= i < moves.len() ==> (#[trigger] moves[i]) is Move,
    ensures
        run(state, moves, bounds) == (state, Seq::<Ratio>::empty()),
    decreases moves.len(),
{
    if moves.len() > 0 {
        let front = moves.drop_last();
        assert forall|i: int| 0 <= i < front.len() implies (#[trigger] front[i]) is Move by {
            assert(front[i] == moves[i]);
        }
        lemma_moves_are_silent(state, front, bounds);
        assert(moves.last() == moves[moves.len() - 1]);
    }
}

/// A run of events splits at any point: what follows starts in the state
/// that the first part ended in, and the requests of both parts follow one
/// another.
pub proof fn lemma_run_concat(
    state: GestureState,
    first: Seq<PointerEvent>,
    second: Seq<PointerEvent>,
    bounds: Size,
)
    ensures
        run(state, first + second, bounds).0 == run(
            run(state, first, bounds).0,
            second,
            bounds,
        ).0,
        run(state, first + second, bounds).1 == run(state, first, bounds).1 + run(
            run(state, first, bounds).0,
            second,
            bounds,
        ).1,
    decreases second.len(),
{
    let middle = run(state, first, bounds).0;
    if second.len() == 0 {
        assert(first + second =~= first);
        assert(run(state, first, bounds).1 + Seq::<Ratio>::empty() =~= run(
            state,
            first,
            bounds,
        ).1);
    } else {
        let all = first + second;
        assert(all.drop_last() =~= first + second.drop_last());
        assert(all.last() == second.last());
        lemma_run_concat(state, first, second.drop_last(), bounds);
        let before = run(middle, second.drop_last(), bounds);
        match seek_request(before.0, second.last(), bounds) {
            Some(request) => {
                assert((run(state, first, bounds).1 + before.1).push(request) =~= run(
                    state,
                    first,
                    bounds,
                ).1 + before.1.push(request));
            },
            None => {},
        }
    }
}

/// A press, any number of moves and no release ask for nothing: a gesture
/// that is never ended is lost without a trace.
pub proof fn lemma_unfinished_gesture(
    press: PointerEvent,
    moves: Seq<PointerEvent>,
    bounds: Size,
)
    requires
        press is Press,
        forall|i: int| 0 <= i < moves.len() ==> (#[trigger] moves[i]) is Move,
    ensures
        run(GestureState::Idle, seq![press] + moves, bounds).1 == Seq::<Ratio>::empty(),
        run(GestureState::Idle, seq![press] + moves, bounds).0 == next_state(
            GestureState::Idle,
            press,
            bounds,
        ),
{
    let start = seq![press];
    assert(start.drop_last() =~= Seq::<PointerEvent>::empty());
    assert(start.last() == press);
    assert(run(GestureState::Idle, start.drop_last(), bounds) == (
        GestureState::Idle,
        Seq::<Ratio>::empty(),
    ));
    let held = next_state(GestureState::Idle, press, bounds);
    assert(run(GestureState::Idle, start, bounds) == (held, Seq::<Ratio>::empty()));
    lemma_moves_are_silent(held, moves, bounds);
    lemma_run_concat(GestureState::Idle, start, moves, bounds);
    assert(Seq::<Ratio>::empty() + Seq::<Ratio>::empty() =~= Seq::<Ratio>::empty());
}

/// A press of the primary button inside the bounds, any number of moves
/// and a release of that button make one gesture. Released over the
/// indicator, it asks exactly once, for the place of the release as a
/// proportion of the width; released away from it, it asks for nothing.
/// Either way the controller is idle again.
pub proof fn lemma_gesture_outcome(
    press: PointerEvent,
    moves: Seq<PointerEvent>,
    release: PointerEvent,
    bounds: Size,
)
    requires
        press is Press,
        press->Press_button is Primary,
        bounds.covers(press->Press_x as int, press->Press_y as int),
        forall|i: int| 0 <= i < moves.len() ==> (#[trigger] moves[i]) is Move,
        release is Release,
        release->Release_button is Primary,
    ensures
        run(GestureState::Idle, seq![press] + moves + seq![release], bounds).0 is Idle,
        release->hovering ==> run(
            GestureState::Idle,
            seq![press] + moves + seq![release],
            bounds,
        ).1 == seq![clamped_ratio(release->Release_x as int, bounds.width as int)],
        !release->hovering ==> run(
            GestureState::Idle,
            seq![press] + moves + seq![release],
            bounds,
        ).1 == Seq::<Ratio>::empty(),
{
    let held = seq![press] + moves;
    let all = held + seq![release];
    lemma_unfinished_gesture(press, moves, bounds);
    assert(all.drop_last() =~= held);
    assert(all.last() == release);
    assert(run(GestureState::Idle, held, bounds).0 is Capturing);
    if release->hovering {
        assert(run(GestureState::Idle, all, bounds).1 =~= seq![
            clamped_ratio(release->Release_x as int, bounds.width as int),
        ]);
    }
}

/// The pointer state machine of the indicator. It owns the state of the
/// gesture and changes it only in `handle`.
#[derive(Debug)]
pub struct SeekController {
    state: GestureState,
}

impl View for SeekController {
    type V = GestureState;

    closed spec fn view(&self) -> GestureState {
        self.state
    }
}

impl SeekController {
    /// A controller with no gesture under way.
    pub fn new() -> (controller: SeekController)
        ensures
            controller@ is Idle,
    {
        SeekController { state: GestureState::Idle }
    }

    /// Whether the primary button is held since a press inside the
    /// indicator.
    pub fn is_capturing(&self) -> (held: bool)
        ensures
            held == (self@ is Capturing),
    {
        match self.state {
            GestureState::Capturing => true,
            GestureState::Idle => false,
        }
    }

    /// Takes one pointer event: moves to the next state and returns the
    /// seek request, if the event makes one. The caller hands the event on
    /// to what it wraps in either case.
    pub fn handle(&mut self, event: &PointerEvent, bounds: &Size) -> (request: Option<Fraction>)
        ensures
            final(self)@ == next_state(old(self)@, *event, *bounds),
            request is Some <==> seek_request(old(self)@, *event, *bounds) is Some,
            request matches Some(fraction) ==> Some(fraction@) == seek_request(
                old(self)@,
                *event,
                *bounds,
            ) && fraction@.in_unit_interval(),
    {
        let (next, request): (GestureState, Option<Fraction>) = step(self.state, event, bounds);
        self.state = next;
        request
    }
}

/// One transition of the pointer state machine: the state after `event`,
/// and the seek request that the event makes, if any.
pub fn step(state: GestureState, event: &PointerEvent, bounds: &Size) -> (outcome: (
    GestureState,
    Option<Fraction>,
))
    ensures
        outcome.0 == next_state(state, *event, *bounds),
        outcome.1 is Some <==> seek_request(state, *event, *bounds) is Some,
        outcome.1 matches Some(fraction) ==> Some(fraction@) == seek_request(
            state,
            *event,
            *bounds,
        ) && fraction@.in_unit_interval(),
{
    let capturing: bool = match state {
        GestureState::Capturing => true,
        GestureState::Idle => false,
    };
    match event {
        PointerEvent::Press { x, y, button } => {
            let primary: bool = match button {
                PointerButton::Primary => true,
                _ => false,
            };
            if !capturing && primary && bounds.contains(*x, *y) {
                (GestureState::Capturing, None)
            } else {
                (state, None)
            }
        },
        PointerEvent::Move { .. } => (state, None),
        PointerEvent::Release { x, button, hovering, .. } => {
            let primary: bool = match button {
                PointerButton::Primary => true,
                _ => false,
            };
            if capturing && primary {
                if *hovering {
                    (GestureState::Idle, Some(seek_fraction(*x, bounds.width)))
                } else {
                    (GestureState::Idle, None)
                }
            } else {
                (state, None)
            }
        },
    }
}

/// The position `x` as a proportion of `width`, held within zero and one;
/// zero for an indicator without width.
pub fn seek_fraction(x: i32, width: u32) -> (fraction: Fraction)
    ensures
        fraction@ == clamped_ratio(x as int, width as int),
        fraction@.in_unit_interval(),
{
    Fraction::clamped(x as i64, width)
}

} // verus!
