//! The input decisions of the engine's two screens: the main game and the
//! pause overlay.

use vstd::prelude::*;
use crate::input::{ElementState, InputEvent, KeyCode};
use crate::state::{EventUpdate, Update};

verus! {

/// The answer asks the stack to pop the answering state.
pub open spec fn asks_pop<S, E>(r: EventUpdate<S, E>) -> bool {
    match r {
        EventUpdate::Update(Update::Pop) => true,
        _ => false,
    }
}

/// The answer stops the event with no mutation.
pub open spec fn halts<S, E>(r: EventUpdate<S, E>) -> bool {
    r is Halt
}

/// The input of the main game that closes it: the window closing, or
/// Escape released.
pub open spec fn closes_game(e: InputEvent) -> bool {
    match e {
        InputEvent::Closed => true,
        InputEvent::KeyboardInput(ElementState::Released, Some(KeyCode::Escape)) => true,
        _ => false,
    }
}

/// How the main game answers input: it pops itself when the window closes or
/// Escape is released, and stops every other event.
pub fn main_game_input<S, E>(e: &InputEvent) -> (r: EventUpdate<S, E>)
    ensures
        closes_game(*e) ==> asks_pop(r),
        !closes_game(*e) ==> halts(r),
{
    match e {
        InputEvent::Closed => EventUpdate::Update(Update::Pop),
        InputEvent::KeyboardInput(ElementState::Released, Some(KeyCode::Escape)) => {
            EventUpdate::Update(Update::Pop)
        },
        _ => EventUpdate::Halt,
    }
}

/// The input that ends the pause: P released.
pub open spec fn resumes(e: InputEvent) -> bool {
    e == InputEvent::KeyboardInput(ElementState::Released, Some(KeyCode::P))
}

/// The pause overlay.
pub struct PauseState {}

impl PauseState {
    pub fn new() -> (r: Box<PauseState>) {
        Box::new(PauseState {  })
    }

    pub fn name(&self) -> (r: &'static str)
        ensures
            r@ == "Pause"@,
    {
        proof {
            reveal_strlit("Pause");
        }
        "Pause"
    }

    /// The pause pops itself when P is released and stops every other event.
    pub fn process_input<S, E>(&mut self, e: &InputEvent) -> (r: EventUpdate<S, E>)
        ensures
            resumes(*e) ==> asks_pop(r),
            !resumes(*e) ==> halts(r),
    {
        match e {
            InputEvent::KeyboardInput(ElementState::Released, Some(KeyCode::P)) => {
                EventUpdate::Update(Update::Pop)
            },
            _ => EventUpdate::Halt,
        }
    }
}

} // verus!
