//! Virtual keys, the window input the engine reads, and the keyboard binding
//! from physical keys to virtual ones.

use vstd::prelude::*;

verus! {

/// The engine's virtual keys.
#[derive(Clone, Copy, Debug, PartialEq, Eq, Hash, Structural)]
pub enum Key {
    A,
    B,
    C,
    X,
    Y,
    Z,
    Start,
    Select,
    Up,
    Down,
    Left,
    Right,
}

/// Whether a key went down or up.
#[derive(Clone, Copy, Debug, PartialEq, Eq, Hash, Structural)]
pub enum ElementState {
    Pressed,
    Released,
}

/// Physical keyboard keys that the engine reads; every other key is `Other`.
#[derive(Clone, Copy, Debug, PartialEq, Eq, Hash, Structural)]
pub enum KeyCode {
    A,
    B,
    C,
    D,
    E,
    F,
    G,
    H,
    I,
    J,
    K,
    L,
    M,
    N,
    O,
    P,
    Q,
    R,
    S,
    T,
    U,
    V,
    W,
    X,
    Y,
    Z,
    Up,
    Down,
    Left,
    Right,
    Return,
    Space,
    Escape,
    Other,
}

/// Window input as the engine sees it.
#[derive(Clone, Copy, Debug, PartialEq, Eq, Structural)]
pub enum InputEvent {
    /// A keyboard key changed state; the key is `None` when the window
    /// system could not name it.
    KeyboardInput(ElementState, Option<KeyCode>),
    /// The window gained (`true`) or lost focus.
    Focused(bool),
    /// The window was closed.
    Closed,
    /// Anything else.
    Other,
}

/// The virtual key a binding table gives a physical key: the first entry for
/// it, if any.
pub open spec fn lookup(bindings: Seq<(KeyCode, Key)>, code: KeyCode) -> Option<Key>
    decreases bindings.len(),
{
    if bindings.len() == 0 {
        None
    } else if bindings[0].0 == code {
        Some(bindings[0].1)
    } else {
        lookup(bindings.skip(1), code)
    }
}

/// The default keyboard binding.
pub open spec fn default_bindings() -> Seq<(KeyCode, Key)> {
    seq![
        (KeyCode::Up, Key::Up),
        (KeyCode::Down, Key::Down),
        (KeyCode::Left, Key::Left),
        (KeyCode::Right, Key::Right),
        (KeyCode::Return, Key::Start),
        (KeyCode::Space, Key::Select),
        (KeyCode::A, Key::A),
        (KeyCode::S, Key::B),
        (KeyCode::D, Key::C),
        (KeyCode::Z, Key::X),
        (KeyCode::X, Key::Y),
        (KeyCode::C, Key::Z),
    ]
}

/// Converts keyboard input into virtual keys.
pub struct KeyReader {
    bindings: Vec<(KeyCode, Key)>,
}

impl View for KeyReader {
    type V = Seq<(KeyCode, Key)>;

    closed spec fn view(&self) -> Seq<(KeyCode, Key)> {
        self.bindings@
    }
}

impl KeyReader {
    /// A reader with the default binding.
    pub fn new() -> (r: KeyReader)
        ensures
            r@ == default_bindings(),
    {
        let bindings = vec![
            (KeyCode::Up, Key::Up),
            (KeyCode::Down, Key::Down),
            (KeyCode::Left, Key::Left),
            (KeyCode::Right, Key::Right),
            (KeyCode::Return, Key::Start),
            (KeyCode::Space, Key::Select),
            (KeyCode::A, Key::A),
            (KeyCode::S, Key::B),
            (KeyCode::D, Key::C),
            (KeyCode::Z, Key::X),
            (KeyCode::X, Key::Y),
            (KeyCode::C, Key::Z),
        ];
        proof {
            assert(bindings@ =~= default_bindings());
        }
        KeyReader { bindings }
    }

    /// The virtual key bound to a physical key, if any.
    pub fn interpret_code(&self, e: &KeyCode) -> (r: Option<Key>)
        ensures
            r == lookup(self@, *e),
    {
        let mut i: usize = 0;
        proof {
            assert(self@.skip(0) =~= self@);
        }
        while i < self.bindings.len()
            invariant
                i <= self.bindings@.len(),
                lookup(self@, *e) == lookup(self@.skip(i as int), *e),
            decreases self.bindings.len() - i,
        {
            let (code, key) = self.bindings[i];
            proof {
                assert(self@.skip(i as int)[0] == self@[i as int]);
                assert(self@.skip(i as int).skip(1) =~= self@.skip(i + 1));
            }
            if code == *e {
                return Some(key);
            }
            i = i + 1;
        }
        None
    }

    /// The virtual key that a key press stands for; releases and other input
    /// stand for none.
    pub fn interpret_event(&self, e: &InputEvent) -> (r: Option<Key>)
        ensures
            r == match *e {
                InputEvent::KeyboardInput(ElementState::Pressed, Some(code)) => lookup(self@, code),
                _ => None,
            },
    {
        match e {
            InputEvent::KeyboardInput(ElementState::Pressed, Some(code)) => self.interpret_code(code),
            _ => None,
        }
    }
}

} // verus!
