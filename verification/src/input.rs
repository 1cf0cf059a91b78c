//! Discrete action signals: which keys are held, and which have just
//! changed.

use vstd::prelude::*;

verus! {

/// An action that a key stands for.
#[derive(Copy, Clone, Debug, PartialEq, Eq, Structural, Hash)]
pub enum InputKey {
    MoveFront,
    MoveLeft,
    MoveBack,
    MoveRight,
    MoveUp,
    MoveDown,
    CursorFree,
    FastMove,
    Mine,
    Fill,
    ChunkGeneration,
}

/// The number of actions.
pub const INPUT_KEY_COUNT: usize = 11;

/// What is known of a key: whether it is held, and whether that has
/// changed since the end of the last frame.
#[derive(Copy, Clone, Debug, PartialEq, Eq, Structural, Hash)]
pub enum InputState {
    Released,
    Pressed,
    JustPressed,
    JustReleased,
}

impl InputKey {
    /// The place of the key in the order of declaration.
    pub open spec fn spec_index(self) -> int {
        match self {
            InputKey::MoveFront => 0,
            InputKey::MoveLeft => 1,
            InputKey::MoveBack => 2,
            InputKey::MoveRight => 3,
            InputKey::MoveUp => 4,
            InputKey::MoveDown => 5,
            InputKey::CursorFree => 6,
            InputKey::FastMove => 7,
            InputKey::Mine => 8,
            InputKey::Fill => 9,
            InputKey::ChunkGeneration => 10,
        }
    }

    /// The place of the key in the order of declaration.
    pub fn index(self) -> (r: usize)
        ensures
            r == self.spec_index(),
            r < INPUT_KEY_COUNT,
    {
        match self {
            InputKey::MoveFront => 0,
            InputKey::MoveLeft => 1,
            InputKey::MoveBack => 2,
            InputKey::MoveRight => 3,
            InputKey::MoveUp => 4,
            InputKey::MoveDown => 5,
            InputKey::CursorFree => 6,
            InputKey::FastMove => 7,
            InputKey::Mine => 8,
            InputKey::Fill => 9,
            InputKey::ChunkGeneration => 10,
        }
    }
}

impl InputState {
    /// Whether the key is held.
    pub open spec fn held(self) -> bool {
        self == InputState::Pressed || self == InputState::JustPressed
    }

    /// The state after the key is reported as pressed.
    pub open spec fn after_press(self) -> InputState {
        match self {
            InputState::JustPressed => InputState::Pressed,
            InputState::Released | InputState::JustReleased => InputState::JustPressed,
            InputState::Pressed => InputState::Pressed,
        }
    }

    /// The state after the key is reported as released.
    pub open spec fn after_release(self) -> InputState {
        match self {
            InputState::JustReleased => InputState::Released,
            InputState::JustPressed | InputState::Pressed => InputState::JustReleased,
            InputState::Released => InputState::Released,
        }
    }

    /// The state at the end of a frame: what has just changed is now
    /// settled.
    pub open spec fn settled(self) -> InputState {
        match self {
            InputState::JustPressed => InputState::Pressed,
            InputState::JustReleased => InputState::Released,
            other => other,
        }
    }
}

/// The state of every key, and whether the window has the cursor.
pub struct GameInput {
    input_data: [InputState; 11],
    is_in_focus: bool,
}

impl GameInput {
    /// The state of each key, by its index.
    pub closed spec fn states(self) -> Seq<InputState> {
        self.input_data@
    }

    /// Whether the window has the cursor.
    pub closed spec fn in_focus(self) -> bool {
        self.is_in_focus
    }

    /// The state of `key`.
    pub open spec fn state_of(self, key: InputKey) -> InputState {
        self.states()[key.spec_index()]
    }

    /// Every key released, and the window in focus.
    pub fn new() -> (r: GameInput)
        ensures
            r.states().len() == INPUT_KEY_COUNT,
            forall|i: int| 0 <= i < INPUT_KEY_COUNT ==> r.states()[i] == InputState::Released,
            r.in_focus(),
    {
        GameInput { input_data: [InputState::Released; 11], is_in_focus: true }
    }

    /// Settles every key at the end of a frame.
    pub fn post_update(&mut self)
        ensures
            final(self).states().len() == INPUT_KEY_COUNT,
            forall|i: int|
                0 <= i < INPUT_KEY_COUNT ==> final(self).states()[i] == old(
                    self,
                ).states()[i].settled(),
            final(self).in_focus() == old(self).in_focus(),
    {
        let mut i: usize = 0;
        while i < INPUT_KEY_COUNT
            invariant
                i <= INPUT_KEY_COUNT,
                self.is_in_focus == old(self).is_in_focus,
                forall|j: int| 0 <= j < i ==> self.input_data@[j] == old(self).input_data@[j].settled(),
                forall|j: int| i <= j < INPUT_KEY_COUNT ==> self.input_data@[j] == old(self).input_data@[j],
            decreases INPUT_KEY_COUNT - i,
        {
            if self.input_data[i] == InputState::JustPressed {
                self.input_data[i] = InputState::Pressed;
            } else if self.input_data[i] == InputState::JustReleased {
                self.input_data[i] = InputState::Released;
            }
            i += 1;
        }
    }

    /// Takes in that `key` is pressed. Returns whether that changed the
    /// state of the key.
    pub fn press_key(&mut self, key: InputKey) -> (r: bool)
        ensures
            final(self).states() == old(self).states().update(
                key.spec_index(),
                old(self).state_of(key).after_press(),
            ),
            r == (old(self).state_of(key) != InputState::Pressed),
            final(self).in_focus() == old(self).in_focus(),
    {
        let index = key.index();
        match self.input_data[index] {
            InputState::JustPressed => {
                self.input_data[index] = InputState::Pressed;
                true
            },
            InputState::Released | InputState::JustReleased => {
                self.input_data[index] = InputState::JustPressed;
                true
            },
            InputState::Pressed => {
                assert(self.input_data@ =~= old(self).input_data@.update(
                    index as int,
                    InputState::Pressed,
                ));
                false
            },
        }
    }

    /// Takes in that `key` is released. Returns whether that changed the
    /// state of the key.
    pub fn release_key(&mut self, key: InputKey) -> (r: bool)
        ensures
            final(self).states() == old(self).states().update(
                key.spec_index(),
                old(self).state_of(key).after_release(),
            ),
            r == (old(self).state_of(key) != InputState::Released),
            final(self).in_focus() == old(self).in_focus(),
    {
        let index = key.index();
        match self.input_data[index] {
            InputState::JustReleased => {
                self.input_data[index] = InputState::Released;
                true
            },
            InputState::JustPressed | InputState::Pressed => {
                self.input_data[index] = InputState::JustReleased;
                true
            },
            InputState::Released => {
                assert(self.input_data@ =~= old(self).input_data@.update(
                    index as int,
                    InputState::Released,
                ));
                false
            },
        }
    }

    /// Takes in that `key` is pressed or released. Returns whether that
    /// changed the state of the key.
    pub fn handle_key_action(&mut self, key: InputKey, press: bool) -> (r: bool)
        ensures
            final(self).states() == old(self).states().update(
                key.spec_index(),
                if press {
                    old(self).state_of(key).after_press()
                } else {
                    old(self).state_of(key).after_release()
                },
            ),
            r == (old(self).state_of(key) != (if press {
                InputState::Pressed
            } else {
                InputState::Released
            })),
            final(self).in_focus() == old(self).in_focus(),
    {
        if press {
            self.press_key(key)
        } else {
            self.release_key(key)
        }
    }

    /// Takes in whether the window has the cursor.
    pub fn set_focus(&mut self, in_focus: bool)
        ensures
            final(self).in_focus() == in_focus,
            final(self).states() == old(self).states(),
    {
        self.is_in_focus = in_focus;
    }

    /// The state of `input`.
    pub fn get_input_state(&self, input: InputKey) -> (r: InputState)
        ensures
            r == self.state_of(input),
    {
        self.input_data[input.index()]
    }

    /// Whether `input` is held.
    pub fn is_pressed(&self, input: InputKey) -> (r: bool)
        ensures
            r == self.state_of(input).held(),
    {
        match self.get_input_state(input) {
            InputState::Pressed | InputState::JustPressed => true,
            _ => false,
        }
    }

    /// Whether `input` has been pressed since the end of the last frame.
    pub fn is_just_pressed(&self, input: InputKey) -> (r: bool)
        ensures
            r == (self.state_of(input) == InputState::JustPressed),
    {
        match self.get_input_state(input) {
            InputState::JustPressed => true,
            _ => false,
        }
    }

    /// Whether the window has the cursor.
    pub fn is_window_in_focus(&self) -> (r: bool)
        ensures
            r == self.in_focus(),
    {
        self.is_in_focus
    }
}

} // verus!
