//! The state of the controls in one tick, and the key combinations that
//! trigger actions.
//!
//! The host engine reports which keys and buttons are down, and which went
//! down or came up in this tick. The configuration says which key drives
//! which action. From the two this module reads the state of every action.
use crate::config::Config;
use crate::keys::{KeyCode, MouseButton};
use crate::motion::{axis_of, axis_value, movement_intent};
use crate::single::Single;
use crate::vector::Vec2;
use vstd::prelude::*;

verus! {

/// The keys or buttons of one device in one tick, as the host engine reports
/// them.
#[derive(Clone, Debug)]
pub struct Input<T> {
    /// Those that are down.
    pub pressed: Vec<T>,
    /// Those that went down in this tick.
    pub just_pressed: Vec<T>,
    /// Those that came up in this tick.
    pub just_released: Vec<T>,
}

fn holds_key(keys: &Vec<KeyCode>, key: KeyCode) -> (r: bool)
    ensures
        r == keys@.contains(key),
{
    let mut i: usize = 0;
    while i < keys.len()
        invariant
            i <= keys.len(),
            forall|j: int| 0 <= j < i ==> keys@[j] != key,
        decreases keys.len() - i,
    {
        if keys[i] == key {
            return true;
        }
        i = i + 1;
    }
    false
}

fn holds_button(buttons: &Vec<MouseButton>, button: MouseButton) -> (r: bool)
    ensures
        r == buttons@.contains(button),
{
    let mut i: usize = 0;
    while i < buttons.len()
        invariant
            i <= buttons.len(),
            forall|j: int| 0 <= j < i ==> buttons@[j] != button,
        decreases buttons.len() - i,
    {
        if buttons[i] == button {
            return true;
        }
        i = i + 1;
    }
    false
}

impl<T> Input<T> {
    /// What the device reports of one of its keys or buttons.
    pub open spec fn button_of(self, input: T) -> Button {
        Button {
            pressed: self.pressed@.contains(input),
            just_pressed: self.just_pressed@.contains(input),
            just_released: self.just_released@.contains(input),
        }
    }
}

impl Input<KeyCode> {
    /// Whether the key is down.
    pub fn pressed(&self, input: KeyCode) -> (r: bool)
        ensures
            r == self.pressed@.contains(input),
    {
        holds_key(&self.pressed, input)
    }

    /// Whether the key went down in this tick.
    pub fn just_pressed(&self, input: KeyCode) -> (r: bool)
        ensures
            r == self.just_pressed@.contains(input),
    {
        holds_key(&self.just_pressed, input)
    }

    /// Whether the key came up in this tick.
    pub fn just_released(&self, input: KeyCode) -> (r: bool)
        ensures
            r == self.just_released@.contains(input),
    {
        holds_key(&self.just_released, input)
    }

    /// All that is reported of the key.
    pub fn button(&self, input: KeyCode) -> (r: Button)
        ensures
            r == self.button_of(input),
    {
        Button {
            pressed: self.pressed(input),
            just_pressed: self.just_pressed(input),
            just_released: self.just_released(input),
        }
    }
}

impl Input<MouseButton> {
    /// Whether the button is down.
    pub fn pressed(&self, input: MouseButton) -> (r: bool)
        ensures
            r == self.pressed@.contains(input),
    {
        holds_button(&self.pressed, input)
    }

    /// Whether the button went down in this tick.
    pub fn just_pressed(&self, input: MouseButton) -> (r: bool)
        ensures
            r == self.just_pressed@.contains(input),
    {
        holds_button(&self.just_pressed, input)
    }

    /// Whether the button came up in this tick.
    pub fn just_released(&self, input: MouseButton) -> (r: bool)
        ensures
            r == self.just_released@.contains(input),
    {
        holds_button(&self.just_released, input)
    }

    /// All that is reported of the button.
    pub fn button(&self, input: MouseButton) -> (r: Button)
        ensures
            r == self.button_of(input),
    {
        Button {
            pressed: self.pressed(input),
            just_pressed: self.just_pressed(input),
            just_released: self.just_released(input),
        }
    }
}

/// The value of an axis that the keys `plus` and `minus` drive in opposite
/// directions: one while only `plus` is down, minus one while only `minus`
/// is, and zero otherwise.
pub fn movement_axis(input: &Input<KeyCode>, plus: KeyCode, minus: KeyCode) -> (axis: Single)
    ensures
        axis == axis_of(input.pressed@.contains(plus), input.pressed@.contains(minus)),
{
    axis_value(input.pressed(plus), input.pressed(minus))
}

/// What the host engine reports of one key or button in one tick.
#[derive(Clone, Copy, Debug, PartialEq, Eq, Structural)]
pub struct Button {
    /// The button is down.
    pub pressed: bool,
    /// The button went down in this tick.
    pub just_pressed: bool,
    /// The button came up in this tick.
    pub just_released: bool,
}

/// The buttons of all logical actions in one tick, each already resolved from
/// the key that the configuration binds to it.
#[derive(Clone, Copy, Debug, PartialEq, Eq, Structural)]
pub struct Controls {
    pub forward: Button,
    pub left: Button,
    pub back: Button,
    pub right: Button,
    pub jump: Button,
    pub dash: Button,
    pub spec1: Button,
    pub spec2: Button,
    pub click: Button,
}

/// An action that a key combination triggers.
#[derive(Clone, Copy, Debug, PartialEq, Eq, Structural)]
pub enum InputEvent {
    LRClick,
    BClick,
    FClick,
    FSpec1,
}

/// The state of one control, with its latest change.
#[derive(Clone, Copy, Debug, PartialEq, Eq, Structural)]
pub enum InputState {
    Unpressed,
    JustPressed,
    JustReleased,
    Held,
}

/// The state of every control that takes part in a combination.
#[derive(Clone, Copy, Debug, PartialEq, Eq, Structural)]
pub struct InputMatrix {
    pub back: InputState,
    pub forward: InputState,
    pub left: InputState,
    pub right: InputState,
    pub dash: InputState,
    pub spec1: InputState,
    pub spec2: InputState,
    pub click: InputState,
}

impl Button {
    /// The state that the three reports of a button amount to. A press in
    /// this tick counts before a release in it, and either before the button
    /// being down.
    pub open spec fn state_of(self) -> InputState {
        if self.just_pressed {
            InputState::JustPressed
        } else if self.just_released {
            InputState::JustReleased
        } else if self.pressed {
            InputState::Held
        } else {
            InputState::Unpressed
        }
    }

    /// The state of the button.
    pub fn state(&self) -> (r: InputState)
        ensures
            r == self.state_of(),
    {
        if self.just_pressed {
            InputState::JustPressed
        } else if self.just_released {
            InputState::JustReleased
        } else if self.pressed {
            InputState::Held
        } else {
            InputState::Unpressed
        }
    }
}

impl InputState {
    /// The control is down, whether it went down in this tick or before.
    pub open spec fn down(self) -> bool {
        self == InputState::Held || self == InputState::JustPressed
    }

    /// Whether the control is held or was just pressed.
    pub fn is_down(&self) -> (r: bool)
        ensures
            r == self.down(),
    {
        match self {
            InputState::Held => true,
            InputState::JustPressed => true,
            InputState::JustReleased => false,
            InputState::Unpressed => false,
        }
    }

    /// Whether the control went down in this tick.
    pub fn is_just_pressed(&self) -> (r: bool)
        ensures
            r == (*self == InputState::JustPressed),
    {
        match self {
            InputState::JustPressed => true,
            _ => false,
        }
    }

    /// Whether the control has been down since before this tick.
    pub fn is_held(&self) -> (r: bool)
        ensures
            r == (*self == InputState::Held),
    {
        match self {
            InputState::Held => true,
            _ => false,
        }
    }
}

/// The states of the controls that combinations are made of, read from the
/// keyboard and the mouse by way of the configured bindings.
pub fn input_matrix(c: &Config, key_in: &Input<KeyCode>, mouse_in: &Input<MouseButton>) -> (m:
    InputMatrix)
    ensures
        m == Controls::read_of(*c, *key_in, *mouse_in).matrix_of(),
{
    Controls::read(c, key_in, mouse_in).matrix()
}

impl InputMatrix {
    /// A fresh click while moving sideways.
    pub open spec fn side_click(self) -> bool {
        self.click == InputState::JustPressed && (self.left.down() || self.right.down())
    }

    /// A fresh click while moving backwards.
    pub open spec fn back_click(self) -> bool {
        self.click == InputState::JustPressed && self.back.down()
    }

    /// A fresh dash while forward has been held. It triggers no action, but
    /// it keeps the first special from triggering in the same tick.
    pub open spec fn forward_dash(self) -> bool {
        self.dash == InputState::JustPressed && self.forward == InputState::Held
    }

    /// A fresh first special while moving forwards.
    pub open spec fn forward_special(self) -> bool {
        self.spec1 == InputState::JustPressed && self.forward.down()
    }

    /// The action that the matrix triggers: the first combination that
    /// matches decides, in the order side click, back click, forward dash,
    /// forward special.
    pub open spec fn event_of(self) -> Option<InputEvent> {
        if self.side_click() {
            Some(InputEvent::LRClick)
        } else if self.back_click() {
            Some(InputEvent::BClick)
        } else if self.forward_dash() {
            None
        } else if self.forward_special() {
            Some(InputEvent::FSpec1)
        } else {
            None
        }
    }

    /// The action to send in this tick, if any.
    pub fn event(&self) -> (r: Option<InputEvent>)
        ensures
            r == self.event_of(),
    {
        if self.click.is_just_pressed() && (self.left.is_down() || self.right.is_down()) {
            Some(InputEvent::LRClick)
        } else if self.click.is_just_pressed() && self.back.is_down() {
            Some(InputEvent::BClick)
        } else if self.dash.is_just_pressed() && self.forward.is_held() {
            None
        } else if self.spec1.is_just_pressed() && self.forward.is_down() {
            Some(InputEvent::FSpec1)
        } else {
            None
        }
    }
}

impl Controls {
    /// What `read` returns: each action with the report of the key that the
    /// configuration binds to it. The movement keys are bound in the order
    /// forward, left, back, right; the click is the left mouse button.
    pub open spec fn read_of(c: Config, keys: Input<KeyCode>, mouse: Input<MouseButton>)
        -> Controls {
        Controls {
            forward: keys.button_of(c.movement[0]),
            left: keys.button_of(c.movement[1]),
            back: keys.button_of(c.movement[2]),
            right: keys.button_of(c.movement[3]),
            jump: keys.button_of(c.jump),
            dash: keys.button_of(c.dash),
            spec1: keys.button_of(c.specials[0]),
            spec2: keys.button_of(c.specials[1]),
            click: mouse.button_of(MouseButton::Left),
        }
    }

    /// The state of every action in this tick.
    pub fn read(c: &Config, keys: &Input<KeyCode>, mouse: &Input<MouseButton>) -> (r: Controls)
        ensures
            r == Controls::read_of(*c, *keys, *mouse),
    {
        Controls {
            forward: keys.button(c.movement[0]),
            left: keys.button(c.movement[1]),
            back: keys.button(c.movement[2]),
            right: keys.button(c.movement[3]),
            jump: keys.button(c.jump),
            dash: keys.button(c.dash),
            spec1: keys.button(c.specials[0]),
            spec2: keys.button(c.specials[1]),
            click: mouse.button(MouseButton::Left),
        }
    }

    /// What `matrix` returns.
    pub open spec fn matrix_of(self) -> InputMatrix {
        InputMatrix {
            back: self.back.state_of(),
            forward: self.forward.state_of(),
            left: self.left.state_of(),
            right: self.right.state_of(),
            dash: self.dash.state_of(),
            spec1: self.spec1.state_of(),
            spec2: self.spec2.state_of(),
            click: self.click.state_of(),
        }
    }

    /// The states of the controls that combinations are made of.
    pub fn matrix(&self) -> (m: InputMatrix)
        ensures
            m == self.matrix_of(),
    {
        InputMatrix {
            back: self.back.state(),
            forward: self.forward.state(),
            left: self.left.state(),
            right: self.right.state(),
            dash: self.dash.state(),
            spec1: self.spec1.state(),
            spec2: self.spec2.state(),
            click: self.click.state(),
        }
    }

    /// What `intent` returns: right less left, and forward less back.
    pub open spec fn intent_of(self) -> Vec2 {
        Vec2 {
            x: axis_of(self.right.pressed, self.left.pressed),
            y: axis_of(self.forward.pressed, self.back.pressed),
        }
    }

    /// The movement intent of the four directional keys that are down.
    pub fn intent(&self) -> (r: Vec2)
        ensures
            r == self.intent_of(),
            r.vanishes() <==> (self.forward.pressed == self.back.pressed && self.left.pressed
                == self.right.pressed),
    {
        movement_intent(
            self.forward.pressed,
            self.left.pressed,
            self.back.pressed,
            self.right.pressed,
        )
    }
}

} // verus!
