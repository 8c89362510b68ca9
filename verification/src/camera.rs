//! Which way a free-flying camera is being asked to move.
//!
//! Six keys each hold one direction of movement for as long as they are
//! down. The geometry of the movement is left to the caller.

use vstd::prelude::*;

verus! {

/// The keys that steer the camera.
#[derive(Clone, Copy, Debug, PartialEq, Eq, Structural)]
pub enum Key {
    Space,
    LControl,
    A,
    D,
    W,
    S,
}

/// Whether a key went down or came up.
#[derive(Clone, Copy, Debug, PartialEq, Eq, Structural)]
pub enum KeyState {
    Pressed,
    Released,
}

/// A direction of movement, relative to where the camera looks.
#[derive(Clone, Copy, Debug, PartialEq, Eq, Structural)]
pub enum Direction {
    Up,
    Left,
    Down,
    Right,
    Forward,
    Backward,
}

/// One flag per direction; a flag is set while the direction's key is down.
#[derive(Clone, Copy, Debug, PartialEq, Eq, Structural)]
pub struct Movement {
    pub moving_up: bool,
    pub moving_left: bool,
    pub moving_down: bool,
    pub moving_right: bool,
    pub moving_forward: bool,
    pub moving_backward: bool,
}

impl Key {
    /// The direction that the key stands for.
    pub open spec fn steers(self) -> Direction {
        match self {
            Key::Space => Direction::Up,
            Key::LControl => Direction::Down,
            Key::A => Direction::Left,
            Key::D => Direction::Right,
            Key::W => Direction::Forward,
            Key::S => Direction::Backward,
        }
    }

    /// The direction that the key stands for.
    #[verifier::when_used_as_spec(steers)]
    pub fn direction(self) -> (direction: Direction)
        ensures
            direction == self.steers(),
    {
        match self {
            Key::Space => Direction::Up,
            Key::LControl => Direction::Down,
            Key::A => Direction::Left,
            Key::D => Direction::Right,
            Key::W => Direction::Forward,
            Key::S => Direction::Backward,
        }
    }
}

impl Movement {
    /// Whether the flag of `direction` is set.
    pub open spec fn holds(self, direction: Direction) -> bool {
        match direction {
            Direction::Up => self.moving_up,
            Direction::Left => self.moving_left,
            Direction::Down => self.moving_down,
            Direction::Right => self.moving_right,
            Direction::Forward => self.moving_forward,
            Direction::Backward => self.moving_backward,
        }
    }

    /// The flags with that of `direction` put to `set`.
    pub open spec fn with_flag(self, direction: Direction, set: bool) -> Movement {
        match direction {
            Direction::Up => Movement { moving_up: set, ..self },
            Direction::Left => Movement { moving_left: set, ..self },
            Direction::Down => Movement { moving_down: set, ..self },
            Direction::Right => Movement { moving_right: set, ..self },
            Direction::Forward => Movement { moving_forward: set, ..self },
            Direction::Backward => Movement { moving_backward: set, ..self },
        }
    }

    /// The flags after one keyboard event: a steering key puts the flag of
    /// its direction to whether it went down; anything else changes nothing.
    pub open spec fn after(self, state: KeyState, key: Option<Key>) -> Movement {
        match key {
            Some(key) => self.with_flag(key.steers(), state is Pressed),
            None => self,
        }
    }

    /// No movement in any direction.
    pub fn new() -> (movement: Movement)
        ensures
            forall|direction: Direction| !movement.holds(direction),
    {
        Movement {
            moving_up: false,
            moving_left: false,
            moving_down: false,
            moving_right: false,
            moving_forward: false,
            moving_backward: false,
        }
    }

    /// Whether the flag of `direction` is set.
    #[verifier::when_used_as_spec(holds)]
    pub fn is_moving(self, direction: Direction) -> (set: bool)
        ensures
            set == self.holds(direction),
    {
        match direction {
            Direction::Up => self.moving_up,
            Direction::Left => self.moving_left,
            Direction::Down => self.moving_down,
            Direction::Right => self.moving_right,
            Direction::Forward => self.moving_forward,
            Direction::Backward => self.moving_backward,
        }
    }

    /// Takes in one keyboard event. A steering key sets the flag of its
    /// direction when it goes down and clears it when it comes up; the other
    /// flags stay. An event without a steering key (`None`) changes nothing.
    pub fn process_input(&mut self, state: KeyState, key: Option<Key>)
        ensures
            *final(self) == old(self).after(state, key),
    {
        let set = matches!(state, KeyState::Pressed);
        match key {
            Some(Key::Space) => {
                self.moving_up = set;
            },
            Some(Key::LControl) => {
                self.moving_down = set;
            },
            Some(Key::A) => {
                self.moving_left = set;
            },
            Some(Key::D) => {
                self.moving_right = set;
            },
            Some(Key::W) => {
                self.moving_forward = set;
            },
            Some(Key::S) => {
                self.moving_backward = set;
            },
            None => {},
        }
    }
}

/// The key that steers in `direction`.
pub open spec fn direction_key(direction: Direction) -> Key {
    match direction {
        Direction::Up => Key::Space,
        Direction::Left => Key::A,
        Direction::Down => Key::LControl,
        Direction::Right => Key::D,
        Direction::Forward => Key::W,
        Direction::Backward => Key::S,
    }
}

/// An event changes the flag of its own key's direction and no other.
pub proof fn lemma_event_touches_one_flag(
    movement: Movement,
    state: KeyState,
    key: Option<Key>,
    direction: Direction,
)
    ensures
        movement.after(state, key).holds(direction) == if key == Some(direction_key(direction)) {
            state is Pressed
        } else {
            movement.holds(direction)
        },
{
}

/// Keys and directions pair off one to one.
pub proof fn lemma_keys_pair_with_directions(key: Key, direction: Direction)
    ensures
        direction_key(key.steers()) == key,
        direction_key(direction).steers() == direction,
{
}

} // verus!
