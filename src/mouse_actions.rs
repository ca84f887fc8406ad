//! Turns the action button's state into click intents at the cursor.
use vstd::prelude::*;
use crate::camera::MouseScreenCoords;
use crate::geometry::Point;

verus! {

/// A click at a world position.
#[derive(Clone, Copy, Debug, PartialEq, Eq)]
pub struct ClickOnScreenEvent(pub Point);

/// One mouse button this tick.
#[derive(Clone, Copy, Debug, PartialEq, Eq)]
pub struct ButtonState {
    pub pressed: bool,
    pub just_pressed: bool,
    pub just_released: bool,
}

/// The mouse buttons this tick.
#[derive(Clone, Copy, Debug, PartialEq, Eq)]
pub struct MouseInput {
    pub left: ButtonState,
}

/// The mouse actions the game listens to.
#[derive(Clone, Copy, Debug, PartialEq, Eq)]
pub enum MouseControl {
    LeftClick,
}

impl MouseControl {
    pub open spec fn button(&self, input: &MouseInput) -> ButtonState {
        match self {
            MouseControl::LeftClick => input.left,
        }
    }

    pub fn just_released(&self, input: &MouseInput) -> (r: bool)
        ensures
            r == self.button(input).just_released,
    {
        match self {
            MouseControl::LeftClick => input.left.just_released,
        }
    }

    pub fn pressed(&self, input: &MouseInput) -> (r: bool)
        ensures
            r == self.button(input).pressed,
    {
        match self {
            MouseControl::LeftClick => input.left.pressed,
        }
    }

    pub fn just_pressed(&self, input: &MouseInput) -> (r: bool)
        ensures
            r == self.button(input).just_pressed,
    {
        match self {
            MouseControl::LeftClick => input.left.just_pressed,
        }
    }
}

/// A click at the cursor on every tick the left button is newly down or
/// still held; none otherwise.
pub fn set_click_actions(coords: &MouseScreenCoords, input: &MouseInput) -> (r: Option<
    ClickOnScreenEvent,
>)
    ensures
        r == (if input.left.just_pressed || input.left.pressed {
            Some(ClickOnScreenEvent(coords.position))
        } else {
            None
        }),
{
    if MouseControl::LeftClick.just_pressed(input) || MouseControl::LeftClick.pressed(input) {
        Some(ClickOnScreenEvent(coords.position))
    } else {
        None
    }
}

} // verus!
