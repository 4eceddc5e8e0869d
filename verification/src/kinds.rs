//! Small value types of the game shared with the level data: keys, enemy kinds, door and
//! player events, weapon slots and colours.
use vstd::prelude::*;

verus! {

/// The gameplay keys a player can bind.
#[derive(Clone, Copy, Debug, PartialEq, Eq, Structural)]
pub enum GameKey {
    BluePortal,
    Dash,
    OrangePortal,
    Jump,
    Left,
    Right,
    Slide,
}

#[derive(Clone, Copy, Debug, PartialEq, Eq, Structural)]
pub enum EnemyKind {
    Filth,
}

/// What a door did during an update.
#[derive(Clone, Copy, Debug, PartialEq, Eq, Structural)]
pub enum DoorEvent {
    Opening,
    Closing,
    Opened,
    Closed,
}

#[derive(Clone, Copy, Debug, PartialEq, Eq, Structural)]
pub enum WeaponSlot {
    Piercer,
}

/// How the player is moving.
#[derive(Clone, Copy, Debug, PartialEq, Eq, Structural)]
pub enum MovementState {
    Normal,
    Crouching,
    Sliding,
    AirSlide,
    Dashing,
    GroundSlam,
    WallSlide,
}

/// What the player did during an update, for sounds and effects.
#[derive(Clone, Copy, Debug, PartialEq, Eq, Structural)]
pub enum PlayerEvent {
    Jump,
    DashStart,
    DashEnd,
    SlideStart,
    SlideEnd,
    GroundSlamStart,
    GroundSlamEnd,
    Land,
    HeavyLand,
}

/// An 8-bit RGB colour.
#[derive(Clone, Copy, Debug, PartialEq, Eq, Structural)]
pub struct Color {
    pub r: u8,
    pub g: u8,
    pub b: u8,
}

impl Color {
    pub fn rgb(r: u8, g: u8, b: u8) -> (c: Color)
        ensures
            c.r == r && c.g == g && c.b == b,
    {
        Color { r, g, b }
    }

    /// The colour of the blue portal.
    pub fn blue() -> (c: Color)
        ensures
            c == (Color { r: 54, g: 139, b: 255 }),
    {
        Color { r: 54, g: 139, b: 255 }
    }

    /// The colour of the orange portal.
    pub fn orange() -> (c: Color)
        ensures
            c == (Color { r: 255, g: 151, b: 42 }),
    {
        Color { r: 255, g: 151, b: 42 }
    }
}

/// The keyboard keys the menus and the editor read; every other key is `Other`.
#[derive(Clone, Copy, Debug, PartialEq, Eq, Structural)]
pub enum Key {
    Space,
    Minus,
    Equal,
    Slash,
    Backslash,
    Period,
    Comma,
    Semicolon,
    Quote,
    BracketLeft,
    BracketRight,
    Backquote,
    Digit0,
    Digit1,
    Digit2,
    Digit3,
    Digit4,
    Digit5,
    Digit6,
    Digit7,
    Digit8,
    Digit9,
    KeyA,
    KeyB,
    KeyC,
    KeyD,
    KeyE,
    KeyF,
    KeyG,
    KeyH,
    KeyI,
    KeyJ,
    KeyK,
    KeyL,
    KeyM,
    KeyN,
    KeyO,
    KeyP,
    KeyQ,
    KeyR,
    KeyS,
    KeyT,
    KeyU,
    KeyV,
    KeyW,
    KeyX,
    KeyY,
    KeyZ,
    Delete,
    Backspace,
    Enter,
    Escape,
    PageUp,
    PageDown,
    F1,
    F3,
    F5,
    F7,
    ArrowUp,
    ArrowDown,
    ArrowLeft,
    ArrowRight,
    Other,
}

} // verus!
