//! Gameplay input: which keys are held, and the presses and releases seen at the last update.
use vstd::prelude::*;

use crate::kinds::{GameKey, Key};

verus! {

/// One button: whether it is held now, and the edges found by the last update.
#[derive(Clone, Copy, Debug, Default, PartialEq, Eq, Structural)]
pub struct ButtonState {
    pub down: bool,
    pub pressed: bool,
    pub released: bool,
    pub was_down: bool,
}

impl ButtonState {
    pub fn set_down(&mut self, down: bool)
        ensures
            *final(self) == (ButtonState { down, ..*old(self) }),
    {
        self.down = down;
    }

    pub fn release(&mut self)
        ensures
            *final(self) == (ButtonState { down: false, ..*old(self) }),
    {
        self.down = false;
    }

    /// Forgets the edges found by the last update.
    pub fn consume_press(&mut self)
        ensures
            *final(self) == (ButtonState { pressed: false, released: false, ..*old(self) }),
    {
        self.pressed = false;
        self.released = false;
    }

    /// A press is a button held now and not at the previous update; a release the opposite.
    pub fn update(&mut self)
        ensures
            final(self).down == old(self).down,
            final(self).pressed == (old(self).down && !old(self).was_down),
            final(self).released == (!old(self).down && old(self).was_down),
            final(self).was_down == old(self).down,
    {
        self.pressed = self.down && !self.was_down;
        self.released = !self.down && self.was_down;
        self.was_down = self.down;
    }
}

/// The state of the gameplay keys and buttons. The horizontal intent `move_x` is -1, 0 or 1.
#[derive(Clone, Debug, Default)]
pub struct Input {
    pub move_x: i8,
    pub blue_portal: ButtonState,
    pub dash: ButtonState,
    pub jump: ButtonState,
    pub left_down: bool,
    pub orange_portal: ButtonState,
    pub primary_fire: ButtonState,
    pub alt_fire: ButtonState,
    pub respawn: ButtonState,
    pub right_down: bool,
    pub slide: ButtonState,
    pub weapon_1: ButtonState,
}

pub open spec fn released_button(b: ButtonState) -> ButtonState {
    ButtonState { down: false, ..b }
}

pub open spec fn consumed_button(b: ButtonState) -> ButtonState {
    ButtonState { pressed: false, released: false, ..b }
}

pub open spec fn updated_button(b: ButtonState) -> ButtonState {
    ButtonState {
        down: b.down,
        pressed: b.down && !b.was_down,
        released: !b.down && b.was_down,
        was_down: b.down,
    }
}

/// Left and right cancel out.
pub open spec fn spec_move_x(left_down: bool, right_down: bool) -> i8 {
    (if right_down {
        1int
    } else {
        0int
    } - if left_down {
        1int
    } else {
        0int
    }) as i8
}

/// `i` after the game key `key` went down or up.
pub open spec fn spec_set_key(i: Input, key: GameKey, down: bool) -> Input {
    match key {
        GameKey::BluePortal => Input { blue_portal: ButtonState { down, ..i.blue_portal }, ..i },
        GameKey::Dash => Input { dash: ButtonState { down, ..i.dash }, ..i },
        GameKey::OrangePortal => Input { orange_portal: ButtonState { down, ..i.orange_portal }, ..i },
        GameKey::Jump => Input { jump: ButtonState { down, ..i.jump }, ..i },
        GameKey::Left => Input { left_down: down, ..i },
        GameKey::Right => Input { right_down: down, ..i },
        GameKey::Slide => Input { slide: ButtonState { down, ..i.slide }, ..i },
    }
}

/// `i` after a key during play: `1` is the first weapon, `R` respawns, any other key acts
/// as the game key it is bound to, if any.
pub open spec fn spec_game_key(i: Input, key: Key, down: bool, bound: Option<GameKey>) -> Input {
    if key == Key::Digit1 {
        Input { weapon_1: ButtonState { down, ..i.weapon_1 }, ..i }
    } else if key == Key::KeyR {
        Input { respawn: ButtonState { down, ..i.respawn }, ..i }
    } else {
        match bound {
            Some(k) => spec_set_key(i, k, down),
            None => i,
        }
    }
}

impl Input {
    pub open spec fn button(&self, key: GameKey) -> ButtonState {
        match key {
            GameKey::BluePortal => self.blue_portal,
            GameKey::Dash => self.dash,
            GameKey::OrangePortal => self.orange_portal,
            GameKey::Jump => self.jump,
            GameKey::Slide => self.slide,
            GameKey::Left => ButtonState { down: self.left_down, pressed: false, released: false, was_down: false },
            GameKey::Right => ButtonState { down: self.right_down, pressed: false, released: false, was_down: false },
        }
    }

    pub fn new() -> (i: Input)
        ensures
            i.move_x == 0,
            !i.left_down && !i.right_down,
            i.blue_portal == ButtonState::spec_idle(),
            i.dash == ButtonState::spec_idle(),
            i.jump == ButtonState::spec_idle(),
            i.orange_portal == ButtonState::spec_idle(),
            i.primary_fire == ButtonState::spec_idle(),
            i.alt_fire == ButtonState::spec_idle(),
            i.respawn == ButtonState::spec_idle(),
            i.slide == ButtonState::spec_idle(),
            i.weapon_1 == ButtonState::spec_idle(),
    {
        let idle = ButtonState { down: false, pressed: false, released: false, was_down: false };
        Input {
            move_x: 0,
            blue_portal: idle,
            dash: idle,
            jump: idle,
            left_down: false,
            orange_portal: idle,
            primary_fire: idle,
            alt_fire: idle,
            respawn: idle,
            right_down: false,
            slide: idle,
            weapon_1: idle,
        }
    }

    /// Records a gameplay key going down or up.
    pub fn set_key(&mut self, key: GameKey, down: bool)
        ensures
            *final(self) == spec_set_key(*old(self), key, down),
            final(self).button(key).down == down,
            forall|k: GameKey| k != key ==> #[trigger] final(self).button(k) == old(self).button(k),
            final(self).primary_fire == old(self).primary_fire,
            final(self).alt_fire == old(self).alt_fire,
            final(self).respawn == old(self).respawn,
            final(self).weapon_1 == old(self).weapon_1,
            final(self).move_x == old(self).move_x,
            key != GameKey::Left && key != GameKey::Right ==> final(self).button(key) == (
            ButtonState { down, ..old(self).button(key) }),
    {
        match key {
            GameKey::BluePortal => self.blue_portal.set_down(down),
            GameKey::Dash => self.dash.set_down(down),
            GameKey::OrangePortal => self.orange_portal.set_down(down),
            GameKey::Jump => self.jump.set_down(down),
            GameKey::Left => self.left_down = down,
            GameKey::Right => self.right_down = down,
            GameKey::Slide => self.slide.set_down(down),
        }
    }

    /// A key during play; `bound` is the game key the settings bind `key` to, if any.
    pub fn handle_game_key(&mut self, key: Key, down: bool, bound: Option<GameKey>)
        ensures
            *final(self) == spec_game_key(*old(self), key, down, bound),
    {
        if key == Key::Digit1 {
            self.set_weapon_1(down);
            return;
        }
        if key == Key::KeyR {
            self.set_respawn(down);
            return;
        }
        if let Some(k) = bound {
            self.set_key(k, down);
        }
    }

    pub fn set_primary_fire(&mut self, down: bool)
        ensures
            *final(self) == (Input { primary_fire: ButtonState { down, ..old(self).primary_fire }, ..*old(self) }),
    {
        self.primary_fire.set_down(down);
    }

    pub fn set_alt_fire(&mut self, down: bool)
        ensures
            *final(self) == (Input { alt_fire: ButtonState { down, ..old(self).alt_fire }, ..*old(self) }),
    {
        self.alt_fire.set_down(down);
    }

    pub fn set_weapon_1(&mut self, down: bool)
        ensures
            *final(self) == (Input { weapon_1: ButtonState { down, ..old(self).weapon_1 }, ..*old(self) }),
    {
        self.weapon_1.set_down(down);
    }

    pub fn set_respawn(&mut self, down: bool)
        ensures
            *final(self) == (Input { respawn: ButtonState { down, ..old(self).respawn }, ..*old(self) }),
    {
        self.respawn.set_down(down);
    }

    /// Lets go of everything, as when the game loses focus.
    pub fn release_gameplay(&mut self)
        ensures
            *final(self) == (Input {
                blue_portal: released_button(old(self).blue_portal),
                dash: released_button(old(self).dash),
                jump: released_button(old(self).jump),
                left_down: false,
                orange_portal: released_button(old(self).orange_portal),
                primary_fire: released_button(old(self).primary_fire),
                alt_fire: released_button(old(self).alt_fire),
                respawn: released_button(old(self).respawn),
                right_down: false,
                slide: released_button(old(self).slide),
                weapon_1: released_button(old(self).weapon_1),
                ..*old(self)
            }),
    {
        self.blue_portal.release();
        self.dash.release();
        self.jump.release();
        self.left_down = false;
        self.orange_portal.release();
        self.primary_fire.release();
        self.alt_fire.release();
        self.respawn.release();
        self.right_down = false;
        self.slide.release();
        self.weapon_1.release();
    }

    /// Forgets the presses and releases of the last update, so that each acts once.
    pub fn consume_presses(&mut self)
        ensures
            *final(self) == (Input {
                blue_portal: consumed_button(old(self).blue_portal),
                dash: consumed_button(old(self).dash),
                jump: consumed_button(old(self).jump),
                orange_portal: consumed_button(old(self).orange_portal),
                primary_fire: consumed_button(old(self).primary_fire),
                alt_fire: consumed_button(old(self).alt_fire),
                respawn: consumed_button(old(self).respawn),
                slide: consumed_button(old(self).slide),
                weapon_1: consumed_button(old(self).weapon_1),
                ..*old(self)
            }),
    {
        self.blue_portal.consume_press();
        self.dash.consume_press();
        self.jump.consume_press();
        self.orange_portal.consume_press();
        self.primary_fire.consume_press();
        self.alt_fire.consume_press();
        self.respawn.consume_press();
        self.slide.consume_press();
        self.weapon_1.consume_press();
    }

    pub fn key_down(&self, key: GameKey) -> (b: bool)
        ensures
            b == self.button(key).down,
            key == GameKey::BluePortal ==> b == self.blue_portal.down,
            key == GameKey::Dash ==> b == self.dash.down,
            key == GameKey::OrangePortal ==> b == self.orange_portal.down,
            key == GameKey::Jump ==> b == self.jump.down,
            key == GameKey::Left ==> b == self.left_down,
            key == GameKey::Right ==> b == self.right_down,
            key == GameKey::Slide ==> b == self.slide.down,
    {
        match key {
            GameKey::BluePortal => self.blue_portal.down,
            GameKey::Dash => self.dash.down,
            GameKey::OrangePortal => self.orange_portal.down,
            GameKey::Jump => self.jump.down,
            GameKey::Left => self.left_down,
            GameKey::Right => self.right_down,
            GameKey::Slide => self.slide.down,
        }
    }

    /// Whether the key went down at the last update; never for the movement keys.
    pub fn key_pressed(&self, key: GameKey) -> (b: bool)
        ensures
            b == self.button(key).pressed,
            key == GameKey::BluePortal ==> b == self.blue_portal.pressed,
            key == GameKey::Dash ==> b == self.dash.pressed,
            key == GameKey::OrangePortal ==> b == self.orange_portal.pressed,
            key == GameKey::Jump ==> b == self.jump.pressed,
            key == GameKey::Slide ==> b == self.slide.pressed,
            key == GameKey::Left || key == GameKey::Right ==> !b,
    {
        match key {
            GameKey::BluePortal => self.blue_portal.pressed,
            GameKey::Dash => self.dash.pressed,
            GameKey::OrangePortal => self.orange_portal.pressed,
            GameKey::Jump => self.jump.pressed,
            GameKey::Slide => self.slide.pressed,
            GameKey::Left | GameKey::Right => false,
        }
    }

    pub fn primary_fire_pressed(&self) -> (b: bool)
        ensures
            b == self.primary_fire.pressed,
    {
        self.primary_fire.pressed
    }

    pub fn primary_fire_down(&self) -> (b: bool)
        ensures
            b == self.primary_fire.down,
    {
        self.primary_fire.down
    }

    pub fn alt_fire_down(&self) -> (b: bool)
        ensures
            b == self.alt_fire.down,
    {
        self.alt_fire.down
    }

    pub fn alt_fire_released(&self) -> (b: bool)
        ensures
            b == self.alt_fire.released,
    {
        self.alt_fire.released
    }

    pub fn weapon_1_pressed(&self) -> (b: bool)
        ensures
            b == self.weapon_1.pressed,
    {
        self.weapon_1.pressed
    }

    pub fn respawn_pressed(&self) -> (b: bool)
        ensures
            b == self.respawn.pressed,
    {
        self.respawn.pressed
    }

    /// Finds the presses and releases of every button and sets the horizontal intent from the
    /// movement keys.
    pub fn update(&mut self)
        ensures
            *final(self) == (Input {
                move_x: spec_move_x(old(self).left_down, old(self).right_down),
                blue_portal: updated_button(old(self).blue_portal),
                dash: updated_button(old(self).dash),
                jump: updated_button(old(self).jump),
                orange_portal: updated_button(old(self).orange_portal),
                primary_fire: updated_button(old(self).primary_fire),
                alt_fire: updated_button(old(self).alt_fire),
                respawn: updated_button(old(self).respawn),
                slide: updated_button(old(self).slide),
                weapon_1: updated_button(old(self).weapon_1),
                ..*old(self)
            }),
    {
        let mut move_x: i8 = 0;
        if self.left_down {
            move_x = -1;
        }
        if self.right_down {
            move_x = move_x + 1;
        }
        *self = Input {
            move_x,
            blue_portal: updated(self.blue_portal),
            dash: updated(self.dash),
            jump: updated(self.jump),
            left_down: self.left_down,
            orange_portal: updated(self.orange_portal),
            primary_fire: updated(self.primary_fire),
            alt_fire: updated(self.alt_fire),
            respawn: updated(self.respawn),
            right_down: self.right_down,
            slide: updated(self.slide),
            weapon_1: updated(self.weapon_1),
        };
    }
}

fn updated(b: ButtonState) -> (r: ButtonState)
    ensures
        r == updated_button(b),
{
    let mut b = b;
    b.update();
    b
}

impl ButtonState {
    pub open spec fn spec_idle() -> ButtonState {
        ButtonState { down: false, pressed: false, released: false, was_down: false }
    }
}

/// A held button reports one press: at the update after it went down, and not at the next
/// update while it stays down.
pub proof fn lemma_press_fires_once(b: ButtonState)
    requires
        b.down,
        !b.was_down,
    ensures
        updated_button(b).pressed,
        !updated_button(updated_button(b)).pressed,
        !updated_button(consumed_button(updated_button(b))).pressed,
{
}

/// A button released after being held reports one release.
pub proof fn lemma_release_fires_once(b: ButtonState)
    requires
        !b.down,
        b.was_down,
    ensures
        updated_button(b).released,
        !updated_button(updated_button(b)).released,
{
}

} // verus!
