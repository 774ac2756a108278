//! The player: what the controls ask for, and the force that this puts on the
//! player's actor.

use vstd::prelude::*;
use crate::movement::{with_force, Accelleration};
use crate::tilemap::TILE_SIZE;
use crate::vector::{narrow, saturate, Vector2};

verus! {

/// Deflection of a stick at its stop; a stick at rest reads zero.
pub const STICK_RANGE: i32 = 1000;

/// What the controls ask of the player's actor.
#[derive(Clone, Copy, Debug, PartialEq, Eq, Structural)]
pub struct Player {
    /// Acceleration along an axis while a direction is held, in tiles per
    /// second squared.
    pub speed: i32,
    pub up: bool,
    pub down: bool,
    pub left: bool,
    pub right: bool,
    /// The last reading of the stick, each axis from `-STICK_RANGE` to
    /// `STICK_RANGE`.
    pub stick_pos: Vector2,
}

/// The name of the force through which the player drives the actor.
pub open spec fn player_force_name() -> Seq<char> {
    "PLAYER_ACCEL"@
}

/// The identity of a gamepad.
pub type GamepadId = usize;

/// A gamepad was plugged in or pulled out.
#[derive(Clone, Copy, Debug, PartialEq, Eq, Structural)]
pub enum GamepadEvent {
    Connected(GamepadId),
    Disconnected(GamepadId),
}

/// The gamepad in use after `events`, when `current` was in use before them.
/// Each event is judged against `current`, not against what earlier events of
/// the same batch have led to.
pub open spec fn gamepad_after(current: Option<GamepadId>, events: Seq<GamepadEvent>) -> Option<GamepadId>
    decreases events.len(),
{
    if events.len() == 0 {
        current
    } else {
        let before = gamepad_after(current, events.drop_last());
        match events.last() {
            GamepadEvent::Connected(id) => if current is None {
                Some(id)
            } else {
                before
            },
            GamepadEvent::Disconnected(id) => if current == Some(id) {
                None
            } else {
                before
            },
        }
    }
}

/// Follows gamepads as they come and go: the first one to connect while none
/// is in use becomes the player's, and it stops being so when it disconnects.
pub fn gamepad_connections(current: Option<GamepadId>, events: &Vec<GamepadEvent>) -> (in_use: Option<
    GamepadId,
>)
    ensures
        in_use == gamepad_after(current, events@),
{
    let mut in_use = current;
    let mut i: usize = 0;
    while i < events.len()
        invariant
            i <= events@.len(),
            in_use == gamepad_after(current, events@.take(i as int)),
        decreases events@.len() - i,
    {
        proof {
            let next = events@.take(i as int + 1);
            assert(next.drop_last() == events@.take(i as int));
            assert(next.last() == events@[i as int]);
        }
        match events[i] {
            GamepadEvent::Connected(id) => {
                if current.is_none() {
                    in_use = Some(id);
                }
            },
            GamepadEvent::Disconnected(id) => {
                match current {
                    Some(old_id) => {
                        if old_id == id {
                            in_use = None;
                        }
                    },
                    None => {},
                }
            },
        }
        i += 1;
    }
    proof {
        assert(events@.take(i as int) == events@);
    }
    in_use
}

impl Player {
    /// A player that holds no direction, with the given `speed`.
    pub fn new(speed: i32) -> (player: Player)
        ensures
            player == (Player {
                speed,
                up: false,
                down: false,
                left: false,
                right: false,
                stick_pos: Vector2::zero(),
            }),
    {
        Player {
            speed,
            up: false,
            down: false,
            left: false,
            right: false,
            stick_pos: Vector2 { x: 0, y: 0 },
        }
    }

    /// The player after a reading `(x, y)` of the stick: a direction is held
    /// while the stick is pushed more than halfway toward it.
    pub open spec fn steered(self, x: i32, y: i32) -> Player {
        Player {
            speed: self.speed,
            up: 2 * y > STICK_RANGE,
            down: 2 * y < -STICK_RANGE,
            left: 2 * x < -STICK_RANGE,
            right: 2 * x > STICK_RANGE,
            stick_pos: Vector2 { x, y },
        }
    }

    /// The force that the held directions ask for: `speed` tiles per second
    /// squared along each axis on which a direction is held. Up wins over
    /// down, and left over right.
    pub open spec fn wanted_force(self) -> Vector2 {
        let push = saturate(self.speed * TILE_SIZE);
        let back = saturate(-self.speed * TILE_SIZE);
        Vector2 {
            x: (if self.left {
                back
            } else if self.right {
                push
            } else {
                0
            }) as i32,
            y: (if self.up {
                push
            } else if self.down {
                back
            } else {
                0
            }) as i32,
        }
    }
}

/// Takes the directions that the player holds from the stick of the gamepad:
/// `stick` is the reading of its two axes, or `None` while no gamepad is in
/// use or an axis cannot be read, in which case nothing changes.
pub fn gamepad_input(player: &mut Player, stick: Option<Vector2>)
    ensures
        *final(player) == match stick {
            Some(pos) => old(player).steered(pos.x, pos.y),
            None => *old(player),
        },
{
    match stick {
        Some(pos) => {
            let x: i64 = pos.x as i64;
            let y: i64 = pos.y as i64;
            let half: i64 = STICK_RANGE as i64;
            player.stick_pos = pos;
            player.up = 2 * y > half;
            player.down = 2 * y < -half;
            player.left = 2 * x < -half;
            player.right = 2 * x > half;
        },
        None => {},
    }
}

/// Records the force that the player asks for in the ledger of the player's
/// actor, under the name `PLAYER_ACCEL`.
pub fn player_movement(player: &Player, accel: &mut Accelleration)
    ensures
        final(accel)@ == with_force(old(accel)@, player_force_name(), player.wanted_force()),
        old(accel).wf() ==> final(accel).wf(),
{
    let mut player_accel = accel.get_force("PLAYER_ACCEL");
    let speed: i128 = player.speed as i128;
    let tile: i128 = TILE_SIZE as i128;
    if player.up {
        player_accel.y = narrow(speed * tile);
    } else if player.down {
        player_accel.y = narrow(-speed * tile);
    } else {
        player_accel.y = 0;
    }
    if player.left {
        player_accel.x = narrow(-speed * tile);
    } else if player.right {
        player_accel.x = narrow(speed * tile);
    } else {
        player_accel.x = 0;
    }
    accel.set_force("PLAYER_ACCEL", player_accel);
    proof {
        crate::movement::lemma_set_force_after_get_force(
            old(accel)@,
            player_force_name(),
            player_accel,
        );
    }
}

} // verus!
