//! Turning the keys held during a frame into movement, look and game
//! commands.
use vstd::prelude::*;

verus! {

/// A key that the game reacts to; every other key is `Other`.
#[derive(Clone, Copy, Debug, PartialEq, Eq, Structural)]
pub enum Key {
    W,
    S,
    A,
    D,
    Space,
    LShift,
    I,
    K,
    J,
    L,
    Escape,
    Q,
    E,
    Other,
}

/// What the held keys ask for. Each movement and look component is -1, 0
/// or 1: `move_x` left/right, `move_y` down/up, `move_z` back/forward,
/// `look_x` left/right and `look_y` down/up.
#[derive(Clone, Copy, Debug, PartialEq, Eq, Structural)]
pub struct Controls {
    pub move_x: i8,
    pub move_y: i8,
    pub move_z: i8,
    pub look_x: i8,
    pub look_y: i8,
    pub paused: bool,
    pub scene: Option<usize>,
}

/// Controls before any key is read: nothing moves, the pause state is kept.
pub open spec fn idle(paused: bool) -> Controls {
    Controls { move_x: 0, move_y: 0, move_z: 0, look_x: 0, look_y: 0, paused, scene: None }
}

/// The effect of one key: W/S move forward/back, A/D left/right,
/// Space/LShift up/down, I/K look up/down, J/L look left/right, Escape
/// toggles the pause, Q selects scene 0 and E scene 1.
pub open spec fn key_effect(c: Controls, key: Key) -> Controls {
    match key {
        Key::W => Controls { move_z: 1i8, ..c },
        Key::S => Controls { move_z: -1i8, ..c },
        Key::A => Controls { move_x: -1i8, ..c },
        Key::D => Controls { move_x: 1i8, ..c },
        Key::Space => Controls { move_y: 1i8, ..c },
        Key::LShift => Controls { move_y: -1i8, ..c },
        Key::I => Controls { look_y: 1i8, ..c },
        Key::K => Controls { look_y: -1i8, ..c },
        Key::J => Controls { look_x: -1i8, ..c },
        Key::L => Controls { look_x: 1i8, ..c },
        Key::Escape => Controls { paused: !c.paused, ..c },
        Key::Q => Controls { scene: Some(0), ..c },
        Key::E => Controls { scene: Some(1), ..c },
        Key::Other => c,
    }
}

/// The controls after reading `keys` in order, a later key overriding an
/// earlier one on the same component.
pub open spec fn controls_of(keys: Seq<Key>, paused: bool) -> Controls
    decreases keys.len(),
{
    if keys.len() == 0 {
        idle(paused)
    } else {
        key_effect(controls_of(keys.drop_last(), paused), keys.last())
    }
}

fn apply_key(c: Controls, key: Key) -> (r: Controls)
    ensures
        r == key_effect(c, key),
{
    match key {
        Key::W => Controls { move_z: 1, ..c },
        Key::S => Controls { move_z: -1, ..c },
        Key::A => Controls { move_x: -1, ..c },
        Key::D => Controls { move_x: 1, ..c },
        Key::Space => Controls { move_y: 1, ..c },
        Key::LShift => Controls { move_y: -1, ..c },
        Key::I => Controls { look_y: 1, ..c },
        Key::K => Controls { look_y: -1, ..c },
        Key::J => Controls { look_x: -1, ..c },
        Key::L => Controls { look_x: 1, ..c },
        Key::Escape => Controls { paused: !c.paused, ..c },
        Key::Q => Controls { scene: Some(0), ..c },
        Key::E => Controls { scene: Some(1), ..c },
        Key::Other => c,
    }
}

/// Reads the keys held during a frame, starting from the current pause
/// state.
pub fn read_controls(keys: &Vec<Key>, paused: bool) -> (r: Controls)
    ensures
        r == controls_of(keys@, paused),
{
    let mut c = Controls { move_x: 0, move_y: 0, move_z: 0, look_x: 0, look_y: 0, paused, scene: None };
    let mut i: usize = 0;
    while i < keys.len()
        invariant
            i <= keys@.len(),
            c == controls_of(keys@.subrange(0, i as int), paused),
        decreases keys@.len() - i,
    {
        assert(keys@.subrange(0, i + 1).drop_last() =~= keys@.subrange(0, i as int));
        c = apply_key(c, keys[i]);
        i += 1;
    }
    assert(keys@.subrange(0, i as int) =~= keys@);
    c
}

} // verus!
