use vstd::prelude::*;
use vstd::arithmetic::div_mod::lemma_fundamental_div_mod_converse_mod;

verus! {

/// -1, 0 or 1 from a pair of opposite buttons; both held cancel out.
pub open spec fn axis_of(positive: bool, negative: bool) -> int {
    (if positive {
        1int
    } else {
        0int
    }) - (if negative {
        1int
    } else {
        0int
    })
}

/// The movement keys held and the action keys pressed this frame.
#[derive(Clone, Copy, PartialEq, Eq, Structural, Debug, Default)]
pub struct KeyboardState {
    /// Right arrow.
    pub turn_right: bool,
    /// Left arrow.
    pub turn_left: bool,
    /// `W` or up arrow.
    pub forward: bool,
    /// `S` or down arrow.
    pub back: bool,
    /// `D`.
    pub strafe_right: bool,
    /// `A`.
    pub strafe_left: bool,
    /// Left mouse button or left control pressed.
    pub fire: bool,
    /// `R` pressed.
    pub reload: bool,
}

/// Digital movement directions (each -1, 0 or 1) and this frame's actions.
#[derive(Clone, Copy, PartialEq, Eq, Structural, Debug, Default)]
pub struct KeyIntent {
    pub forward: i32,
    pub strafe: i32,
    pub turn: i32,
    pub shoot: bool,
    pub reload: bool,
}

fn axis(positive: bool, negative: bool) -> (a: i32)
    ensures
        a == axis_of(positive, negative),
{
    let mut a: i32 = 0;
    if positive {
        a += 1;
    }
    if negative {
        a -= 1;
    }
    a
}

/// What the keyboard asks for: opposite keys cancel out.
pub fn keyboard_intent(keys: &KeyboardState) -> (intent: KeyIntent)
    ensures
        intent.forward == axis_of(keys.forward, keys.back),
        intent.strafe == axis_of(keys.strafe_right, keys.strafe_left),
        intent.turn == axis_of(keys.turn_right, keys.turn_left),
        intent.shoot == keys.fire,
        intent.reload == keys.reload,
{
    KeyIntent {
        forward: axis(keys.forward, keys.back),
        strafe: axis(keys.strafe_right, keys.strafe_left),
        turn: axis(keys.turn_right, keys.turn_left),
        shoot: keys.fire,
        reload: keys.reload,
    }
}

/// The gamepad's vertical direction in menus: -1 up, 1 down, 0 none. The
/// d-pad wins over the stick; `stick` is the stick's own direction.
pub fn menu_axis(available: bool, up: bool, down: bool, stick: i32) -> (dir: i32)
    requires
        -1 <= stick <= 1,
    ensures
        -1 <= dir <= 1,
        dir == (if !available {
            0i32
        } else if up {
            -1i32
        } else if down {
            1i32
        } else {
            stick
        }),
{
    if !available {
        return 0;
    }
    if up {
        return -1;
    }
    if down {
        return 1;
    }
    stick
}

/// How far one frame of input moves a menu selection: the up and down keys
/// count once per press, and the gamepad counts once each time it leaves its
/// rest position.
pub open spec fn menu_step_of(up: bool, down: bool, pad_axis: i32, rested: bool) -> int {
    axis_of(down, up) + if pad_axis != 0 && rested {
        pad_axis as int
    } else {
        0
    }
}

/// One frame of menu navigation. `up` and `down` are this frame's key presses,
/// `pad_axis` the gamepad direction (-1, 0 or 1), and `pad_rested` whether the
/// gamepad was at rest on the previous frame; it is updated for the next one.
pub fn menu_step(up: bool, down: bool, pad_axis: i32, pad_rested: &mut bool) -> (step: i32)
    requires
        -1 <= pad_axis <= 1,
    ensures
        step == menu_step_of(up, down, pad_axis, *old(pad_rested)),
        *final(pad_rested) == (pad_axis == 0),
        -2 <= step <= 2,
{
    let mut step: i32 = 0;
    if up {
        step -= 1;
    }
    if down {
        step += 1;
    }
    if pad_axis != 0 && *pad_rested {
        step += pad_axis;
    }
    *pad_rested = pad_axis == 0;
    step
}

/// Holding the gamepad in one direction moves the selection once, not once
/// per frame: after the first frame it no longer counts until released.
pub proof fn lemma_held_pad_steps_once(pad_axis: i32, rested: bool)
    requires
        pad_axis != 0,
    ensures
        menu_step_of(false, false, pad_axis, rested) == (if rested {
            pad_axis as int
        } else {
            0
        }),
        menu_step_of(false, false, pad_axis, pad_axis == 0) == 0,
        menu_step_of(false, false, pad_axis, true) == pad_axis,
{
}

/// `choice` moved by `step`, wrapping around `count` options.
pub fn wrap_choice(choice: usize, step: i32, count: usize) -> (wrapped: usize)
    requires
        0 < count <= i32::MAX,
        choice <= i32::MAX,
        i32::MIN <= choice + step <= i32::MAX,
    ensures
        wrapped == (choice + step) % (count as int),
        wrapped < count,
{
    let s: i64 = choice as i64 + step as i64;
    let c: i64 = count as i64;
    if s >= 0 {
        let r = (s as u64) % (c as u64);
        r as usize
    } else {
        let neg = (-s) as u64;
        let m = neg % (c as u64);
        proof {
            let q = neg as int / c as int;
            assert(neg as int == q * c + m) by (nonlinear_arith)
                requires
                    c > 0,
                    q == neg as int / c as int,
                    m == neg as int % c as int,
            ;
            if m == 0 {
                assert(s == (-q) * c + 0) by (nonlinear_arith)
                    requires
                        neg == -s,
                        neg as int == q * c + m,
                        m == 0,
                ;
                lemma_fundamental_div_mod_converse_mod(s as int, c as int, -q, 0);
            } else {
                assert(s == (-q - 1) * c + (c - m)) by (nonlinear_arith)
                    requires
                        neg == -s,
                        neg as int == q * c + m,
                ;
                lemma_fundamental_div_mod_converse_mod(s as int, c as int, -q - 1, c - m);
            }
        }
        if m == 0 {
            0
        } else {
            (c as u64 - m) as usize
        }
    }
}

/// Moving the selection by `step` and then by `-step` comes back to where it
/// was.
pub proof fn lemma_wrap_undo(choice: int, step: int, count: int)
    requires
        0 <= choice < count,
    ensures
        ((choice + step) % count - step) % count == choice,
{
    let w = (choice + step) % count;
    let q = (choice + step) / count;
    assert(choice + step == q * count + w) by (nonlinear_arith)
        requires
            count > 0,
            q == (choice + step) / count,
            w == (choice + step) % count,
    ;
    assert(w - step == (-q) * count + choice) by (nonlinear_arith)
        requires
            choice + step == q * count + w,
    ;
    lemma_fundamental_div_mod_converse_mod(w - step, count, -q, choice);
}

} // verus!
