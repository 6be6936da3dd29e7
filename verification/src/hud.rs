use vstd::prelude::*;
use crate::combat::{Combat, FIRE_COOLDOWN, MAX_HEALTH};

verus! {

pub const CROSSHAIR_LENGTH: i32 = 8;
pub const CROSSHAIR_GAP: i32 = 5;
pub const CROSSHAIR_THICKNESS: i32 = 2;

/// A filled rectangle on screen.
#[derive(Clone, Copy, PartialEq, Eq, Structural, Debug)]
pub struct Rect {
    pub x: i32,
    pub y: i32,
    pub width: i32,
    pub height: i32,
}

/// The four arms of the crosshair around the center of a screen: above,
/// below, left and right, each `CROSSHAIR_GAP` pixels away from the center.
pub fn crosshair_arms(screen_width: i32, screen_height: i32) -> (arms: Vec<Rect>)
    requires
        0 <= screen_width,
        0 <= screen_height,
    ensures
        ({
            let cx = screen_width / 2;
            let cy = screen_height / 2;
            let half = CROSSHAIR_THICKNESS / 2;
            arms@ == seq![
                Rect {
                    x: (cx - half) as i32,
                    y: (cy - CROSSHAIR_GAP - CROSSHAIR_LENGTH) as i32,
                    width: CROSSHAIR_THICKNESS,
                    height: CROSSHAIR_LENGTH,
                },
                Rect {
                    x: (cx - half) as i32,
                    y: (cy + CROSSHAIR_GAP) as i32,
                    width: CROSSHAIR_THICKNESS,
                    height: CROSSHAIR_LENGTH,
                },
                Rect {
                    x: (cx - CROSSHAIR_GAP - CROSSHAIR_LENGTH) as i32,
                    y: (cy - half) as i32,
                    width: CROSSHAIR_LENGTH,
                    height: CROSSHAIR_THICKNESS,
                },
                Rect {
                    x: (cx + CROSSHAIR_GAP) as i32,
                    y: (cy - half) as i32,
                    width: CROSSHAIR_LENGTH,
                    height: CROSSHAIR_THICKNESS,
                },
            ]
        }),
{
    let cx = screen_width / 2;
    let cy = screen_height / 2;
    let thickness = CROSSHAIR_THICKNESS;
    let half = thickness / 2;
    let mut arms: Vec<Rect> = Vec::new();
    arms.push(
        Rect {
            x: cx - half,
            y: cy - CROSSHAIR_GAP - CROSSHAIR_LENGTH,
            width: thickness,
            height: CROSSHAIR_LENGTH,
        },
    );
    arms.push(
        Rect { x: cx - half, y: cy + CROSSHAIR_GAP, width: thickness, height: CROSSHAIR_LENGTH },
    );
    arms.push(
        Rect {
            x: cx - CROSSHAIR_GAP - CROSSHAIR_LENGTH,
            y: cy - half,
            width: CROSSHAIR_LENGTH,
            height: thickness,
        },
    );
    arms.push(
        Rect { x: cx + CROSSHAIR_GAP, y: cy - half, width: CROSSHAIR_LENGTH, height: thickness },
    );
    arms
}

/// How urgent the health bar looks.
#[derive(Clone, Copy, PartialEq, Eq, Structural, Debug)]
pub enum HealthTier {
    /// More than half of `MAX_HEALTH` left.
    Healthy,
    /// More than a quarter left.
    Wounded,
    /// A quarter or less left.
    Critical,
}

/// The health bar's color tier: above half of the maximum, above a quarter,
/// or below.
pub fn health_tier(health: i32) -> (tier: HealthTier)
    ensures
        tier == (if 2 * health > MAX_HEALTH {
            HealthTier::Healthy
        } else if 4 * health > MAX_HEALTH {
            HealthTier::Wounded
        } else {
            HealthTier::Critical
        }),
{
    if health > MAX_HEALTH / 2 {
        HealthTier::Healthy
    } else if health > MAX_HEALTH / 4 {
        HealthTier::Wounded
    } else {
        HealthTier::Critical
    }
}

/// Whether the weapon shows its muzzle-flash frame: during the first 40% of
/// the cooldown that follows a shot.
pub fn muzzle_flash(combat: &Combat) -> (firing: bool)
    ensures
        firing == (10 * combat.shot_timer > 6 * FIRE_COOLDOWN),
{
    combat.shot_timer > FIRE_COOLDOWN / 10 * 6
}

/// What the ammunition line of the HUD shows.
#[derive(Clone, Copy, PartialEq, Eq, Structural, Debug)]
pub enum AmmoLabel {
    /// A reload is under way.
    Reloading,
    /// The rounds left in the magazine, out of `MAG_SIZE`.
    Rounds(i32),
}

/// The ammunition line: "reloading" during a reload, the rounds left
/// otherwise.
pub fn ammo_label(combat: &Combat) -> (label: AmmoLabel)
    ensures
        label == (if combat.spec_reloading() {
            AmmoLabel::Reloading
        } else {
            AmmoLabel::Rounds(combat.ammo)
        }),
{
    if combat.reloading() {
        AmmoLabel::Reloading
    } else {
        AmmoLabel::Rounds(combat.ammo)
    }
}

/// What the enemy counter of the HUD shows.
#[derive(Clone, Copy, PartialEq, Eq, Structural, Debug)]
pub enum EnemiesLabel {
    /// No enemy is left.
    Cleared,
    /// This many enemies are left.
    Remaining(usize),
}

/// The enemy counter: "level cleared" once none is left, the count
/// otherwise. Killing enemies is optional, so this only informs.
pub fn enemies_label(remaining: usize) -> (label: EnemiesLabel)
    ensures
        label == (if remaining == 0 {
            EnemiesLabel::Cleared
        } else {
            EnemiesLabel::Remaining(remaining)
        }),
{
    if remaining == 0 {
        EnemiesLabel::Cleared
    } else {
        EnemiesLabel::Remaining(remaining)
    }
}

} // verus!
