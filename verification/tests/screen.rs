use laberinto::caster::Side;
use laberinto::color::Color;
use laberinto::combat::{Combat, FIRE_COOLDOWN};
use laberinto::framebuffer::{clip_column, in_bounds, span_len};
use laberinto::hud::{
    ammo_label, crosshair_arms, enemies_label, health_tier, muzzle_flash, AmmoLabel,
    EnemiesLabel, HealthTier, Rect,
};
use laberinto::render::cell_color;

#[test]
fn columns_are_clipped_to_the_buffer() {
    assert_eq!(clip_column(3, -10, 500, 10, 100), Some((0, 100)));
    assert_eq!(clip_column(3, 20, 30, 10, 100), Some((20, 11)));
    assert_eq!(clip_column(10, 20, 30, 10, 100), None);
    assert_eq!(clip_column(-1, 20, 30, 10, 100), None);
    assert_eq!(clip_column(3, 60, 50, 10, 100), None);
    assert_eq!(clip_column(3, 150, 200, 10, 100), None);
}

#[test]
fn spans_cover_at_least_one_pixel() {
    assert_eq!(span_len(4, 10), 6);
    assert_eq!(span_len(4, 4), 1);
    assert_eq!(span_len(4, 2), 1);
    assert!(in_bounds(0, 0, 1, 1));
    assert!(!in_bounds(1, 0, 1, 1));
    assert!(!in_bounds(0, -1, 1, 1));
}

#[test]
fn the_crosshair_surrounds_the_center() {
    let arms = crosshair_arms(1280, 720);
    assert_eq!(
        arms,
        vec![
            Rect { x: 639, y: 347, width: 2, height: 8 },
            Rect { x: 639, y: 365, width: 2, height: 8 },
            Rect { x: 627, y: 359, width: 8, height: 2 },
            Rect { x: 645, y: 359, width: 8, height: 2 },
        ]
    );
}

#[test]
fn health_tiers_follow_the_thresholds() {
    assert_eq!(health_tier(100), HealthTier::Healthy);
    assert_eq!(health_tier(51), HealthTier::Healthy);
    assert_eq!(health_tier(50), HealthTier::Wounded);
    assert_eq!(health_tier(26), HealthTier::Wounded);
    assert_eq!(health_tier(25), HealthTier::Critical);
    assert_eq!(health_tier(0), HealthTier::Critical);
}

#[test]
fn the_muzzle_flash_shows_right_after_a_shot() {
    let mut c = Combat::default();
    assert!(!muzzle_flash(&c));
    c.spend_round();
    assert!(muzzle_flash(&c));
    c.tick(FIRE_COOLDOWN * 4 / 10);
    assert!(!muzzle_flash(&c));
}

#[test]
fn cells_have_flat_colors() {
    assert_eq!(cell_color('+'), Color::new(0x3A, 0x3F, 0x6B, 255));
    assert_eq!(cell_color('g'), Color::new(0x5E, 0xD9, 0x8A, 255));
    assert_eq!(cell_color('p'), Color::new(0x2A, 0x2D, 0x3E, 255));
    assert_eq!(cell_color('e'), cell_color(' '));
    assert_ne!(Side::Vertical, Side::Horizontal);
}

#[test]
fn the_hud_labels_follow_the_state() {
    let mut c = Combat::default();
    assert_eq!(ammo_label(&c), AmmoLabel::Rounds(8));
    c.ammo = 3;
    c.start_reload();
    assert_eq!(ammo_label(&c), AmmoLabel::Reloading);
    assert_eq!(enemies_label(0), EnemiesLabel::Cleared);
    assert_eq!(enemies_label(4), EnemiesLabel::Remaining(4));
}
