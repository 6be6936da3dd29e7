use laberinto::combat::{
    nearest_alive, play_frame, remaining, shoot, shot_sounds, update_enemies, Combat, Sfx,
    ShotResult,
    CONTACT_DAMAGE,
    FIRE_COOLDOWN, MAG_SIZE, MAX_HEALTH, RELOAD_TIME,
};
use laberinto::sprites::Enemy;

/// Reach of an enemy, as a fraction of a cell (the game's contact distance).
const REACH: f32 = 0.6;
/// One 60 FPS frame, in microseconds.
const FRAME: u64 = 16_000;

#[test]
fn el_cargador_vacio_no_dispara() {
    let mut c = Combat::default();
    for _ in 0..MAG_SIZE {
        assert!(c.spend_round());
        c.shot_timer = 0; // saltear la cadencia
    }
    assert_eq!(c.ammo, 0);
    assert!(!c.can_shoot());
    assert!(!c.spend_round());
}

#[test]
fn la_cadencia_bloquea_el_segundo_tiro() {
    let mut c = Combat::default();
    assert!(c.spend_round());
    assert!(!c.can_shoot(), "no puede disparar de nuevo al instante");
    c.tick(FIRE_COOLDOWN);
    assert!(c.can_shoot());
}

#[test]
fn recargar_llena_el_cargador_pero_tarda() {
    let mut c = Combat::default();
    c.ammo = 2;
    assert!(c.start_reload());
    assert!(c.reloading());
    assert!(!c.can_shoot(), "no se dispara mientras recarga");
    c.tick(RELOAD_TIME);
    assert_eq!(c.ammo, MAG_SIZE);
    assert!(!c.reloading());
}

#[test]
fn no_se_recarga_con_el_cargador_lleno() {
    let mut c = Combat::default();
    assert!(!c.start_reload());
}

#[test]
fn la_vida_no_baja_de_cero() {
    let mut c = Combat::default();
    c.take_damage(MAX_HEALTH * 2);
    assert_eq!(c.health, 0);
    assert!(!c.alive());
}

#[test]
fn un_muerto_no_dispara() {
    let mut c = Combat::default();
    c.take_damage(MAX_HEALTH);
    assert!(!c.can_shoot());
}

/// One enemy at (100, 100) and the player `distancia` pixels to its right;
/// the third value says whether the player is within the enemy's reach.
fn escenario(distancia: f32, bs: usize) -> (Vec<Enemy>, Vec<bool>, Combat) {
    let enemigo = Enemy::new((5, 5), 'e');
    let (ex, ey) = (100.0f32, 100.0f32);
    let (px, py) = (100.0 + distancia, 100.0f32);
    let toca = (px - ex).hypot(py - ey) <= REACH * bs as f32;
    (vec![enemigo], vec![toca], Combat::default())
}

#[test]
fn tocar_a_un_enemigo_hace_dano() {
    let bs = 20;
    let (mut enemies, toca, mut combat) = escenario(REACH * bs as f32 * 0.5, bs);
    assert!(update_enemies(&mut enemies, &toca, &mut combat, FRAME));
    assert_eq!(combat.health, MAX_HEALTH - CONTACT_DAMAGE);
}

#[test]
fn de_lejos_no_hace_dano() {
    let bs = 20;
    let (mut enemies, toca, mut combat) = escenario(bs as f32 * 3.0, bs);
    assert!(!update_enemies(&mut enemies, &toca, &mut combat, FRAME));
    assert_eq!(combat.health, MAX_HEALTH);
}

#[test]
fn un_jugador_muerto_no_sigue_recibiendo_golpes() {
    let bs = 20;
    let (mut enemies, toca, mut combat) = escenario(REACH * bs as f32 * 0.5, bs);
    update_enemies(&mut enemies, &toca, &mut combat, FRAME);
    assert!(!combat.alive());
    // Ya muerto, el enemigo deja de contar como golpe nuevo.
    assert!(!update_enemies(&mut enemies, &toca, &mut combat, FRAME));
}

#[test]
fn un_enemigo_muerto_no_lastima() {
    let bs = 20;
    let (mut enemies, toca, mut combat) = escenario(REACH * bs as f32 * 0.5, bs);
    for _ in 0..3 {
        enemies[0].hit();
    }
    assert!(!update_enemies(&mut enemies, &toca, &mut combat, FRAME));
    assert_eq!(combat.health, MAX_HEALTH);
}

/// Order keys of the distances from `from` to each position.
fn distance_keys(positions: &[(f32, f32)], from: (f32, f32)) -> Vec<u32> {
    positions
        .iter()
        .map(|(x, y)| (x - from.0).hypot(y - from.1).to_bits())
        .collect()
}

#[test]
fn el_zumbido_sigue_al_enemigo_mas_cercano() {
    let enemies = vec![Enemy::new((10, 0), 'e'), Enemy::new((1, 0), 'e')];
    let keys = distance_keys(&[(500.0, 0.0), (50.0, 0.0)], (0.0, 0.0));
    let d = nearest_alive(&enemies, &keys).unwrap();
    assert_eq!(f32::from_bits(d), 50.0);
}

#[test]
fn los_muertos_no_zumban() {
    let mut enemies = vec![Enemy::new((1, 0), 'e')];
    for _ in 0..3 {
        enemies[0].hit();
    }
    let keys = distance_keys(&[(50.0, 0.0)], (0.0, 0.0));
    assert!(nearest_alive(&enemies, &keys).is_none());
}

#[test]
fn remaining_cuenta_solo_los_vivos() {
    let mut enemies = vec![Enemy::new((0, 0), 'e'), Enemy::new((1, 1), 'e')];
    assert_eq!(remaining(&enemies), 2);
    for _ in 0..3 {
        enemies[0].hit();
    }
    assert_eq!(remaining(&enemies), 1, "todavía queda uno");
    for _ in 0..3 {
        enemies[1].hit();
    }
    assert_eq!(remaining(&enemies), 0);
}

#[test]
fn shoot_hits_the_nearest_visible_live_enemy() {
    let mut combat = Combat::default();
    let mut enemies = vec![
        Enemy::new((1, 1), 'e'),
        Enemy::new((2, 1), 'e'),
        Enemy::new((3, 1), 'e'),
    ];
    let candidates = vec![Some(30.0f32.to_bits()), None, Some(20.0f32.to_bits())];
    let result = shoot(&mut combat, &mut enemies, &candidates);
    assert_eq!(result, ShotResult::Hit { killed: false });
    assert_eq!(enemies[2].health, 2);
    assert_eq!(enemies[0].health, 3);
    assert_eq!(combat.ammo, MAG_SIZE - 1);
    assert_eq!(combat.shot_timer, FIRE_COOLDOWN);
}

#[test]
fn shoot_prefers_the_first_of_equally_near_enemies() {
    let mut combat = Combat::default();
    let mut enemies = vec![Enemy::new((1, 1), 'e'), Enemy::new((2, 1), 'e')];
    let candidates = vec![Some(7), Some(7)];
    shoot(&mut combat, &mut enemies, &candidates);
    assert_eq!(enemies[0].health, 2);
    assert_eq!(enemies[1].health, 3);
}

#[test]
fn shoot_skips_dead_enemies_and_misses_without_candidates() {
    let mut combat = Combat::default();
    let mut enemies = vec![Enemy::new((1, 1), 'e')];
    enemies[0].health = 0;
    let result = shoot(&mut combat, &mut enemies, &vec![Some(1)]);
    assert_eq!(result, ShotResult::Missed);
    assert_eq!(combat.ammo, MAG_SIZE - 1);
}

#[test]
fn shoot_is_blocked_without_rounds_and_changes_nothing() {
    let mut combat = Combat::default();
    combat.ammo = 0;
    let mut enemies = vec![Enemy::new((1, 1), 'e')];
    let result = shoot(&mut combat, &mut enemies, &vec![Some(1)]);
    assert_eq!(result, ShotResult::Blocked);
    assert_eq!(enemies[0].health, 3);
    assert_eq!(combat, Combat { ammo: 0, ..Combat::default() });
}

#[test]
fn the_third_shot_kills_and_lowers_remaining() {
    let mut combat = Combat::default();
    let mut enemies = vec![Enemy::new((1, 1), 'e')];
    let candidates = vec![Some(1)];
    let mut results = Vec::new();
    for _ in 0..3 {
        results.push(shoot(&mut combat, &mut enemies, &candidates));
        combat.tick(FIRE_COOLDOWN);
    }
    assert_eq!(
        results,
        vec![
            ShotResult::Hit { killed: false },
            ShotResult::Hit { killed: false },
            ShotResult::Hit { killed: true }
        ]
    );
    assert_eq!(remaining(&enemies), 0);
    assert_eq!(shoot(&mut combat, &mut enemies, &candidates), ShotResult::Missed);
}

#[test]
fn ticking_in_pieces_equals_ticking_at_once() {
    let mut a = Combat::default();
    a.ammo = 3;
    a.start_reload();
    a.spend_round();
    let mut b = a;
    for _ in 0..10 {
        a.tick(70_000);
    }
    b.tick(700_000);
    assert_eq!(a, b);
    assert!(a.reloading());
    a.tick(300_000);
    assert_eq!(a.ammo, MAG_SIZE);
    assert!(!a.reloading());
}

#[test]
fn reload_is_refused_while_reloading_and_when_dead() {
    let mut c = Combat::default();
    c.ammo = 1;
    assert!(c.start_reload());
    assert!(!c.start_reload());
    let mut dead = Combat::default();
    dead.ammo = 1;
    dead.take_damage(MAX_HEALTH);
    assert!(!dead.start_reload());
}

#[test]
fn damage_starts_the_red_flash() {
    let mut c = Combat::default();
    c.take_damage(10);
    assert_eq!(c.health, 90);
    assert_eq!(c.hurt_flash, laberinto::combat::HURT_FLASH_TIME);
    c.tick(1_000_000);
    assert_eq!(c.hurt_flash, 0);
}

#[test]
fn contact_cooldown_and_hit_flash_run_down() {
    let mut combat = Combat::default();
    combat.health = 1_000;
    let mut enemies = vec![Enemy::new((1, 1), 'e'), Enemy::new((2, 1), 'e')];
    enemies[1].hit_flash = 50_000;
    let touching = vec![true, true];
    assert!(update_enemies(&mut enemies, &touching, &mut combat, FRAME));
    // Only one enemy lands a hit per cooldown.
    assert_eq!(combat.health, 1_000 - CONTACT_DAMAGE);
    assert_eq!(combat.attack_timer, laberinto::combat::ATTACK_COOLDOWN);
    assert_eq!(enemies[1].hit_flash, 50_000 - FRAME);
    assert!(!update_enemies(&mut enemies, &touching, &mut combat, FRAME));
}

#[test]
fn the_trigger_sounds_follow_the_result() {
    let mut empty = Combat::default();
    empty.ammo = 0;
    assert_eq!(shot_sounds(ShotResult::Blocked, &empty), vec![Sfx::Empty]);
    empty.reload_timer = 5;
    assert!(shot_sounds(ShotResult::Blocked, &empty).is_empty());
    let c = Combat::default();
    assert!(shot_sounds(ShotResult::Blocked, &c).is_empty());
    assert_eq!(shot_sounds(ShotResult::Missed, &c), vec![Sfx::Shot]);
    assert_eq!(shot_sounds(ShotResult::Hit { killed: true }, &c), vec![Sfx::Shot, Sfx::Death]);
    assert_eq!(shot_sounds(ShotResult::Hit { killed: false }, &c), vec![Sfx::Shot, Sfx::Impact]);
}

#[test]
fn a_frame_reloads_shoots_then_takes_contact_damage() {
    let mut combat = Combat::default();
    combat.ammo = 1;
    let mut enemies = vec![Enemy::new((1, 1), 'e'), Enemy::new((2, 1), 'e')];
    let candidates = vec![None, Some(9)];
    let touching = vec![false, false];
    // One round left: the reload starts, and it blocks the shot.
    let out = play_frame(&mut combat, &mut enemies, FRAME, true, true, &candidates, &touching);
    assert!(out.reloaded);
    assert_eq!(out.shot, Some(ShotResult::Blocked));
    assert_eq!(out.sounds, vec![Sfx::Reload]);
    assert!(out.alive && !out.hurt);
    assert_eq!(enemies[1].health, 3);
    // After the reload, a shot hits enemy 1 and enemy 0 touches the player.
    let out = play_frame(&mut combat, &mut enemies, RELOAD_TIME, false, true, &candidates, &vec![true, false]);
    assert_eq!(out.shot, Some(ShotResult::Hit { killed: false }));
    assert_eq!(combat.ammo, MAG_SIZE - 1);
    assert!(out.hurt && !out.alive);
    assert_eq!(out.sounds, vec![Sfx::Shot, Sfx::Impact, Sfx::Hurt]);
    assert_eq!(enemies[1].health, 2);
}

#[test]
fn an_empty_trigger_clicks_within_a_frame() {
    let mut combat = Combat::default();
    combat.ammo = 0;
    let mut enemies = vec![Enemy::new((1, 1), 'e')];
    let out = play_frame(&mut combat, &mut enemies, FRAME, false, true, &vec![Some(1)], &vec![false]);
    assert_eq!(out.shot, Some(ShotResult::Blocked));
    assert_eq!(out.sounds, vec![Sfx::Empty]);
    let out = play_frame(&mut combat, &mut enemies, FRAME, false, false, &vec![Some(1)], &vec![false]);
    assert_eq!(out.shot, None);
    assert!(out.sounds.is_empty());
}
