use vstd::prelude::*;
use crate::sprites::{Enemy, after_hit, hit_kills};

verus! {

// Durations are counted in whole microseconds.

/// Rounds per magazine.
pub const MAG_SIZE: i32 = 8;
/// How long a reload takes.
pub const RELOAD_TIME: u64 = 1_000_000;
/// Shortest time between two shots.
pub const FIRE_COOLDOWN: u64 = 350_000;
/// Health the player starts with.
pub const MAX_HEALTH: i32 = 100;
/// Touching an enemy kills outright: enemies are poisonous statues that do not
/// chase, but walking into one is paid dearly.
pub const CONTACT_DAMAGE: i32 = MAX_HEALTH;
/// Shortest time between two contact hits.
pub const ATTACK_COOLDOWN: u64 = 800_000;
/// How long the red flash lasts after taking damage.
pub const HURT_FLASH_TIME: u64 = 350_000;

/// `a - b`, stopping at zero.
pub open spec fn sat_sub(a: u64, b: u64) -> u64 {
    if a > b {
        (a - b) as u64
    } else {
        0
    }
}

/// The player's ammunition, health and timers.
#[derive(Clone, Copy, PartialEq, Eq, Structural, Debug)]
pub struct Combat {
    pub health: i32,
    pub ammo: i32,
    /// Time left of the reload in progress; zero when not reloading.
    pub reload_timer: u64,
    /// Time left before the next shot is allowed.
    pub shot_timer: u64,
    /// Time left of the red damage flash.
    pub hurt_flash: u64,
    /// Time left before an enemy can hurt the player again.
    pub attack_timer: u64,
}

/// The state every operation keeps: health is never negative and the
/// magazine holds between zero and `MAG_SIZE` rounds.
pub open spec fn combat_ok(c: Combat) -> bool {
    c.health >= 0 && 0 <= c.ammo <= MAG_SIZE
}

/// The combat state after `dt` microseconds: every timer runs down to zero,
/// and a reload that runs out refills the magazine.
pub open spec fn ticked(c: Combat, dt: u64) -> Combat {
    let reloaded = c.reload_timer > 0 && c.reload_timer <= dt;
    Combat {
        shot_timer: sat_sub(c.shot_timer, dt),
        hurt_flash: sat_sub(c.hurt_flash, dt),
        attack_timer: sat_sub(c.attack_timer, dt),
        reload_timer: sat_sub(c.reload_timer, dt),
        ammo: if reloaded {
            MAG_SIZE
        } else {
            c.ammo
        },
        ..c
    }
}

/// The combat state after taking `amount` damage.
pub open spec fn damaged(c: Combat, amount: i32) -> Combat {
    Combat {
        health: if c.health - amount > 0 {
            (c.health - amount) as i32
        } else {
            0
        },
        hurt_flash: HURT_FLASH_TIME,
        ..c
    }
}

impl Default for Combat {
    fn default() -> (c: Combat)
        ensures
            c == (Combat {
                health: MAX_HEALTH,
                ammo: MAG_SIZE,
                reload_timer: 0,
                shot_timer: 0,
                hurt_flash: 0,
                attack_timer: 0,
            }),
    {
        Combat {
            health: MAX_HEALTH,
            ammo: MAG_SIZE,
            reload_timer: 0,
            shot_timer: 0,
            hurt_flash: 0,
            attack_timer: 0,
        }
    }
}

impl Combat {
    pub open spec fn spec_alive(&self) -> bool {
        self.health > 0
    }

    pub open spec fn spec_reloading(&self) -> bool {
        self.reload_timer > 0
    }

    /// A shot is allowed when alive, with rounds in the magazine, the cooldown
    /// over and no reload in progress.
    pub open spec fn spec_can_shoot(&self) -> bool {
        self.spec_alive() && self.ammo > 0 && self.shot_timer == 0 && !self.spec_reloading()
    }

    #[verifier::when_used_as_spec(spec_alive)]
    pub fn alive(&self) -> (alive: bool)
        ensures
            alive == self.spec_alive(),
    {
        self.health > 0
    }

    #[verifier::when_used_as_spec(spec_reloading)]
    pub fn reloading(&self) -> (reloading: bool)
        ensures
            reloading == self.spec_reloading(),
    {
        self.reload_timer > 0
    }

    /// Whether a shot can be fired now.
    #[verifier::when_used_as_spec(spec_can_shoot)]
    pub fn can_shoot(&self) -> (can: bool)
        ensures
            can == self.spec_can_shoot(),
    {
        self.alive() && self.ammo > 0 && self.shot_timer == 0 && !self.reloading()
    }

    /// Spends one round. Returns `false`, changing nothing, when no shot can be
    /// fired.
    pub fn spend_round(&mut self) -> (fired: bool)
        ensures
            fired == old(self).spec_can_shoot(),
            fired ==> *final(self) == (Combat {
                ammo: (old(self).ammo - 1) as i32,
                shot_timer: FIRE_COOLDOWN,
                ..*old(self)
            }),
            !fired ==> *final(self) == *old(self),
            combat_ok(*old(self)) ==> combat_ok(*final(self)),
    {
        if !self.can_shoot() {
            return false;
        }
        self.ammo = self.ammo - 1;
        self.shot_timer = FIRE_COOLDOWN;
        true
    }

    /// Starts a reload. Does nothing, returning `false`, while reloading, with
    /// a full magazine, or when dead.
    pub fn start_reload(&mut self) -> (started: bool)
        ensures
            started == !(old(self).spec_reloading() || old(self).ammo >= MAG_SIZE
                || !old(self).spec_alive()),
            started ==> *final(self) == (Combat { reload_timer: RELOAD_TIME, ..*old(self) }),
            !started ==> *final(self) == *old(self),
            combat_ok(*old(self)) ==> combat_ok(*final(self)),
    {
        if self.reloading() || self.ammo >= MAG_SIZE || !self.alive() {
            return false;
        }
        self.reload_timer = RELOAD_TIME;
        true
    }

    /// Loses `amount` health, stopping at zero, and starts the red flash.
    pub fn take_damage(&mut self, amount: i32)
        requires
            i32::MIN <= old(self).health - amount <= i32::MAX,
        ensures
            *final(self) == damaged(*old(self), amount),
            amount < old(self).health ==> final(self).health == old(self).health - amount,
            amount >= old(self).health ==> final(self).health == 0,
            final(self).hurt_flash == HURT_FLASH_TIME,
            combat_ok(*old(self)) ==> combat_ok(*final(self)),
            amount >= 0 && old(self).health >= 0 ==> final(self).health <= old(self).health,
    {
        let h = self.health - amount;
        self.health = if h > 0 {
            h
        } else {
            0
        };
        self.hurt_flash = HURT_FLASH_TIME;
    }

    /// Runs the timers down by `dt` microseconds and completes the reload when
    /// its time is up.
    pub fn tick(&mut self, dt: u64)
        ensures
            *final(self) == ticked(*old(self), dt),
            combat_ok(*old(self)) ==> combat_ok(*final(self)),
    {
        self.shot_timer = if self.shot_timer > dt {
            self.shot_timer - dt
        } else {
            0
        };
        self.hurt_flash = if self.hurt_flash > dt {
            self.hurt_flash - dt
        } else {
            0
        };
        self.attack_timer = if self.attack_timer > dt {
            self.attack_timer - dt
        } else {
            0
        };
        if self.reloading() {
            if self.reload_timer <= dt {
                self.reload_timer = 0;
                self.ammo = MAG_SIZE;
            } else {
                self.reload_timer = self.reload_timer - dt;
            }
        }
    }
}

/// Number of live enemies.
pub open spec fn count_alive(es: Seq<Enemy>) -> nat
    decreases es.len(),
{
    if es.len() == 0 {
        0
    } else {
        count_alive(es.drop_last()) + if es.last().health > 0 {
            1nat
        } else {
            0nat
        }
    }
}

pub open spec fn alive_count(e: Enemy) -> int {
    if e.health > 0 {
        1
    } else {
        0
    }
}

/// Replacing one enemy changes the count of live ones by the difference of
/// their states.
pub proof fn lemma_count_alive_update(es: Seq<Enemy>, k: int, x: Enemy)
    requires
        0 <= k < es.len(),
    ensures
        count_alive(es.update(k, x)) == count_alive(es) - alive_count(es[k]) + alive_count(x),
        count_alive(es) <= es.len(),
    decreases es.len(),
{
    let u = es.update(k, x);
    if k == es.len() - 1 {
        assert(u.drop_last() =~= es.drop_last());
    } else {
        lemma_count_alive_update(es.drop_last(), k, x);
        assert(u.drop_last() =~= es.drop_last().update(k, x));
    }
    lemma_count_alive_bound(es);
}

pub proof fn lemma_count_alive_bound(es: Seq<Enemy>)
    ensures
        count_alive(es) <= es.len(),
    decreases es.len(),
{
    if es.len() > 0 {
        lemma_count_alive_bound(es.drop_last());
    }
}

/// Whether enemy `k` can take the shot: alive, and with a candidate distance.
pub open spec fn eligible(es: Seq<Enemy>, cands: Seq<Option<u32>>, k: int) -> bool {
    es[k].health > 0 && cands[k] is Some
}

/// Enemy `t` is the nearest eligible one, and the first among equally near
/// ones.
pub open spec fn first_nearest(es: Seq<Enemy>, cands: Seq<Option<u32>>, t: int) -> bool {
    &&& 0 <= t < es.len()
    &&& eligible(es, cands, t)
    &&& forall|k: int|
        0 <= k < es.len() && #[trigger] eligible(es, cands, k) ==> cands[t]->0 <= cands[k]->0
    &&& forall|k: int| 0 <= k < t && #[trigger] eligible(es, cands, k) ==> cands[t]->0 < cands[k]->0
}

/// What pulling the trigger did, so the caller can pick the sound.
#[derive(Clone, Copy, PartialEq, Eq, Structural, Debug)]
pub enum ShotResult {
    /// No shot: empty magazine, reloading, cooling down or dead.
    Blocked,
    /// The shot went off and hit nobody.
    Missed,
    /// The shot hit an enemy; `killed` if it died from it.
    Hit { killed: bool },
}

/// A one-shot sound effect.
#[derive(Clone, Copy, PartialEq, Eq, Structural, Debug)]
pub enum Sfx {
    /// The gun going off.
    Shot,
    /// An enemy dying.
    Death,
    /// An enemy taking a hit and surviving.
    Impact,
    /// The dry click of the trigger on an empty magazine.
    Empty,
    /// A reload starting.
    Reload,
    /// The player taking damage.
    Hurt,
}

/// The sounds of a shot with result `r`, `c` being the combat state after it.
pub open spec fn shot_sfx(r: ShotResult, c: Combat) -> Seq<Sfx> {
    match r {
        ShotResult::Blocked => if c.ammo == 0 && !c.spec_reloading() {
            seq![Sfx::Empty]
        } else {
            Seq::<Sfx>::empty()
        },
        ShotResult::Missed => seq![Sfx::Shot],
        ShotResult::Hit { killed } => seq![
            Sfx::Shot,
            if killed {
                Sfx::Death
            } else {
                Sfx::Impact
            },
        ],
    }
}

/// The sounds that pulling the trigger makes, given the shot's result and the
/// combat state after it: a blocked shot only clicks when the magazine is
/// empty and no reload is under way (otherwise it is silent); a shot that
/// went off sounds, followed by the death or the impact of the enemy hit.
pub fn shot_sounds(result: ShotResult, combat: &Combat) -> (sounds: Vec<Sfx>)
    ensures
        sounds@ == shot_sfx(result, *combat),
{
    let mut sounds: Vec<Sfx> = Vec::new();
    match result {
        ShotResult::Blocked => {
            if combat.ammo == 0 && !combat.reloading() {
                sounds.push(Sfx::Empty);
            }
        },
        ShotResult::Missed => sounds.push(Sfx::Shot),
        ShotResult::Hit { killed } => {
            sounds.push(Sfx::Shot);
            if killed {
                sounds.push(Sfx::Death);
            } else {
                sounds.push(Sfx::Impact);
            }
        },
    }
    proof {
        assert(sounds@ =~= shot_sfx(result, *combat));
    }
    sounds
}

/// What one pull of the trigger does, from combat state `c0` and enemies
/// `es0` to `c1` and `es1` with result `r`: nothing, `Blocked`, when no shot
/// is allowed; otherwise a round is spent, and the nearest live candidate
/// (the first among equally near ones) takes the hit, or the shot is
/// `Missed` when there is none.
pub open spec fn shot_effect(
    c0: Combat,
    es0: Seq<Enemy>,
    cs: Seq<Option<u32>>,
    c1: Combat,
    es1: Seq<Enemy>,
    r: ShotResult,
) -> bool {
    &&& !c0.spec_can_shoot() ==> {
        &&& r == ShotResult::Blocked
        &&& c1 == c0
        &&& es1 == es0
    }
    &&& c0.spec_can_shoot() ==> c1 == (Combat {
        ammo: (c0.ammo - 1) as i32,
        shot_timer: FIRE_COOLDOWN,
        ..c0
    })
    &&& c0.spec_can_shoot() && (forall|k: int| 0 <= k < es0.len() ==> !#[trigger] eligible(es0, cs, k))
        ==> r == ShotResult::Missed && es1 == es0
    &&& c0.spec_can_shoot() && (exists|k: int| 0 <= k < es0.len() && #[trigger] eligible(es0, cs, k))
        ==> exists|t: int|
        #[trigger] first_nearest(es0, cs, t) && es1 == es0.update(t, after_hit(es0[t])) && r
            == (ShotResult::Hit { killed: hit_kills(es0[t]) })
}

/// One frame of contact, from `c0` and `es0` to `c1` and `es1`: every hit
/// flash runs down by `dt`, and the player is hurt (`hurt`) exactly when
/// alive, out of the contact cooldown, and touching a live enemy.
pub open spec fn contact_effect(
    c0: Combat,
    es0: Seq<Enemy>,
    touching: Seq<bool>,
    dt: u64,
    c1: Combat,
    es1: Seq<Enemy>,
    hurt: bool,
) -> bool {
    &&& es1.len() == es0.len()
    &&& forall|k: int|
        0 <= k < es0.len() ==> #[trigger] es1[k] == (Enemy {
            hit_flash: sat_sub(es0[k].hit_flash, dt),
            ..es0[k]
        })
    &&& hurt == (c0.spec_alive() && c0.attack_timer == 0 && exists|k: int|
        0 <= k < es0.len() && (#[trigger] es0[k]).health > 0 && touching[k])
    &&& hurt ==> c1 == (Combat { attack_timer: ATTACK_COOLDOWN, ..damaged(c0, CONTACT_DAMAGE) })
    &&& !hurt ==> c1 == c0
}

/// Fires at the center of the screen.
///
/// `candidates[k]` is `Some(d)` when enemy `k`'s sprite covers the central
/// screen column and no wall stands in front of it, `d` being an order key of
/// its distance (a smaller key is a nearer enemy). The shot hits the nearest
/// live candidate, the first one among equally near ones.
pub fn shoot(combat: &mut Combat, enemies: &mut Vec<Enemy>, candidates: &Vec<Option<u32>>) -> (result: ShotResult)
    requires
        old(enemies)@.len() == candidates@.len(),
    ensures
        shot_effect(*old(combat), old(enemies)@, candidates@, *final(combat), final(enemies)@, result),
        count_alive(final(enemies)@) == count_alive(old(enemies)@) - if result == (ShotResult::Hit {
            killed: true,
        }) {
            1int
        } else {
            0int
        },
        combat_ok(*old(combat)) ==> combat_ok(*final(combat)),
{
    if !combat.spend_round() {
        return ShotResult::Blocked;
    }
    let ghost es = enemies@;
    let ghost cs = candidates@;
    let mut best: Option<(usize, u32)> = None;
    let n = enemies.len();
    for k in 0..n
        invariant
            n == es.len(),
            es == enemies@,
            cs == candidates@,
            es.len() == cs.len(),
            best is None ==> forall|q: int| 0 <= q < k ==> !#[trigger] eligible(es, cs, q),
            best matches Some(b) ==> {
                &&& b.0 < k
                &&& eligible(es, cs, b.0 as int)
                &&& cs[b.0 as int] == Some(b.1)
                &&& forall|q: int| 0 <= q < k && #[trigger] eligible(es, cs, q) ==> b.1 <= cs[q]->0
                &&& forall|q: int| 0 <= q < b.0 && #[trigger] eligible(es, cs, q) ==> b.1 < cs[q]->0
            },
    {
        if enemies[k].alive() {
            if let Some(d) = candidates[k] {
                let better = match best {
                    None => true,
                    Some(b) => d < b.1,
                };
                if better {
                    best = Some((k, d));
                }
            }
        }
    }
    match best {
        Some(b) => {
            let idx = b.0;
            let mut e = enemies[idx];
            let killed = e.hit();
            enemies.set(idx, e);
            proof {
                assert(first_nearest(es, cs, idx as int));
                lemma_count_alive_update(es, idx as int, after_hit(es[idx as int]));
            }
            ShotResult::Hit { killed }
        },
        None => ShotResult::Missed,
    }
}

/// What a playing frame did to the player and the enemies.
#[derive(PartialEq, Eq, Debug)]
pub struct FrameOutcome {
    /// A reload started.
    pub reloaded: bool,
    /// The result of pulling the trigger, when it was pulled.
    pub shot: Option<ShotResult>,
    /// An enemy hurt the player.
    pub hurt: bool,
    /// The player is still alive after the frame.
    pub alive: bool,
    /// The sounds to play, in order.
    pub sounds: Vec<Sfx>,
}

/// One playing frame of combat, in the game's order: the timers run for `dt`
/// microseconds; a requested reload starts if allowed; a pulled trigger
/// fires at the candidates (see `shoot`); then contact damage is applied
/// (see `update_enemies`). The sounds are the reload's, then the shot's, then
/// the hurt one.
pub fn play_frame(
    combat: &mut Combat,
    enemies: &mut Vec<Enemy>,
    dt: u64,
    reload_pressed: bool,
    fire_pressed: bool,
    candidates: &Vec<Option<u32>>,
    touching: &Vec<bool>,
) -> (out: FrameOutcome)
    requires
        old(enemies)@.len() == candidates@.len(),
        old(enemies)@.len() == touching@.len(),
    ensures
        ({
            let c1 = ticked(*old(combat), dt);
            let reloaded = reload_pressed && !(c1.spec_reloading() || c1.ammo >= MAG_SIZE
                || !c1.spec_alive());
            let c2 = if reloaded {
                Combat { reload_timer: RELOAD_TIME, ..c1 }
            } else {
                c1
            };
            &&& out.reloaded == reloaded
            &&& exists|c3: Combat, e3: Seq<Enemy>|
                #![trigger contact_effect(c3, e3, touching@, dt, *final(combat), final(enemies)@, out.hurt)]
                {
                    &&& if fire_pressed {
                        out.shot matches Some(r) && shot_effect(
                            c2,
                            old(enemies)@,
                            candidates@,
                            c3,
                            e3,
                            r,
                        )
                    } else {
                        out.shot is None && c3 == c2 && e3 == old(enemies)@
                    }
                    &&& contact_effect(c3, e3, touching@, dt, *final(combat), final(enemies)@, out.hurt)
                    &&& out.sounds@ == (if reloaded {
                        seq![Sfx::Reload]
                    } else {
                        Seq::<Sfx>::empty()
                    }) + (match out.shot {
                        Some(r) => shot_sfx(r, c3),
                        None => Seq::<Sfx>::empty(),
                    }) + (if out.hurt {
                        seq![Sfx::Hurt]
                    } else {
                        Seq::<Sfx>::empty()
                    })
                }
            &&& out.alive == final(combat).spec_alive()
        }),
        combat_ok(*old(combat)) ==> combat_ok(*final(combat)),
{
    let ghost c0 = *combat;
    let ghost e0 = enemies@;
    combat.tick(dt);
    let mut sounds: Vec<Sfx> = Vec::new();
    let reloaded = reload_pressed && combat.start_reload();
    if reloaded {
        sounds.push(Sfx::Reload);
    }
    let ghost c2 = *combat;
    let ghost s1 = sounds@;
    let mut shot: Option<ShotResult> = None;
    if fire_pressed {
        let r = shoot(combat, enemies, candidates);
        let mut more = shot_sounds(r, combat);
        sounds.append(&mut more);
        shot = Some(r);
    }
    let ghost c3 = *combat;
    let ghost e3 = enemies@;
    let ghost s2 = sounds@;
    let hurt = update_enemies(enemies, touching, combat, dt);
    if hurt {
        sounds.push(Sfx::Hurt);
    }
    proof {
        let tail = match shot {
            Some(r) => shot_sfx(r, c3),
            None => Seq::<Sfx>::empty(),
        };
        assert(s2 =~= s1 + tail);
        assert(s1 =~= (if reloaded {
            seq![Sfx::Reload]
        } else {
            Seq::<Sfx>::empty()
        }));
        assert(sounds@ =~= s1 + tail + (if hurt {
            seq![Sfx::Hurt]
        } else {
            Seq::<Sfx>::empty()
        }));
        assert(contact_effect(c3, e3, touching@, dt, *combat, enemies@, hurt));
        let c1 = ticked(c0, dt);
        assert(reloaded == (reload_pressed && !(c1.spec_reloading() || c1.ammo >= MAG_SIZE
            || !c1.spec_alive())));
        assert(c2 == (if reloaded {
            Combat { reload_timer: RELOAD_TIME, ..c1 }
        } else {
            c1
        }));
        if fire_pressed {
            assert(shot matches Some(r) && shot_effect(c2, e0, candidates@, c3, e3, r));
        } else {
            assert(shot is None && c3 == c2 && e3 == e0);
        }
    }
    let alive = combat.alive();
    let out = FrameOutcome { reloaded, shot, hurt, alive, sounds };
    proof {
        assert(if fire_pressed {
            out.shot matches Some(r) && shot_effect(c2, e0, candidates@, c3, e3, r)
        } else {
            out.shot is None && c3 == c2 && e3 == e0
        });
        assert(out.sounds@ == (if reloaded {
            seq![Sfx::Reload]
        } else {
            Seq::<Sfx>::empty()
        }) + (match out.shot {
            Some(r) => shot_sfx(r, c3),
            None => Seq::<Sfx>::empty(),
        }) + (if out.hurt {
            seq![Sfx::Hurt]
        } else {
            Seq::<Sfx>::empty()
        }));
        assert(contact_effect(c3, e3, touching@, dt, *combat, enemies@, out.hurt));
    }
    out
}

/// Runs the enemies' timers down and applies contact damage.
///
/// Enemies never move: they are fixed obstacles that hurt when the player
/// walks into them. `touching[k]` says whether the player is within reach of
/// enemy `k`. Only a live enemy hurts, only a live player is hurt, and only
/// once the previous contact's cooldown is over, so at most one enemy lands a
/// hit per call. Returns whether the player was hurt.
pub fn update_enemies(
    enemies: &mut Vec<Enemy>,
    touching: &Vec<bool>,
    combat: &mut Combat,
    dt: u64,
) -> (hurt: bool)
    requires
        old(enemies)@.len() == touching@.len(),
    ensures
        contact_effect(*old(combat), old(enemies)@, touching@, dt, *final(combat), final(enemies)@, hurt),
        combat_ok(*old(combat)) ==> combat_ok(*final(combat)),
{
    let ghost es = enemies@;
    let ghost c0 = *combat;
    let mut hurt = false;
    let n = enemies.len();
    for k in 0..n
        invariant
            n == es.len(),
            es.len() == touching@.len(),
            enemies@.len() == n,
            forall|q: int|
                0 <= q < k ==> #[trigger] enemies@[q] == (Enemy {
                    hit_flash: sat_sub(es[q].hit_flash, dt),
                    ..es[q]
                }),
            forall|q: int| k <= q < n ==> #[trigger] enemies@[q] == es[q],
            hurt == (c0.spec_alive() && c0.attack_timer == 0 && exists|q: int|
                0 <= q < k && (#[trigger] es[q]).health > 0 && touching@[q]),
            hurt ==> *combat == (Combat { attack_timer: ATTACK_COOLDOWN, ..damaged(c0, CONTACT_DAMAGE) }),
            !hurt ==> *combat == c0,
    {
        let mut e = enemies[k];
        e.hit_flash = if e.hit_flash > dt {
            e.hit_flash - dt
        } else {
            0
        };
        enemies.set(k, e);
        if e.alive() && combat.alive() {
            if touching[k] && combat.attack_timer == 0 {
                combat.take_damage(CONTACT_DAMAGE);
                combat.attack_timer = ATTACK_COOLDOWN;
                hurt = true;
                proof {
                    assert(es[k as int].health > 0 && touching@[k as int]);
                }
            }
        }
    }
    hurt
}

/// How many enemies are still alive.
pub fn remaining(enemies: &Vec<Enemy>) -> (count: usize)
    ensures
        count == count_alive(enemies@),
{
    let mut count: usize = 0;
    let n = enemies.len();
    proof {
        assert(enemies@.take(0) =~= Seq::<Enemy>::empty());
    }
    for k in 0..n
        invariant
            n == enemies@.len(),
            count == count_alive(enemies@.take(k as int)),
            count <= k,
    {
        proof {
            assert(enemies@.take(k + 1).drop_last() =~= enemies@.take(k as int));
        }
        if enemies[k].alive() {
            count += 1;
        }
    }
    proof {
        assert(enemies@.take(n as int) =~= enemies@);
    }
    count
}

/// The smallest distance key among live enemies, or `None` when none is left.
/// `distances[k]` is an order key of enemy `k`'s distance.
pub fn nearest_alive(enemies: &Vec<Enemy>, distances: &Vec<u32>) -> (nearest: Option<u32>)
    requires
        enemies@.len() == distances@.len(),
    ensures
        nearest is None <==> forall|k: int| 0 <= k < enemies@.len() ==> (#[trigger] enemies@[k]).health <= 0,
        nearest matches Some(d) ==> {
            &&& exists|k: int| 0 <= k < enemies@.len() && (#[trigger] enemies@[k]).health > 0 && distances@[k] == d
            &&& forall|k: int| 0 <= k < enemies@.len() && (#[trigger] enemies@[k]).health > 0 ==> d <= distances@[k]
        },
{
    let mut nearest: Option<u32> = None;
    let n = enemies.len();
    for k in 0..n
        invariant
            n == enemies@.len(),
            n == distances@.len(),
            nearest is None <==> forall|q: int| 0 <= q < k ==> (#[trigger] enemies@[q]).health <= 0,
            nearest matches Some(d) ==> {
                &&& exists|q: int| 0 <= q < k && (#[trigger] enemies@[q]).health > 0 && distances@[q] == d
                &&& forall|q: int| 0 <= q < k && (#[trigger] enemies@[q]).health > 0 ==> d <= distances@[q]
            },
    {
        if enemies[k].alive() {
            let d = distances[k];
            let closer = match nearest {
                None => true,
                Some(best) => d < best,
            };
            if closer {
                nearest = Some(d);
            }
        }
    }
    nearest
}

/// Timers do not depend on how time is cut into frames: running them for `a`
/// and then for `b` microseconds is the same as running them for `a + b`.
pub proof fn lemma_tick_additive(c: Combat, a: u64, b: u64)
    requires
        a + b <= u64::MAX,
    ensures
        ticked(ticked(c, a), b) == ticked(c, (a + b) as u64),
{
}

/// A reload, once started, refills the magazine after `RELOAD_TIME` and not
/// before: until then no shot can be fired.
pub proof fn lemma_reload_takes_reload_time(c: Combat, dt: u64)
    requires
        c.reload_timer == RELOAD_TIME,
    ensures
        dt < RELOAD_TIME ==> ticked(c, dt).spec_reloading() && !ticked(c, dt).spec_can_shoot()
            && ticked(c, dt).ammo == c.ammo,
        dt >= RELOAD_TIME ==> !ticked(c, dt).spec_reloading() && ticked(c, dt).ammo == MAG_SIZE,
{
}

/// After a shot, the next one is allowed once `FIRE_COOLDOWN` has passed and
/// not before.
pub proof fn lemma_fire_cooldown(c: Combat, dt: u64)
    requires
        c.spec_can_shoot(),
        c.ammo > 1,
    ensures
        ({
            let fired = Combat { ammo: (c.ammo - 1) as i32, shot_timer: FIRE_COOLDOWN, ..c };
            &&& dt < FIRE_COOLDOWN ==> !ticked(fired, dt).spec_can_shoot()
            &&& dt >= FIRE_COOLDOWN ==> ticked(fired, dt).spec_can_shoot()
        }),
{
}

/// Damage takes exactly its amount off the health, and stops at zero only
/// when it is at least the health left; everything but health and the red
/// flash is untouched.
pub proof fn lemma_damage_subtracts(c: Combat, amount: i32)
    requires
        i32::MIN <= c.health - amount <= i32::MAX,
    ensures
        amount < c.health ==> damaged(c, amount).health == c.health - amount,
        amount >= c.health ==> damaged(c, amount).health == 0,
        0 <= amount < c.health ==> damaged(c, amount).spec_alive(),
        damaged(c, amount).hurt_flash == HURT_FLASH_TIME,
        damaged(c, amount).ammo == c.ammo && damaged(c, amount).reload_timer == c.reload_timer
            && damaged(c, amount).shot_timer == c.shot_timer && damaged(c, amount).attack_timer
            == c.attack_timer,
{
}

/// Damage never brings health below zero, and a dead player stays dead.
pub proof fn lemma_damage_floor(c: Combat, amount: i32)
    requires
        i32::MIN <= c.health - amount <= i32::MAX,
        amount >= 0,
    ensures
        damaged(c, amount).health >= 0,
        !c.spec_alive() && c.health >= 0 ==> damaged(c, amount).health == 0,
        amount >= c.health ==> !damaged(c, amount).spec_alive(),
{
}

/// The combat state after `n` shots fired as soon as allowed: each shot
/// spends a round, and the cooldown is let run out before the next one.
pub open spec fn after_shots(c: Combat, n: nat) -> Combat
    decreases n,
{
    if n == 0 {
        c
    } else {
        let prev = after_shots(c, (n - 1) as nat);
        if prev.spec_can_shoot() {
            Combat { ammo: (prev.ammo - 1) as i32, shot_timer: 0, ..prev }
        } else {
            prev
        }
    }
}

/// A magazine of `a` rounds fires exactly `a` shots: with a live player, no
/// reload in progress and the cooldown over, the first `a` shots go off and
/// then the weapon is empty. A full magazine holds `MAG_SIZE` shots.
pub proof fn lemma_shots_per_magazine(c: Combat, n: nat)
    requires
        c.spec_alive(),
        !c.spec_reloading(),
        c.shot_timer == 0,
        c.ammo >= 0,
    ensures
        n <= c.ammo ==> after_shots(c, n).ammo == c.ammo - n,
        n <= c.ammo ==> (after_shots(c, n).spec_can_shoot() <==> n < c.ammo),
        n >= c.ammo ==> after_shots(c, n).ammo == 0 && !after_shots(c, n).spec_can_shoot(),
    decreases n,
{
    if n > 0 {
        lemma_shots_per_magazine(c, (n - 1) as nat);
    }
}

/// Touching an enemy is fatal: contact damage takes all the health a player
/// can have.
pub proof fn lemma_contact_is_fatal(c: Combat)
    requires
        c.health <= MAX_HEALTH,
    ensures
        !damaged(c, CONTACT_DAMAGE).spec_alive(),
        damaged(c, CONTACT_DAMAGE).health == 0,
{
}

} // verus!
