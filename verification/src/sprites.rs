use vstd::prelude::*;
use crate::color::Color;

verus! {

/// Hits an enemy takes before it dies.
pub const ENEMY_HEALTH: i32 = 3;
/// How long the white flash lasts after a hit, in microseconds.
pub const HIT_FLASH_TIME: u64 = 120_000;

/// An enemy. Enemies never move: each one stands at the center of the cell
/// `(column, row)` it was placed in.
#[derive(Clone, Copy, PartialEq, Eq, Debug)]
pub struct Enemy {
    pub cell: (usize, usize),
    pub kind: char,
    pub health: i32,
    /// Time left of the hit flash, in microseconds.
    pub hit_flash: u64,
}

/// The enemy after one shot: a live enemy loses one point of health and
/// flashes; a dead one is left alone.
pub open spec fn after_hit(e: Enemy) -> Enemy {
    if e.health > 0 {
        Enemy { health: (e.health - 1) as i32, hit_flash: HIT_FLASH_TIME, ..e }
    } else {
        e
    }
}

/// Whether one shot kills the enemy.
pub open spec fn hit_kills(e: Enemy) -> bool {
    e.health == 1
}

/// The enemy after `n` shots.
pub open spec fn after_hits(e: Enemy, n: nat) -> Enemy
    decreases n,
{
    if n == 0 {
        e
    } else {
        after_hit(after_hits(e, (n - 1) as nat))
    }
}

impl Enemy {
    pub fn new(cell: (usize, usize), kind: char) -> (e: Enemy)
        ensures
            e == (Enemy { cell, kind, health: ENEMY_HEALTH, hit_flash: 0 }),
    {
        Enemy { cell, kind, health: ENEMY_HEALTH, hit_flash: 0 }
    }

    pub open spec fn spec_alive(&self) -> bool {
        self.health > 0
    }

    #[verifier::when_used_as_spec(spec_alive)]
    pub fn alive(&self) -> (alive: bool)
        ensures
            alive == (self.health > 0),
    {
        self.health > 0
    }

    /// Shoots the enemy. Returns `true` if this shot killed it.
    pub fn hit(&mut self) -> (killed: bool)
        ensures
            *final(self) == after_hit(*old(self)),
            killed == hit_kills(*old(self)),
            old(self).health > 0 ==> final(self).health == old(self).health - 1
                && final(self).hit_flash == HIT_FLASH_TIME,
            old(self).health <= 0 ==> *final(self) == *old(self) && !killed,
            final(self).cell == old(self).cell && final(self).kind == old(self).kind,
    {
        if !self.alive() {
            return false;
        }
        self.health = self.health - 1;
        self.hit_flash = HIT_FLASH_TIME;
        !self.alive()
    }
}

/// A shot kills an enemy at most once: the shot that kills leaves it dead, and
/// shooting a dead enemy neither changes it nor counts as a kill.
pub proof fn lemma_dies_once(e: Enemy)
    ensures
        hit_kills(e) ==> !after_hit(e).spec_alive(),
        !e.spec_alive() ==> after_hit(e) == e && !hit_kills(e),
        e.health >= 0 ==> after_hit(e).health >= 0,
{
}

/// Every shot on a live enemy, whatever health it had, costs it exactly one
/// point of health and starts its hit flash anew; its cell and kind never
/// change. Shots on a dead enemy change nothing.
pub proof fn lemma_hit_flashes(e: Enemy)
    ensures
        e.health > 0 ==> after_hit(e).health == e.health - 1 && after_hit(e).hit_flash
            == HIT_FLASH_TIME,
        e.health <= 0 ==> after_hit(e) == e,
        after_hit(e).cell == e.cell && after_hit(e).kind == e.kind,
        hit_kills(e) <==> (e.health > 0 && after_hit(e).health == 0),
{
}

/// An enemy with `h` points of health survives `h - 1` shots and dies on
/// shot `h`; a fresh enemy therefore dies on shot `ENEMY_HEALTH`.
pub proof fn lemma_dies_after_health_shots(e: Enemy, n: nat)
    requires
        e.health > 0,
    ensures
        n < e.health ==> after_hits(e, n).health == e.health - n && after_hits(e, n).spec_alive(),
        n >= e.health ==> after_hits(e, n).health == 0 && !after_hits(e, n).spec_alive(),
        n < e.health ==> (hit_kills(after_hits(e, n)) <==> n == e.health - 1),
    decreases n,
{
    if n > 0 {
        lemma_dies_after_health_shots(e, (n - 1) as nat);
    }
}

/// Something drawn as a billboard at the center of a cell: an enemy or the
/// exit.
#[derive(Clone, Copy, PartialEq, Eq, Debug)]
pub struct DrawItem {
    pub cell: (usize, usize),
    pub kind: char,
    /// Color the sprite is blended with; `None` leaves the texture as is.
    pub tint: Option<Color>,
}

/// Halfway blend of two colors, channel by channel (rounded down), opaque.
pub open spec fn blended(color: Color, tint: Color) -> Color {
    Color {
        r: ((color.r + tint.r) / 2) as u8,
        g: ((color.g + tint.g) / 2) as u8,
        b: ((color.b + tint.b) / 2) as u8,
        a: 255,
    }
}

/// Halfway blend of two colors, opaque. This is how the hit flash and tints
/// are applied.
pub fn mix(color: Color, tint: Color) -> (m: Color)
    ensures
        m == blended(color, tint),
{
    Color::new(
        ((color.r as u16 + tint.r as u16) / 2) as u8,
        ((color.g as u16 + tint.g as u16) / 2) as u8,
        ((color.b as u16 + tint.b as u16) / 2) as u8,
        255,
    )
}

/// Blending does not depend on the order of the two colors, and blending a
/// color with itself gives the same color made opaque.
pub proof fn lemma_mix_symmetric(c: Color, t: Color)
    ensures
        blended(c, t) == blended(t, c),
        blended(c, c) == (Color { a: 255, ..c }),
{
}

/// Billboard `a` is drawn before billboard `b`: it is farther (a larger
/// distance key), or as far and listed first.
pub open spec fn drawn_before(keys: Seq<u32>, a: usize, b: usize) -> bool {
    keys[a as int] > keys[b as int] || (keys[a as int] == keys[b as int] && a < b)
}

/// The order to draw billboards in, far to near, so that nearer ones cover
/// farther ones. `keys[k]` is an order key of billboard `k`'s distance (a
/// larger key is farther). Equally far billboards keep their list order.
/// The result lists every index once.
pub fn far_to_near(keys: &Vec<u32>) -> (order: Vec<usize>)
    ensures
        order@.len() == keys@.len(),
        forall|i: int| 0 <= i < order@.len() ==> (#[trigger] order@[i]) < keys@.len(),
        forall|x: usize| x < keys@.len() ==> order@.contains(x),
        forall|i: int, j: int|
            0 <= i < j < order@.len() ==> drawn_before(keys@, #[trigger] order@[i], #[trigger] order@[j]),
{
    let n = keys.len();
    let mut order: Vec<usize> = Vec::new();
    for k in 0..n
        invariant
            n == keys@.len(),
            order@.len() == k,
            forall|i: int| 0 <= i < order@.len() ==> (#[trigger] order@[i]) < k,
            forall|x: usize| x < k ==> order@.contains(x),
            forall|i: int, j: int|
                0 <= i < j < order@.len() ==> drawn_before(keys@, #[trigger] order@[i], #[trigger] order@[j]),
    {
        let key = keys[k];
        let mut p: usize = 0;
        while p < order.len() && keys[order[p]] >= key
            invariant
                n == keys@.len(),
                k < n,
                key == keys@[k as int],
                order@.len() == k,
                p <= order@.len(),
                forall|i: int| 0 <= i < order@.len() ==> (#[trigger] order@[i]) < k,
                forall|i: int| 0 <= i < p ==> keys@[(#[trigger] order@[i]) as int] >= key,
            decreases order@.len() - p,
        {
            p += 1;
        }
        let ghost before = order@;
        order.insert(p, k);
        proof {
            before.insert_ensures(p as int, k);
            assert forall|i: int| 0 <= i < order@.len() implies (#[trigger] order@[i]) < k + 1 by {
                if i > p {
                    assert(order@[i] == before[i - 1]);
                }
            }
            assert forall|x: usize| x < k + 1 implies order@.contains(x) by {
                if x == k {
                    assert(order@[p as int] == x);
                } else {
                    assert(before.contains(x));
                    let q = choose|q: int| 0 <= q < before.len() && before[q] == x;
                    if q < p {
                        assert(order@[q] == x);
                    } else {
                        assert(order@[q + 1] == x);
                    }
                }
            }
            assert forall|i: int, j: int|
                0 <= i < j < order@.len() implies drawn_before(keys@, #[trigger] order@[i], #[trigger] order@[j]) by {
                if j < p {
                    assert(order@[i] == before[i] && order@[j] == before[j]);
                } else if j == p {
                    assert(order@[i] == before[i]);
                } else if i < p {
                    assert(order@[i] == before[i] && order@[j] == before[j - 1]);
                } else if i == p {
                    assert(order@[j] == before[j - 1]);
                    assert(keys@[before[p as int] as int] < key);
                    if j - 1 > p {
                        assert(drawn_before(keys@, before[p as int], before[j - 1]));
                    }
                } else {
                    assert(order@[i] == before[i - 1] && order@[j] == before[j - 1]);
                }
            }
        }
    }
    order
}

} // verus!
