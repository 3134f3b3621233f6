//! An enemy: it homes in on the player and is switched off by touching the
//! player or any of the player's bullets.

use vstd::prelude::*;
use crate::bullet::Bullet;
use crate::geometry::{boxes_overlap, collision, displaced, offset, offset_between, shift};
use crate::motion::Motion;
use crate::player::{Player, PlayerView};

verus! {

/// Width and height of every enemy.
pub const ENEMY_SIZE: i32 = 40;

/// Speed of a live enemy, in pixels per second.
pub const ENEMY_SPEED: u32 = 200;

/// An enemy. A speed of zero marks it as gone: the game removes it.
#[derive(Clone, Copy, Debug, PartialEq, Eq)]
pub struct Enemy {
    pub position: (i32, i32),
    pub size: (i32, i32),
    pub speed: u32,
}

/// Whether a box overlaps at least one of the bullets.
pub open spec fn hit_by_bullet(position: (i32, i32), size: (i32, i32), bullets: Seq<Bullet>) -> bool {
    exists|i: int|
        0 <= i < bullets.len() && boxes_overlap(
            position,
            (#[trigger] bullets[i]).position,
            size,
            bullets[i].size,
        )
}

impl Enemy {
    /// The enemy is 40 by 40 and either live at full speed or gone.
    pub open spec fn wf(self) -> bool {
        &&& self.size == (ENEMY_SIZE, ENEMY_SIZE)
        &&& (self.speed == 0 || self.speed == ENEMY_SPEED)
    }

    /// A live enemy, as opposed to one that is gone.
    pub open spec fn active(self) -> bool {
        self.speed != 0
    }

    /// The enemy that appears at `position`.
    pub open spec fn spawned(position: (i32, i32)) -> Enemy {
        Enemy { position, size: (ENEMY_SIZE, ENEMY_SIZE), speed: ENEMY_SPEED }
    }

    /// Whether the enemy's box overlaps the player's.
    pub open spec fn touches(self, player: PlayerView) -> bool {
        boxes_overlap(self.position, player.position, self.size, player.size)
    }

    /// The enemy after a frame in which it covers `step`: moved, and gone if
    /// it then overlaps the player or one of the player's bullets.
    pub open spec fn advanced(self, step: (i32, i32), player: PlayerView) -> Enemy {
        let moved = Enemy { position: displaced(self.position, step), ..self };
        Enemy {
            speed: if moved.touches(player) || hit_by_bullet(
                moved.position,
                moved.size,
                player.bullets,
            ) {
                0
            } else {
                self.speed
            },
            ..moved
        }
    }

    /// Whether `direction` and `step` are what `motion` can return when it
    /// is asked for the direction along the vector from the enemy to the
    /// player, and then for the pixels covered that way at the enemy's speed.
    pub open spec fn values_from<M: Motion>(
        self,
        motion: &M,
        player: PlayerView,
        direction: (u32, u32),
        step: (i32, i32),
    ) -> bool {
        &&& call_ensures(
            M::unit,
            (motion, offset_between(self.position, player.position)),
            direction,
        )
        &&& call_ensures(M::travel, (motion, direction, self.speed), step)
    }

    /// Creates a live enemy at `position`.
    pub fn new(position: (i32, i32)) -> (enemy: Enemy)
        ensures
            enemy == Enemy::spawned(position),
            enemy.wf(),
            enemy.active(),
    {
        Enemy { position, size: (ENEMY_SIZE, ENEMY_SIZE), speed: ENEMY_SPEED }
    }

    /// Whether the enemy is still live.
    pub fn is_active(&self) -> (live: bool)
        ensures
            live == self.active(),
    {
        self.speed != 0
    }

    /// The vector that leads from the enemy to the player, in whole pixels.
    pub fn offset_to(&self, player: &Player) -> (vector: (i32, i32))
        ensures
            vector == offset_between(self.position, player.position),
    {
        offset(self.position, player.position)
    }

    /// Moves the enemy by `step`, the pixels it covers in this frame, and
    /// switches it off if it then overlaps the player or any bullet of the
    /// player. The player and the bullets are left as they are: a bullet
    /// that hit one enemy goes on to hit others.
    pub fn advance(&mut self, step: (i32, i32), player: &Player)
        ensures
            *final(self) == old(self).advanced(step, player@),
            old(self).wf() ==> final(self).wf(),
    {
        self.position = shift(self.position, step);
        if collision(self.position, player.position, self.size, player.size) {
            self.speed = 0;
        }
        let n: usize = player.bullets.len();
        let mut hit: bool = false;
        let mut i: usize = 0;
        while i < n
            invariant
                i <= n,
                n == player.bullets.len(),
                hit == hit_by_bullet(self.position, self.size, player.bullets@.take(i as int)),
            decreases n - i,
        {
            let bullet = player.bullets[i];
            if collision(self.position, bullet.position, self.size, bullet.size) {
                hit = true;
            }
            proof {
                let before = player.bullets@.take(i as int);
                let now = player.bullets@.take(i + 1);
                if hit_by_bullet(self.position, self.size, now) {
                    let k = choose|k: int|
                        0 <= k < now.len() && boxes_overlap(
                            self.position,
                            (#[trigger] now[k]).position,
                            self.size,
                            now[k].size,
                        );
                    if k < i {
                        assert(before[k] == now[k]);
                    }
                }
                if hit_by_bullet(self.position, self.size, before) {
                    let k = choose|k: int|
                        0 <= k < before.len() && boxes_overlap(
                            self.position,
                            (#[trigger] before[k]).position,
                            self.size,
                            before[k].size,
                        );
                    assert(now[k] == before[k]);
                }
                if boxes_overlap(self.position, bullet.position, self.size, bullet.size) {
                    assert(now[i as int] == bullet);
                }
            }
            i += 1;
        }
        assert(player.bullets@.take(n as int) == player.bullets@);
        if hit {
            self.speed = 0;
        }
    }

    /// One frame of the enemy: it heads for the player, covers what `motion`
    /// says it travels that way at its speed, and is switched off on
    /// touching the player or a bullet.
    pub fn update<M: Motion>(&mut self, player: &Player, motion: &M)
        ensures
            exists|direction: (u32, u32), step: (i32, i32)|
                #[trigger] old(self).values_from(motion, player@, direction, step) && *final(self)
                    == old(self).advanced(step, player@),
            old(self).wf() ==> final(self).wf(),
    {
        let vector = self.offset_to(player);
        let direction = motion.unit(vector);
        let step = motion.travel(direction, self.speed);
        self.advance(step, player);
        assert(old(self).values_from(motion, player@, direction, step));
    }
}

} // verus!
