//! A projectile: it flies straight on and switches itself off once it has
//! left the viewport.

use vstd::prelude::*;
use crate::geometry::{displaced, shift};
use crate::motion::Motion;

verus! {

/// Width and height of every bullet.
pub const BULLET_SIZE: i32 = 10;

/// Speed of a bullet in flight, in pixels per second.
pub const BULLET_SPEED: u32 = 1000;

/// A projectile. A speed of zero marks it as spent: its owner removes it.
#[derive(Clone, Copy, Debug, PartialEq, Eq)]
pub struct Bullet {
    pub position: (i32, i32),
    pub size: (i32, i32),
    /// The direction of flight, as [`crate::motion::Motion`] produced it.
    pub direction: (u32, u32),
    pub speed: u32,
}

/// Whether a position lies outside the viewport, whose corners are the
/// origin and `window`. The viewport's own border counts as inside.
pub open spec fn out_of_view(position: (i32, i32), window: (i32, i32)) -> bool {
    position.0 > window.0 || position.0 < 0 || position.1 > window.1 || position.1 < 0
}

impl Bullet {
    /// The bullet is 10 by 10 and either in flight at full speed or spent.
    pub open spec fn wf(self) -> bool {
        &&& self.size == (BULLET_SIZE, BULLET_SIZE)
        &&& (self.speed == 0 || self.speed == BULLET_SPEED)
    }

    /// A bullet in flight, as opposed to a spent one.
    pub open spec fn active(self) -> bool {
        self.speed != 0
    }

    /// The bullet that a shot from `position` along `direction` creates.
    pub open spec fn fired_from(position: (i32, i32), direction: (u32, u32)) -> Bullet {
        Bullet {
            position,
            size: (BULLET_SIZE, BULLET_SIZE),
            direction,
            speed: BULLET_SPEED,
        }
    }

    /// The bullet after a frame in which it covers `step`: moved, and spent
    /// if that took it out of the viewport.
    pub open spec fn advanced(self, step: (i32, i32), window: (i32, i32)) -> Bullet {
        let position = displaced(self.position, step);
        Bullet {
            position,
            size: self.size,
            direction: self.direction,
            speed: if out_of_view(position, window) {
                0
            } else {
                self.speed
            },
        }
    }

    /// Creates a bullet in flight at `position`, heading along `direction`.
    pub fn new(position: (i32, i32), direction: (u32, u32)) -> (bullet: Bullet)
        ensures
            bullet == Bullet::fired_from(position, direction),
            bullet.wf(),
            bullet.active(),
    {
        Bullet { position, size: (BULLET_SIZE, BULLET_SIZE), direction, speed: BULLET_SPEED }
    }

    /// Whether the bullet is still in flight.
    pub fn is_active(&self) -> (live: bool)
        ensures
            live == self.active(),
    {
        self.speed != 0
    }

    /// Advances the bullet by `step`, the pixels it covers in this frame, and
    /// switches it off if the new position lies outside the viewport of size
    /// `window`. The bullet stays in its owner's collection either way.
    pub fn advance(&mut self, step: (i32, i32), window: (i32, i32))
        ensures
            *final(self) == old(self).advanced(step, window),
            old(self).wf() ==> final(self).wf(),
    {
        self.position = shift(self.position, step);
        if self.position.0 > window.0 || self.position.0 < 0 || self.position.1 > window.1
            || self.position.1 < 0 {
            self.speed = 0;
        }
    }

    /// One frame of the bullet: it covers what `motion` says it travels along
    /// its direction at its speed, and is switched off if that takes it out
    /// of the viewport of size `window`.
    pub fn update<M: Motion>(&mut self, window: (i32, i32), motion: &M)
        ensures
            exists|step: (i32, i32)|
                call_ensures(M::travel, (motion, old(self).direction, old(self).speed), step)
                    && *final(self) == #[trigger] old(self).advanced(step, window),
            old(self).wf() ==> final(self).wf(),
    {
        let step = motion.travel(self.direction, self.speed);
        self.advance(step, window);
    }
}

/// A bullet that leaves the viewport is spent by the very update that takes
/// it out, and one that stays inside keeps its speed.
pub proof fn lemma_bullet_spent_on_exit(bullet: Bullet, step: (i32, i32), window: (i32, i32))
    ensures
        out_of_view(displaced(bullet.position, step), window) ==> !bullet.advanced(
            step,
            window,
        ).active(),
        !out_of_view(displaced(bullet.position, step), window) ==> bullet.advanced(
            step,
            window,
        ).speed == bullet.speed,
{
}

} // verus!
