//! The player: walks by keyboard, fires at the cursor at most twice a
//! second, and owns the bullets in flight.

use vstd::prelude::*;
use crate::bullet::Bullet;
use crate::geometry::{displaced, shift};
use crate::motion::Motion;

verus! {

/// Width and height of the player.
pub const PLAYER_SIZE: i32 = 40;

/// Walking speed of the player, in pixels per second.
pub const PLAYER_SPEED: u32 = 300;

/// Nanoseconds that must have passed since the last shot before the next.
pub const SHOOT_COOLDOWN: u64 = 500_000_000;

/// The keys and the button that steer the player, as held down right now.
#[derive(Clone, Copy, Debug, PartialEq, Eq)]
pub struct InputState {
    pub right: bool,
    pub left: bool,
    pub up: bool,
    pub down: bool,
    pub fire: bool,
}

/// The player and the bullets in flight, newest first.
#[derive(Debug, PartialEq, Eq)]
pub struct Player {
    pub position: (i32, i32),
    pub size: (i32, i32),
    pub speed: u32,
    pub bullets: Vec<Bullet>,
    /// Nanoseconds since the last shot.
    pub shoot_timer: u64,
}

/// The player as a mathematical value.
pub struct PlayerView {
    pub position: (i32, i32),
    pub size: (i32, i32),
    pub speed: u32,
    pub bullets: Seq<Bullet>,
    pub shoot_timer: u64,
}

/// What the arithmetic of the player's frame produced.
pub struct PlayerValues {
    /// The direction along the walking direction that the keys ask for.
    pub walk_direction: (u32, u32),
    /// The pixels that the player walks.
    pub walk_step: (i32, i32),
    /// The direction of a shot, if one goes off.
    pub aim: (u32, u32),
    /// The pixels that each bullet covers, by its index once a shot has
    /// gone off.
    pub bullet_steps: Seq<(i32, i32)>,
}

/// A timer that ran for `elapsed` more nanoseconds. It stops at the largest
/// value it can hold.
pub open spec fn timer_after(timer: u64, elapsed: u64) -> u64 {
    if timer + elapsed > u64::MAX {
        u64::MAX
    } else {
        (timer + elapsed) as u64
    }
}

/// The walking direction that the held keys ask for, one of -1, 0, 1 along
/// each axis, with y growing downwards. Of two opposite keys held together,
/// left beats right and down beats up.
pub open spec fn heading(input: InputState) -> (i32, i32) {
    (
        if input.left {
            -1i32
        } else if input.right {
            1i32
        } else {
            0i32
        },
        if input.down {
            1i32
        } else if input.up {
            -1i32
        } else {
            0i32
        },
    )
}

/// Every bullet after a frame in which the bullet at index `i` covers `steps[i]`.
pub open spec fn moved_bullets(
    bullets: Seq<Bullet>,
    steps: Seq<(i32, i32)>,
    window: (i32, i32),
) -> Seq<Bullet> {
    Seq::new(bullets.len(), |i: int| bullets[i].advanced(steps[i], window))
}

/// The bullets still in flight, in their order.
pub open spec fn live_bullets(bullets: Seq<Bullet>) -> Seq<Bullet> {
    bullets.filter(|b: Bullet| b.active())
}

impl PlayerView {
    /// The player at the start of a game: at the origin, with no bullet in
    /// flight and the timer at zero.
    pub open spec fn start() -> PlayerView {
        PlayerView {
            position: (0i32, 0i32),
            size: (PLAYER_SIZE, PLAYER_SIZE),
            speed: PLAYER_SPEED,
            bullets: Seq::<Bullet>::empty(),
            shoot_timer: 0,
        }
    }

    /// Every bullet is well formed and the player has its fixed size and speed.
    pub open spec fn wf(self) -> bool {
        &&& self.size == (PLAYER_SIZE, PLAYER_SIZE)
        &&& self.speed == PLAYER_SPEED
        &&& forall|i: int| 0 <= i < self.bullets.len() ==> (#[trigger] self.bullets[i]).wf()
    }

    /// The player after walking `step` pixels during `elapsed` nanoseconds.
    pub open spec fn advanced(self, step: (i32, i32), elapsed: u64) -> PlayerView {
        PlayerView {
            position: displaced(self.position, step),
            shoot_timer: timer_after(self.shoot_timer, elapsed),
            ..self
        }
    }

    /// Whether a shot goes off now: the button is held and more than the
    /// cooldown has passed since the last shot.
    pub open spec fn can_fire(self, held: bool) -> bool {
        held && self.shoot_timer > SHOOT_COOLDOWN
    }

    /// The player after a shot along `direction`: a new bullet at the
    /// player's position in front of the others, and the timer at zero.
    pub open spec fn shot(self, direction: (u32, u32)) -> PlayerView {
        PlayerView {
            bullets: self.bullets.insert(0, Bullet::fired_from(self.position, direction)),
            shoot_timer: 0,
            ..self
        }
    }

    /// The player after the fire button was looked at: `shot` if a shot
    /// goes off, unchanged otherwise.
    pub open spec fn fired(self, held: bool, direction: (u32, u32)) -> PlayerView {
        if self.can_fire(held) {
            self.shot(direction)
        } else {
            self
        }
    }

    /// The player after every bullet has flown its step.
    pub open spec fn flown(self, steps: Seq<(i32, i32)>, window: (i32, i32)) -> PlayerView {
        PlayerView { bullets: moved_bullets(self.bullets, steps, window), ..self }
    }

    /// The player without the spent bullets.
    pub open spec fn despawned(self) -> PlayerView {
        PlayerView { bullets: live_bullets(self.bullets), ..self }
    }

    /// The player after one whole frame, given what the frame's arithmetic
    /// produced: walked, a shot fired if one goes off, every bullet flown,
    /// and the spent bullets removed.
    pub open spec fn after_update(
        self,
        input: InputState,
        elapsed: u64,
        window: (i32, i32),
        values: PlayerValues,
    ) -> PlayerView {
        self.advanced(values.walk_step, elapsed).fired(input.fire, values.aim).flown(
            values.bullet_steps,
            window,
        ).despawned()
    }

    /// Whether `values` is what `motion` can return when it is asked, in
    /// this order, for the direction along the keys' vector, for the pixels
    /// walked that way at the player's speed, for the aim from the place
    /// walked to if a shot goes off, and for the pixels that each bullet
    /// then covers.
    pub open spec fn values_from<M: Motion>(
        self,
        motion: &M,
        input: InputState,
        elapsed: u64,
        values: PlayerValues,
    ) -> bool {
        let walked = self.advanced(values.walk_step, elapsed);
        let loaded = walked.fired(input.fire, values.aim);
        &&& call_ensures(M::unit, (motion, heading(input)), values.walk_direction)
        &&& call_ensures(M::travel, (motion, values.walk_direction, self.speed), values.walk_step)
        &&& walked.can_fire(input.fire) ==> call_ensures(
            M::aim,
            (motion, walked.position),
            values.aim,
        )
        &&& values.bullet_steps.len() == loaded.bullets.len()
        &&& forall|i: int|
            0 <= i < loaded.bullets.len() ==> call_ensures(
                M::travel,
                (motion, loaded.bullets[i].direction, loaded.bullets[i].speed),
                #[trigger] values.bullet_steps[i],
            )
    }
}

impl View for Player {
    type V = PlayerView;

    open spec fn view(&self) -> PlayerView {
        PlayerView {
            position: self.position,
            size: self.size,
            speed: self.speed,
            bullets: self.bullets@,
            shoot_timer: self.shoot_timer,
        }
    }
}

impl Player {
    /// A player at the origin, with no bullet in flight and the timer at zero.
    pub fn new() -> (player: Player)
        ensures
            player@ == PlayerView::start(),
            player@.wf(),
    {
        Player {
            position: (0, 0),
            size: (PLAYER_SIZE, PLAYER_SIZE),
            speed: PLAYER_SPEED,
            bullets: Vec::new(),
            shoot_timer: 0,
        }
    }

    /// Reads the walking direction off the held keys. The keys are looked at
    /// in the order right, left, up, down, and a later one overwrites an
    /// earlier one on the same axis.
    pub fn input_vector(input: &InputState) -> (vector: (i32, i32))
        ensures
            vector == heading(*input),
    {
        let mut x: i32 = 0;
        let mut y: i32 = 0;
        if input.right {
            x = 1;
        }
        if input.left {
            x = -1;
        }
        if input.up {
            y = -1;
        }
        if input.down {
            y = 1;
        }
        (x, y)
    }

    /// Walks `step` pixels and lets the time since the last shot grow by
    /// `elapsed` nanoseconds.
    pub fn advance(&mut self, step: (i32, i32), elapsed: u64)
        ensures
            final(self)@ == old(self)@.advanced(step, elapsed),
            old(self)@.wf() ==> final(self)@.wf(),
    {
        self.position = shift(self.position, step);
        self.shoot_timer = self.shoot_timer.saturating_add(elapsed);
        assert(self@.bullets == old(self)@.bullets);
    }

    /// Whether a shot goes off now, given whether the fire button is held.
    pub fn can_fire(&self, held: bool) -> (ready: bool)
        ensures
            ready == self@.can_fire(held),
    {
        held && self.shoot_timer > SHOOT_COOLDOWN
    }

    /// Fires along `direction` if the button is held and the cooldown is
    /// over, and says whether it did. A press that comes too early is lost.
    pub fn fire(&mut self, held: bool, direction: (u32, u32)) -> (fired: bool)
        ensures
            fired == old(self)@.can_fire(held),
            final(self)@ == old(self)@.fired(held, direction),
            old(self)@.wf() ==> final(self)@.wf(),
    {
        proof {
            if old(self)@.wf() {
                lemma_fired_keeps_wf(old(self)@, held, direction);
            }
        }
        if held && self.shoot_timer > SHOOT_COOLDOWN {
            let bullet = Bullet::new(self.position, direction);
            self.bullets.insert(0, bullet);
            self.shoot_timer = 0;
            true
        } else {
            false
        }
    }

    /// Lets the bullet at each index `i` fly `steps[i]` pixels, and switches
    /// off those that end up outside the viewport of size `window`.
    pub fn advance_bullets(&mut self, steps: &Vec<(i32, i32)>, window: (i32, i32))
        requires
            steps.len() == old(self).bullets.len(),
        ensures
            final(self)@ == old(self)@.flown(steps@, window),
            old(self)@.wf() ==> final(self)@.wf(),
    {
        let n: usize = self.bullets.len();
        let mut i: usize = 0;
        while i < n
            invariant
                i <= n,
                n == steps.len(),
                self.bullets.len() == n,
                self.position == old(self).position,
                self.size == old(self).size,
                self.speed == old(self).speed,
                self.shoot_timer == old(self).shoot_timer,
                forall|j: int|
                    0 <= j < i ==> self.bullets[j] == old(self).bullets[j].advanced(
                        steps[j],
                        window,
                    ),
                forall|j: int| i <= j < n ==> self.bullets[j] == old(self).bullets[j],
            decreases n - i,
        {
            let mut bullet = self.bullets[i];
            bullet.advance(steps[i], window);
            self.bullets.set(i, bullet);
            i += 1;
        }
        assert(self.bullets@ =~= moved_bullets(old(self).bullets@, steps@, window));
    }

    /// Removes the spent bullets. The others keep their order.
    pub fn despawn_bullets(&mut self)
        ensures
            final(self)@ == old(self)@.despawned(),
            old(self)@.wf() ==> final(self)@.wf(),
            forall|i: int|
                0 <= i < final(self).bullets.len() ==> (#[trigger] final(self).bullets[i]).active(),
    {
        proof {
            if old(self)@.wf() {
                lemma_despawned_keeps_wf(old(self)@);
            }
        }
        let n: usize = self.bullets.len();
        let mut kept: Vec<Bullet> = Vec::new();
        let mut i: usize = 0;
        while i < n
            invariant
                i <= n,
                n == self.bullets.len(),
                self == old(self),
                kept@ == live_bullets(self.bullets@.take(i as int)),
            decreases n - i,
        {
            let bullet = self.bullets[i];
            proof {
                reveal(Seq::filter);
                assert(self.bullets@.take(i + 1).drop_last() == self.bullets@.take(i as int));
            }
            if bullet.is_active() {
                kept.push(bullet);
            }
            i += 1;
        }
        proof {
            assert(self.bullets@.take(n as int) == self.bullets@);
            lemma_live_bullets_active(self.bullets@);
        }
        self.bullets = kept;
    }

    /// One whole frame of the player: walk as the keys say, fire if the
    /// button is held and the cooldown is over, let every bullet fly, and
    /// drop the bullets that left the viewport. `motion` supplies the
    /// frame's arithmetic; for the values that it returned, the player ends
    /// as [`PlayerView::after_update`] says.
    pub fn update<M: Motion>(
        &mut self,
        input: &InputState,
        elapsed: u64,
        window: (i32, i32),
        motion: &M,
    )
        ensures
            exists|values: PlayerValues|
                old(self)@.values_from(motion, *input, elapsed, values) && final(self)@
                    == #[trigger] old(self)@.after_update(*input, elapsed, window, values),
            old(self)@.wf() ==> final(self)@.wf(),
            forall|i: int|
                0 <= i < final(self).bullets.len() ==> (#[trigger] final(self).bullets[i]).active(),
    {
        let vector = Player::input_vector(input);
        let direction = motion.unit(vector);
        let step = motion.travel(direction, self.speed);
        self.advance(step, elapsed);
        let mut aim: (u32, u32) = (0, 0);
        if self.can_fire(input.fire) {
            aim = motion.aim(self.position);
            self.fire(input.fire, aim);
        }
        let ghost loaded = self@;
        let n: usize = self.bullets.len();
        let mut steps: Vec<(i32, i32)> = Vec::new();
        let mut i: usize = 0;
        while i < n
            invariant
                i <= n,
                n == self.bullets.len(),
                steps.len() == i,
                self@ == loaded,
                forall|j: int|
                    0 <= j < i ==> call_ensures(
                        M::travel,
                        (motion, loaded.bullets[j].direction, loaded.bullets[j].speed),
                        #[trigger] steps@[j],
                    ),
            decreases n - i,
        {
            let bullet = self.bullets[i];
            steps.push(motion.travel(bullet.direction, bullet.speed));
            i += 1;
        }
        self.advance_bullets(&steps, window);
        self.despawn_bullets();
        proof {
            let values = PlayerValues {
                walk_direction: direction,
                walk_step: step,
                aim,
                bullet_steps: steps@,
            };
            assert(loaded == old(self)@.advanced(step, elapsed).fired(input.fire, aim));
            assert(old(self)@.values_from(motion, *input, elapsed, values));
            assert(self@ == old(self)@.after_update(*input, elapsed, window, values));
            if old(self)@.wf() {
                lemma_update_keeps_wf(old(self)@, *input, elapsed, window, values);
            }
        }
    }
}

/// What is left after the spent bullets are gone is in flight, and was
/// among the bullets before.
pub proof fn lemma_live_bullets_active(bullets: Seq<Bullet>)
    ensures
        forall|i: int|
            0 <= i < live_bullets(bullets).len() ==> (#[trigger] live_bullets(bullets)[i]).active(),
        forall|i: int|
            0 <= i < live_bullets(bullets).len() ==> bullets.contains(
                #[trigger] live_bullets(bullets)[i],
            ),
        live_bullets(bullets).len() <= bullets.len(),
{
    let live = |b: Bullet| b.active();
    bullets.lemma_filter_len(live);
    assert forall|i: int| 0 <= i < live_bullets(bullets).len() implies (#[trigger] live_bullets(
        bullets,
    )[i]).active() && bullets.contains(live_bullets(bullets)[i]) by {
        bullets.lemma_filter_pred(live, i);
        assert(bullets.filter(live).contains(bullets.filter(live)[i]));
        bullets.lemma_filter_contains_rev(live, bullets.filter(live)[i]);
    }
}

/// Looking at the fire button keeps the player well formed, whether a shot
/// goes off or not.
pub proof fn lemma_fired_keeps_wf(player: PlayerView, held: bool, direction: (u32, u32))
    requires
        player.wf(),
    ensures
        player.fired(held, direction).wf(),
{
    let loaded = player.fired(held, direction);
    assert forall|i: int| 0 <= i < loaded.bullets.len() implies (#[trigger] loaded.bullets[i]).wf() by {
        if player.can_fire(held) {
            if i > 0 {
                assert(loaded.bullets[i] == player.bullets[i - 1]);
            }
        } else {
            assert(loaded.bullets[i] == player.bullets[i]);
        }
    }
}

/// Removing the spent bullets keeps the player well formed.
pub proof fn lemma_despawned_keeps_wf(player: PlayerView)
    requires
        player.wf(),
    ensures
        player.despawned().wf(),
{
    let last = player.despawned();
    lemma_live_bullets_active(player.bullets);
    assert forall|i: int| 0 <= i < last.bullets.len() implies (#[trigger] last.bullets[i]).wf() by {
        let b = last.bullets[i];
        assert(player.bullets.contains(b));
        let j = choose|j: int| 0 <= j < player.bullets.len() && player.bullets[j] == b;
        assert(player.bullets[j].wf());
    }
}

/// A frame keeps the player well formed, whatever the frame's arithmetic
/// produced.
pub proof fn lemma_update_keeps_wf(
    player: PlayerView,
    input: InputState,
    elapsed: u64,
    window: (i32, i32),
    values: PlayerValues,
)
    requires
        player.wf(),
    ensures
        player.after_update(input, elapsed, window, values).wf(),
{
    let walked = player.advanced(values.walk_step, elapsed);
    lemma_fired_keeps_wf(walked, input.fire, values.aim);
    let flown = walked.fired(input.fire, values.aim).flown(values.bullet_steps, window);
    assert(flown.wf());
    lemma_despawned_keeps_wf(flown);
}

} // verus!
