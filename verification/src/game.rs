//! The game: one player, the enemies on the field, the spawn timer and the
//! score, and the frame that moves them all.

use vstd::prelude::*;
use rand::Rng;
use crate::enemy::Enemy;
use crate::geometry::{boxes_overlap, collision, offset_between};
use crate::motion::Motion;
use crate::player::{
    lemma_update_keeps_wf,
    timer_after,
    InputState,
    Player,
    PlayerValues,
    PlayerView,
};

verus! {

/// Nanoseconds that must have passed since the last enemy before the next.
pub const SPAWN_PERIOD: u64 = 1_000_000_000;

/// The number of places at which an enemy can appear.
pub const SPAWN_POINTS: usize = 4;

/// The game, with its enemies newest first.
#[derive(Debug, PartialEq, Eq)]
pub struct MyGame {
    pub player: Player,
    pub enemies: Vec<Enemy>,
    /// Nanoseconds since the last enemy appeared.
    pub spawn_enemy_timer: u64,
    pub score: u32,
}

/// The game as a mathematical value.
pub struct GameView {
    pub player: PlayerView,
    pub enemies: Seq<Enemy>,
    pub spawn_enemy_timer: u64,
    pub score: u32,
}

/// What the arithmetic of one frame and the draw of a spawn place produced.
pub struct FrameValues {
    /// What the player's frame was given.
    pub player: PlayerValues,
    /// The index of the place at which an enemy appears, if one is due.
    pub spawn_index: int,
    /// The direction from each enemy towards the player, by the enemy's
    /// index once a due enemy has appeared.
    pub enemy_directions: Seq<(u32, u32)>,
    /// The pixels that each enemy covers, by the same index.
    pub enemy_steps: Seq<(i32, i32)>,
}

/// The place with the given index at which an enemy can appear. All four lie
/// 50 pixels outside a field of 800 by 600; the last one lies far out to
/// the right, at x = 8050.
pub open spec fn spawn_point(index: int) -> (i32, i32) {
    if index == 0 {
        (-50i32, -50i32)
    } else if index == 1 {
        (850i32, -50i32)
    } else if index == 2 {
        (-50i32, 650i32)
    } else {
        (8050i32, 650i32)
    }
}

/// Every enemy after a frame in which the enemy at index `i` covers
/// `steps[i]`, each one against the same player.
pub open spec fn moved_enemies(
    enemies: Seq<Enemy>,
    steps: Seq<(i32, i32)>,
    player: PlayerView,
) -> Seq<Enemy> {
    Seq::new(enemies.len(), |i: int| enemies[i].advanced(steps[i], player))
}

/// The enemies that are still live, in their order.
pub open spec fn live_enemies(enemies: Seq<Enemy>) -> Seq<Enemy> {
    enemies.filter(|e: Enemy| e.active())
}

/// Whether the player's box overlaps the box of any enemy, live or not.
pub open spec fn player_touched(player: PlayerView, enemies: Seq<Enemy>) -> bool {
    exists|i: int|
        0 <= i < enemies.len() && boxes_overlap(
            player.position,
            (#[trigger] enemies[i]).position,
            player.size,
            enemies[i].size,
        )
}

/// A score raised by `gained`. It stops at the largest value it can hold.
pub open spec fn score_after(score: u32, gained: nat) -> u32 {
    if score + gained > u32::MAX {
        u32::MAX
    } else {
        (score + gained) as u32
    }
}

impl GameView {
    /// The player and every enemy are well formed.
    pub open spec fn wf(self) -> bool {
        &&& self.player.wf()
        &&& forall|i: int| 0 <= i < self.enemies.len() ==> (#[trigger] self.enemies[i]).wf()
    }

    /// Whether an enemy appears in a frame of `elapsed` nanoseconds.
    pub open spec fn spawn_due(self, elapsed: u64) -> bool {
        timer_after(self.spawn_enemy_timer, elapsed) > SPAWN_PERIOD
    }

    /// The game with a new enemy, in front of the others, at the place with
    /// the given index.
    pub open spec fn spawned_at(self, index: int) -> GameView {
        GameView { enemies: self.enemies.insert(0, Enemy::spawned(spawn_point(index))), ..self }
    }

    /// The game after the spawn timer ran for `elapsed` nanoseconds: once it
    /// passes the period it starts again at zero and an enemy appears at the
    /// place with the given index.
    pub open spec fn after_spawn(self, elapsed: u64, index: int) -> GameView {
        if self.spawn_due(elapsed) {
            GameView { spawn_enemy_timer: 0, ..self }.spawned_at(index)
        } else {
            GameView { spawn_enemy_timer: timer_after(self.spawn_enemy_timer, elapsed), ..self }
        }
    }

    /// The game after every enemy has covered its step.
    pub open spec fn enemies_advanced(self, steps: Seq<(i32, i32)>) -> GameView {
        GameView { enemies: moved_enemies(self.enemies, steps, self.player), ..self }
    }

    /// The game after the player was checked against the enemies: the score
    /// is back at zero if the player overlaps any of them.
    pub open spec fn contacts_scored(self) -> GameView {
        GameView {
            score: if player_touched(self.player, self.enemies) {
                0
            } else {
                self.score
            },
            ..self
        }
    }

    /// The game without the enemies that are gone, and with one point for
    /// each of them.
    pub open spec fn despawned(self) -> GameView {
        let live = live_enemies(self.enemies);
        GameView {
            enemies: live,
            score: score_after(self.score, (self.enemies.len() - live.len()) as nat),
            ..self
        }
    }

    /// The second half of a frame: the enemies move, a touched player loses
    /// the score, and the enemies that are gone leave, one point each. The
    /// reset comes before the points.
    pub open spec fn enemies_updated(self, steps: Seq<(i32, i32)>) -> GameView {
        self.enemies_advanced(steps).contacts_scored().despawned()
    }

    /// The game after the player's frame, given what its arithmetic produced.
    pub open spec fn player_updated(
        self,
        input: InputState,
        elapsed: u64,
        window: (i32, i32),
        values: PlayerValues,
    ) -> GameView {
        GameView { player: self.player.after_update(input, elapsed, window, values), ..self }
    }

    /// The game after one whole frame: first the player and the bullets,
    /// then the spawn timer and perhaps a new enemy, then the enemies, the
    /// reset of the score and the points.
    pub open spec fn after_update(
        self,
        input: InputState,
        elapsed: u64,
        window: (i32, i32),
        values: FrameValues,
    ) -> GameView {
        self.player_updated(input, elapsed, window, values.player).after_spawn(
            elapsed,
            values.spawn_index,
        ).enemies_updated(values.enemy_steps)
    }

    /// Whether `values` is what a frame can be given: the player's values
    /// are what `motion` can return for the player, the spawn index names
    /// one of the places, and for each enemy on the field after the spawn
    /// `motion` can return the direction along the vector from the enemy to
    /// the place the player has walked to, and the pixels covered that way
    /// at the enemy's speed.
    pub open spec fn values_from<M: Motion>(
        self,
        motion: &M,
        input: InputState,
        elapsed: u64,
        window: (i32, i32),
        values: FrameValues,
    ) -> bool {
        let spawned = self.player_updated(input, elapsed, window, values.player).after_spawn(
            elapsed,
            values.spawn_index,
        );
        &&& self.player.values_from(motion, input, elapsed, values.player)
        &&& 0 <= values.spawn_index < SPAWN_POINTS
        &&& values.enemy_directions.len() == spawned.enemies.len()
        &&& values.enemy_steps.len() == spawned.enemies.len()
        &&& forall|i: int|
            0 <= i < spawned.enemies.len() ==> call_ensures(
                M::unit,
                (motion, offset_between(spawned.enemies[i].position, spawned.player.position)),
                #[trigger] values.enemy_directions[i],
            )
        &&& forall|i: int|
            0 <= i < spawned.enemies.len() ==> call_ensures(
                M::travel,
                (motion, values.enemy_directions[i], spawned.enemies[i].speed),
                #[trigger] values.enemy_steps[i],
            )
    }
}

impl View for MyGame {
    type V = GameView;

    open spec fn view(&self) -> GameView {
        GameView {
            player: self.player@,
            enemies: self.enemies@,
            spawn_enemy_timer: self.spawn_enemy_timer,
            score: self.score,
        }
    }
}

/// Calls `gen_range(0, bound)` on `rand::thread_rng()`. The generator
/// returns a value of the half-open range it is given, so one below
/// `bound`; which one is not known, and nothing is claimed of how the values
/// are spread. It panics on an empty range, which the precondition leaves
/// out, and where the operating system gives the thread's generator no seed.
#[verifier::external_body]
fn random_below(bound: usize) -> (index: usize)
    requires
        0 < bound,
    ensures
        index < bound,
{
    rand::thread_rng().gen_range(0, bound)
}

impl MyGame {
    /// A new game: the player at the origin, no enemy, both timers and the
    /// score at zero.
    pub fn new() -> (game: MyGame)
        ensures
            game@ == (GameView {
                player: PlayerView::start(),
                enemies: Seq::<Enemy>::empty(),
                spawn_enemy_timer: 0,
                score: 0,
            }),
            game@.wf(),
    {
        MyGame { player: Player::new(), enemies: Vec::new(), spawn_enemy_timer: 0, score: 0 }
    }

    /// The place with the given index at which an enemy can appear.
    pub fn spawn_position(index: usize) -> (position: (i32, i32))
        requires
            index < SPAWN_POINTS,
        ensures
            position == spawn_point(index as int),
    {
        if index == 0 {
            (-50, -50)
        } else if index == 1 {
            (800 + 50, -50)
        } else if index == 2 {
            (-50, 600 + 50)
        } else {
            (8000 + 50, 600 + 50)
        }
    }

    /// Draws at random the index of the place at which the next enemy
    /// appears.
    pub fn random_spawn_index() -> (index: usize)
        ensures
            index < SPAWN_POINTS,
    {
        random_below(SPAWN_POINTS)
    }

    /// Puts a new enemy in front of the others, at the place with the given
    /// index.
    pub fn spawn_at(&mut self, index: usize)
        requires
            index < SPAWN_POINTS,
        ensures
            final(self)@ == old(self)@.spawned_at(index as int),
            old(self)@.wf() ==> final(self)@.wf(),
    {
        proof {
            if old(self)@.wf() {
                lemma_spawned_keeps_wf(old(self)@, index as int);
            }
        }
        let enemy = Enemy::new(MyGame::spawn_position(index));
        self.enemies.insert(0, enemy);
    }

    /// Lets the spawn timer run for `elapsed` nanoseconds and says whether
    /// an enemy is due. If one is, the timer starts again at zero.
    pub fn spawn_tick(&mut self, elapsed: u64) -> (due: bool)
        ensures
            due == old(self)@.spawn_due(elapsed),
            final(self)@ == (GameView {
                spawn_enemy_timer: if due {
                    0
                } else {
                    timer_after(old(self).spawn_enemy_timer, elapsed)
                },
                ..old(self)@
            }),
            old(self)@.wf() ==> final(self)@.wf(),
    {
        self.spawn_enemy_timer = self.spawn_enemy_timer.saturating_add(elapsed);
        if self.spawn_enemy_timer > SPAWN_PERIOD {
            self.spawn_enemy_timer = 0;
            true
        } else {
            false
        }
    }

    /// Lets the spawn timer run for `elapsed` nanoseconds. Once more than a
    /// second has passed since the last enemy, a new one appears at a place
    /// drawn at random from the four.
    pub fn spawn(&mut self, elapsed: u64)
        ensures
            exists|index: int|
                0 <= index < SPAWN_POINTS && final(self)@ == #[trigger] old(self)@.after_spawn(
                    elapsed,
                    index,
                ),
            old(self)@.wf() ==> final(self)@.wf(),
    {
        if self.spawn_tick(elapsed) {
            let index = MyGame::random_spawn_index();
            self.spawn_at(index);
            assert(self@ == old(self)@.after_spawn(elapsed, index as int));
        } else {
            assert(self@ == old(self)@.after_spawn(elapsed, 0));
        }
    }

    /// Lets the enemy at each index `i` cover `steps[i]` pixels and switches
    /// off those that then overlap the player or a bullet.
    pub fn advance_enemies(&mut self, steps: &Vec<(i32, i32)>)
        requires
            steps.len() == old(self).enemies.len(),
        ensures
            final(self)@ == old(self)@.enemies_advanced(steps@),
            old(self)@.wf() ==> final(self)@.wf(),
    {
        let n: usize = self.enemies.len();
        let mut i: usize = 0;
        while i < n
            invariant
                i <= n,
                n == steps.len(),
                self.enemies.len() == n,
                self.player == old(self).player,
                self.spawn_enemy_timer == old(self).spawn_enemy_timer,
                self.score == old(self).score,
                forall|j: int|
                    0 <= j < i ==> self.enemies[j] == old(self).enemies[j].advanced(
                        steps[j],
                        old(self).player@,
                    ),
                forall|j: int| i <= j < n ==> self.enemies[j] == old(self).enemies[j],
            decreases n - i,
        {
            let mut enemy = self.enemies[i];
            enemy.advance(steps[i], &self.player);
            self.enemies.set(i, enemy);
            i += 1;
        }
        assert(self.enemies@ =~= moved_enemies(old(self).enemies@, steps@, old(self).player@));
    }

    /// Sets the score back to zero if the player overlaps any enemy on the
    /// field, whether that enemy is live or already gone.
    pub fn score_contacts(&mut self)
        ensures
            final(self)@ == old(self)@.contacts_scored(),
            old(self)@.wf() ==> final(self)@.wf(),
    {
        let n: usize = self.enemies.len();
        let mut touched: bool = false;
        let mut i: usize = 0;
        while i < n
            invariant
                i <= n,
                n == self.enemies.len(),
                self == old(self),
                touched == player_touched(self.player@, self.enemies@.take(i as int)),
            decreases n - i,
        {
            let enemy = self.enemies[i];
            if collision(self.player.position, enemy.position, self.player.size, enemy.size) {
                touched = true;
            }
            proof {
                let before = self.enemies@.take(i as int);
                let now = self.enemies@.take(i + 1);
                if player_touched(self.player@, now) {
                    let k = choose|k: int|
                        0 <= k < now.len() && boxes_overlap(
                            self.player@.position,
                            (#[trigger] now[k]).position,
                            self.player@.size,
                            now[k].size,
                        );
                    if k < i {
                        assert(before[k] == now[k]);
                    }
                }
                if player_touched(self.player@, before) {
                    let k = choose|k: int|
                        0 <= k < before.len() && boxes_overlap(
                            self.player@.position,
                            (#[trigger] before[k]).position,
                            self.player@.size,
                            before[k].size,
                        );
                    assert(now[k] == before[k]);
                }
                if boxes_overlap(
                    self.player.position,
                    enemy.position,
                    self.player.size,
                    enemy.size,
                ) {
                    assert(now[i as int] == enemy);
                }
            }
            i += 1;
        }
        assert(self.enemies@.take(n as int) == self.enemies@);
        if touched {
            self.score = 0;
        }
    }

    /// Removes the enemies that are gone and adds one point for each. The
    /// others keep their order.
    pub fn despawn_enemies(&mut self)
        ensures
            final(self)@ == old(self)@.despawned(),
            old(self)@.wf() ==> final(self)@.wf(),
            forall|i: int|
                0 <= i < final(self).enemies.len() ==> (#[trigger] final(self).enemies[i]).active(),
    {
        proof {
            if old(self)@.wf() {
                lemma_despawned_keeps_wf(old(self)@);
            }
        }
        let n: usize = self.enemies.len();
        let mut kept: Vec<Enemy> = Vec::new();
        let mut i: usize = 0;
        while i < n
            invariant
                i <= n,
                n == self.enemies.len(),
                self.player == old(self).player,
                self.enemies == old(self).enemies,
                self.spawn_enemy_timer == old(self).spawn_enemy_timer,
                kept@ == live_enemies(self.enemies@.take(i as int)),
                kept.len() <= i,
                self.score == score_after(old(self).score, (i - kept.len()) as nat),
            decreases n - i,
        {
            let enemy = self.enemies[i];
            proof {
                reveal(Seq::filter);
                assert(self.enemies@.take(i + 1).drop_last() == self.enemies@.take(i as int));
            }
            if enemy.is_active() {
                kept.push(enemy);
            } else {
                self.score = self.score.saturating_add(1);
            }
            i += 1;
        }
        proof {
            assert(self.enemies@.take(n as int) == self.enemies@);
            lemma_live_enemies_active(self.enemies@);
        }
        self.enemies = kept;
    }

    /// The second half of a frame, given the pixels that each enemy covers:
    /// the enemies move, a touched player loses the score, and the enemies
    /// that are gone leave, one point each.
    pub fn update_enemies(&mut self, steps: &Vec<(i32, i32)>)
        requires
            steps.len() == old(self).enemies.len(),
        ensures
            final(self)@ == old(self)@.enemies_updated(steps@),
            old(self)@.wf() ==> final(self)@.wf(),
            forall|i: int|
                0 <= i < final(self).enemies.len() ==> (#[trigger] final(self).enemies[i]).active(),
    {
        self.advance_enemies(steps);
        self.score_contacts();
        self.despawn_enemies();
    }

    /// One whole frame of `elapsed` nanoseconds. The player walks, fires and
    /// its bullets fly; an enemy appears if one is due; every enemy heads
    /// for the player; the score goes back to zero if the player overlaps
    /// an enemy; then the enemies that are gone leave, one point each.
    /// `motion` supplies the frame's arithmetic; for the values that it
    /// returned and the spawn place that was drawn, the game ends as
    /// [`GameView::after_update`] says.
    pub fn update<M: Motion>(
        &mut self,
        input: &InputState,
        elapsed: u64,
        window: (i32, i32),
        motion: &M,
    )
        ensures
            exists|values: FrameValues|
                old(self)@.values_from(motion, *input, elapsed, window, values) && final(self)@
                    == #[trigger] old(self)@.after_update(*input, elapsed, window, values),
            old(self)@.wf() ==> final(self)@.wf(),
            forall|i: int|
                0 <= i < final(self).enemies.len() ==> (#[trigger] final(self).enemies[i]).active(),
            forall|i: int|
                0 <= i < final(self).player.bullets.len() ==> (
                #[trigger] final(self).player.bullets[i]).active(),
    {
        self.player.update(input, elapsed, window, motion);
        let ghost player_values = choose|values: PlayerValues|
            old(self).player@.values_from(motion, *input, elapsed, values) && self.player@
                == #[trigger] old(self).player@.after_update(*input, elapsed, window, values);
        let ghost walked = self@;
        self.spawn(elapsed);
        let ghost spawn_index = choose|index: int|
            0 <= index < SPAWN_POINTS && self@ == #[trigger] walked.after_spawn(elapsed, index);
        let ghost spawned = self@;
        let n: usize = self.enemies.len();
        let mut steps: Vec<(i32, i32)> = Vec::new();
        let ghost mut directions = Seq::<(u32, u32)>::empty();
        let mut i: usize = 0;
        while i < n
            invariant
                i <= n,
                n == self.enemies.len(),
                steps.len() == i,
                directions.len() == i,
                self@ == spawned,
                forall|j: int|
                    0 <= j < i ==> call_ensures(
                        M::unit,
                        (
                            motion,
                            offset_between(spawned.enemies[j].position, spawned.player.position),
                        ),
                        #[trigger] directions[j],
                    ),
                forall|j: int|
                    0 <= j < i ==> call_ensures(
                        M::travel,
                        (motion, directions[j], spawned.enemies[j].speed),
                        #[trigger] steps@[j],
                    ),
            decreases n - i,
        {
            let enemy = self.enemies[i];
            let vector = enemy.offset_to(&self.player);
            let direction = motion.unit(vector);
            steps.push(motion.travel(direction, enemy.speed));
            proof {
                directions = directions.push(direction);
            }
            i += 1;
        }
        self.update_enemies(&steps);
        proof {
            let values = FrameValues {
                player: player_values,
                spawn_index,
                enemy_directions: directions,
                enemy_steps: steps@,
            };
            assert(walked == old(self)@.player_updated(*input, elapsed, window, player_values));
            assert(old(self)@.values_from(motion, *input, elapsed, window, values));
            assert(self@ == old(self)@.after_update(*input, elapsed, window, values));
            if old(self)@.wf() {
                lemma_frame_keeps_wf(old(self)@, *input, elapsed, window, values);
            }
        }
    }
}

/// What is left after the enemies that are gone were removed is live, and
/// was among the enemies before.
pub proof fn lemma_live_enemies_active(enemies: Seq<Enemy>)
    ensures
        forall|i: int|
            0 <= i < live_enemies(enemies).len() ==> (#[trigger] live_enemies(enemies)[i]).active(),
        forall|i: int|
            0 <= i < live_enemies(enemies).len() ==> enemies.contains(
                #[trigger] live_enemies(enemies)[i],
            ),
        live_enemies(enemies).len() <= enemies.len(),
{
    let live = |e: Enemy| e.active();
    enemies.lemma_filter_len(live);
    assert forall|i: int| 0 <= i < live_enemies(enemies).len() implies (#[trigger] live_enemies(
        enemies,
    )[i]).active() && enemies.contains(live_enemies(enemies)[i]) by {
        enemies.lemma_filter_pred(live, i);
        assert(enemies.filter(live).contains(enemies.filter(live)[i]));
        enemies.lemma_filter_contains_rev(live, enemies.filter(live)[i]);
    }
}

/// A new enemy keeps the game well formed.
pub proof fn lemma_spawned_keeps_wf(game: GameView, index: int)
    requires
        game.wf(),
    ensures
        game.spawned_at(index).wf(),
{
    let after = game.spawned_at(index);
    assert forall|i: int| 0 <= i < after.enemies.len() implies (#[trigger] after.enemies[i]).wf() by {
        if i > 0 {
            assert(after.enemies[i] == game.enemies[i - 1]);
        }
    }
}

/// Removing the enemies that are gone keeps the game well formed.
pub proof fn lemma_despawned_keeps_wf(game: GameView)
    requires
        game.wf(),
    ensures
        game.despawned().wf(),
{
    let last = game.despawned();
    lemma_live_enemies_active(game.enemies);
    assert forall|i: int| 0 <= i < last.enemies.len() implies (#[trigger] last.enemies[i]).wf() by {
        let e = last.enemies[i];
        assert(game.enemies.contains(e));
        let j = choose|j: int| 0 <= j < game.enemies.len() && game.enemies[j] == e;
        assert(game.enemies[j].wf());
    }
}

/// A whole frame keeps the game well formed, whatever the frame's
/// arithmetic and the draw of a spawn place produced.
pub proof fn lemma_frame_keeps_wf(
    game: GameView,
    input: InputState,
    elapsed: u64,
    window: (i32, i32),
    values: FrameValues,
)
    requires
        game.wf(),
    ensures
        game.after_update(input, elapsed, window, values).wf(),
{
    lemma_update_keeps_wf(game.player, input, elapsed, window, values.player);
    let walked = game.player_updated(input, elapsed, window, values.player);
    if walked.spawn_due(elapsed) {
        lemma_spawned_keeps_wf(GameView { spawn_enemy_timer: 0, ..walked }, values.spawn_index);
    }
    let moved = walked.after_spawn(elapsed, values.spawn_index).enemies_advanced(
        values.enemy_steps,
    ).contacts_scored();
    assert(moved.wf());
    lemma_despawned_keeps_wf(moved);
}

} // verus!
