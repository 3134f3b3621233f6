//! Laws of the simulation that relate several of its steps.

use vstd::prelude::*;
use crate::bullet::{out_of_view, Bullet};
use crate::enemy::{hit_by_bullet, Enemy};
use crate::game::{lemma_live_enemies_active, live_enemies, player_touched, score_after, GameView};
use crate::geometry::{boxes_overlap, displaced, squared_distance};
use crate::player::{
    lemma_live_bullets_active,
    live_bullets,
    timer_after,
    PlayerView,
    SHOOT_COOLDOWN,
};

verus! {

/// Removing the spent bullets makes the collection shorter as soon as one
/// bullet is spent.
pub proof fn lemma_spent_bullet_shrinks(bullets: Seq<Bullet>, i: int)
    requires
        0 <= i < bullets.len(),
        !bullets[i].active(),
    ensures
        live_bullets(bullets).len() < bullets.len(),
    decreases bullets.len(),
{
    reveal(Seq::filter);
    let rest = bullets.drop_last();
    lemma_live_bullets_active(rest);
    if i < bullets.len() - 1 {
        assert(rest[i] == bullets[i]);
        lemma_spent_bullet_shrinks(rest, i);
    }
}

/// Removing the enemies that are gone makes the collection shorter as soon
/// as one enemy is gone.
pub proof fn lemma_gone_enemy_shrinks(enemies: Seq<Enemy>, i: int)
    requires
        0 <= i < enemies.len(),
        !enemies[i].active(),
    ensures
        live_enemies(enemies).len() < enemies.len(),
    decreases enemies.len(),
{
    reveal(Seq::filter);
    let rest = enemies.drop_last();
    lemma_live_enemies_active(rest);
    if i < enemies.len() - 1 {
        assert(rest[i] == enemies[i]);
        lemma_gone_enemy_shrinks(rest, i);
    }
}

/// A bullet whose step takes it out of the viewport is spent in that very
/// frame and is not among the bullets once the frame has removed the spent
/// ones: all that are left are in flight, and they are fewer than before.
pub proof fn lemma_escaped_bullet_leaves(
    player: PlayerView,
    steps: Seq<(i32, i32)>,
    window: (i32, i32),
    i: int,
)
    requires
        0 <= i < player.bullets.len(),
        out_of_view(displaced(player.bullets[i].position, steps[i]), window),
    ensures
        !player.flown(steps, window).bullets[i].active(),
        player.flown(steps, window).despawned().bullets.len() < player.bullets.len(),
        forall|j: int|
            0 <= j < player.flown(steps, window).despawned().bullets.len() ==> (
            #[trigger] player.flown(steps, window).despawned().bullets[j]).active(),
{
    let flown = player.flown(steps, window);
    lemma_spent_bullet_shrinks(flown.bullets, i);
    lemma_live_bullets_active(flown.bullets);
}

/// A bullet in flight whose step keeps it inside the viewport is still
/// among the bullets after the frame, moved and at its speed.
pub proof fn lemma_bullet_inside_stays(
    player: PlayerView,
    steps: Seq<(i32, i32)>,
    window: (i32, i32),
    i: int,
)
    requires
        0 <= i < player.bullets.len(),
        player.bullets[i].active(),
        !out_of_view(displaced(player.bullets[i].position, steps[i]), window),
    ensures
        player.flown(steps, window).despawned().bullets.contains(
            Bullet { position: displaced(player.bullets[i].position, steps[i]), ..player.bullets[i] },
        ),
{
    let flown = player.flown(steps, window);
    flown.bullets.lemma_filter_contains(|b: Bullet| b.active(), i);
}

/// After a shot the next one has to wait: a frame of at most the cooldown
/// later the held button fires nothing, and a frame of more than the
/// cooldown later it fires again.
pub proof fn lemma_cooldown_between_shots(
    player: PlayerView,
    direction: (u32, u32),
    step: (i32, i32),
    elapsed: u64,
    direction2: (u32, u32),
)
    requires
        player.can_fire(true),
    ensures
        player.fired(true, direction).bullets.len() == player.bullets.len() + 1,
        elapsed <= SHOOT_COOLDOWN ==> player.fired(true, direction).advanced(step, elapsed).fired(
            true,
            direction2,
        ).bullets == player.fired(true, direction).bullets,
        elapsed > SHOOT_COOLDOWN ==> player.fired(true, direction).advanced(step, elapsed).fired(
            true,
            direction2,
        ).bullets.len() == player.bullets.len() + 2,
{
}

/// Two frames in a row let a timer run as one frame of their joint length
/// does.
pub proof fn lemma_timer_adds_up(timer: u64, elapsed: u64, elapsed2: u64)
    requires
        elapsed + elapsed2 <= u64::MAX,
    ensures
        timer_after(timer_after(timer, elapsed), elapsed2) == timer_after(
            timer,
            (elapsed + elapsed2) as u64,
        ),
{
}

/// However the button is pressed and released, no shot goes off while the
/// time since the last shot is at most the cooldown.
pub proof fn lemma_early_press_is_lost(player: PlayerView, held: bool, direction: (u32, u32))
    requires
        player.shoot_timer <= SHOOT_COOLDOWN,
    ensures
        player.fired(held, direction) == player,
{
}

/// The joint length of a run of frames, in nanoseconds.
pub open spec fn total_length(frames: Seq<u64>) -> int
    decreases frames.len(),
{
    if frames.len() == 0 {
        0
    } else {
        frames[0] + total_length(frames.drop_first())
    }
}

/// The player after the fire button was held down through frames of the
/// given lengths, while standing still and aiming along `direction`.
pub open spec fn held_through(
    player: PlayerView,
    frames: Seq<u64>,
    direction: (u32, u32),
) -> PlayerView
    decreases frames.len(),
{
    if frames.len() == 0 {
        player
    } else {
        held_through(
            player.advanced((0i32, 0i32), frames[0]).fired(true, direction),
            frames.drop_first(),
            direction,
        )
    }
}

/// Holding the button fires at most once per cooldown: over any run of
/// frames, each shot takes more than the cooldown out of the time that has
/// passed since the shot before the run.
pub proof fn lemma_fire_rate_is_capped(
    player: PlayerView,
    frames: Seq<u64>,
    direction: (u32, u32),
)
    ensures
        held_through(player, frames, direction).bullets.len() >= player.bullets.len(),
        (held_through(player, frames, direction).bullets.len() - player.bullets.len()) * (
        SHOOT_COOLDOWN + 1) <= player.shoot_timer + total_length(frames),
    decreases frames.len(),
{
    if frames.len() > 0 {
        let next = player.advanced((0i32, 0i32), frames[0]).fired(true, direction);
        lemma_fire_rate_is_capped(next, frames.drop_first(), direction);
    }
}

/// An enemy whose step brings it onto the player is gone after the frame,
/// and the player counts as touched.
pub proof fn lemma_enemy_on_player_is_gone(
    enemy: Enemy,
    step: (i32, i32),
    player: PlayerView,
)
    requires
        boxes_overlap(displaced(enemy.position, step), player.position, enemy.size, player.size),
    ensures
        !enemy.advanced(step, player).active(),
        player_touched(player, seq![enemy.advanced(step, player)]),
{
    let moved = enemy.advanced(step, player);
    assert(seq![moved][0] == moved);
}

/// In a frame in which the player overlaps an enemy, the score after the
/// frame is the number of enemies removed in it, whatever it was before,
/// and that number is at least one: the reset comes first, the points after.
pub proof fn lemma_touch_scores_the_removed(game: GameView, steps: Seq<(i32, i32)>)
    requires
        player_touched(game.player, game.enemies_advanced(steps).enemies),
    ensures
        game.enemies_updated(steps).score == score_after(
            0,
            (game.enemies.len() - game.enemies_updated(steps).enemies.len()) as nat,
        ),
        game.enemies_updated(steps).enemies.len() < game.enemies.len(),
        game.enemies_updated(steps).score >= 1,
{
    let moved = game.enemies_advanced(steps);
    let k = choose|k: int|
        0 <= k < moved.enemies.len() && boxes_overlap(
            game.player.position,
            (#[trigger] moved.enemies[k]).position,
            game.player.size,
            moved.enemies[k].size,
        );
    assert(moved.enemies[k] == game.enemies[k].advanced(steps[k], game.player));
    assert(!moved.enemies[k].active());
    lemma_gone_enemy_shrinks(moved.enemies, k);
    lemma_live_enemies_active(moved.enemies);
}

/// In a frame in which the player overlaps no enemy, the score grows by the
/// number of enemies removed in it.
pub proof fn lemma_no_touch_adds_the_removed(game: GameView, steps: Seq<(i32, i32)>)
    requires
        !player_touched(game.player, game.enemies_advanced(steps).enemies),
    ensures
        game.enemies_updated(steps).score == score_after(
            game.score,
            (game.enemies.len() - game.enemies_updated(steps).enemies.len()) as nat,
        ),
        game.enemies_updated(steps).enemies.len() <= game.enemies.len(),
{
    lemma_live_enemies_active(game.enemies_advanced(steps).enemies);
}

/// A single enemy that walks onto the player leaves a score of exactly one
/// and an empty field, whatever the score was before.
pub proof fn lemma_single_contact_scores_one(game: GameView, steps: Seq<(i32, i32)>)
    requires
        game.enemies.len() == 1,
        boxes_overlap(
            displaced(game.enemies[0].position, steps[0]),
            game.player.position,
            game.enemies[0].size,
            game.player.size,
        ),
    ensures
        game.enemies_updated(steps).score == 1,
        game.enemies_updated(steps).enemies.len() == 0,
        game.enemies_updated(steps).player == game.player,
{
    let moved = game.enemies_advanced(steps);
    assert(moved.enemies[0] == game.enemies[0].advanced(steps[0], game.player));
    assert(player_touched(game.player, moved.enemies));
    lemma_touch_scores_the_removed(game, steps);
}

/// A bullet switches off every enemy that overlaps it after moving, however
/// many there are in one frame, and the frame of the enemies leaves the
/// player and all bullets as they were.
pub proof fn lemma_bullet_outlives_its_hits(game: GameView, steps: Seq<(i32, i32)>, k: int)
    requires
        0 <= k < game.player.bullets.len(),
    ensures
        forall|i: int|
            0 <= i < game.enemies.len() && boxes_overlap(
                displaced(game.enemies[i].position, steps[i]),
                game.player.bullets[k].position,
                game.enemies[i].size,
                game.player.bullets[k].size,
            ) ==> !(#[trigger] game.enemies_advanced(steps).enemies[i]).active(),
        game.enemies_advanced(steps).player == game.player,
        game.enemies_updated(steps).player == game.player,
{
    assert forall|i: int|
        0 <= i < game.enemies.len() && boxes_overlap(
            displaced(game.enemies[i].position, steps[i]),
            game.player.bullets[k].position,
            game.enemies[i].size,
            game.player.bullets[k].size,
        ) implies !(#[trigger] game.enemies_advanced(steps).enemies[i]).active() by {
        let bullet = game.player.bullets[k];
        assert(boxes_overlap(
            displaced(game.enemies[i].position, steps[i]),
            bullet.position,
            game.enemies[i].size,
            bullet.size,
        ));
    }
}

/// A step that leads towards a target along both axes without passing it,
/// and that is not empty, ends strictly closer to the target.
pub proof fn lemma_step_towards_comes_closer(from: (i32, i32), to: (i32, i32), step: (i32, i32))
    requires
        0 <= step.0 <= to.0 - from.0 || to.0 - from.0 <= step.0 <= 0,
        0 <= step.1 <= to.1 - from.1 || to.1 - from.1 <= step.1 <= 0,
        step != (0i32, 0i32),
    ensures
        squared_distance(displaced(from, step), to) < squared_distance(from, to),
{
    let dx = to.0 - from.0;
    let dy = to.1 - from.1;
    let sx = step.0 as int;
    let sy = step.1 as int;
    assert((dx - sx) * (dx - sx) <= dx * dx && (sx != 0 ==> (dx - sx) * (dx - sx) < dx * dx))
        by (nonlinear_arith)
        requires
            0 <= sx <= dx || dx <= sx <= 0,
    ;
    assert((dy - sy) * (dy - sy) <= dy * dy && (sy != 0 ==> (dy - sy) * (dy - sy) < dy * dy))
        by (nonlinear_arith)
        requires
            0 <= sy <= dy || dy <= sy <= 0,
    ;
}

/// An enemy that overlaps neither the player nor a bullet after moving
/// keeps its speed, and a live one stays on the field.
pub proof fn lemma_untouched_enemy_stays(game: GameView, steps: Seq<(i32, i32)>, i: int)
    requires
        0 <= i < game.enemies.len(),
        game.enemies[i].active(),
        !boxes_overlap(
            displaced(game.enemies[i].position, steps[i]),
            game.player.position,
            game.enemies[i].size,
            game.player.size,
        ),
        !hit_by_bullet(
            displaced(game.enemies[i].position, steps[i]),
            game.enemies[i].size,
            game.player.bullets,
        ),
    ensures
        game.enemies_updated(steps).enemies.contains(
            Enemy { position: displaced(game.enemies[i].position, steps[i]), ..game.enemies[i] },
        ),
{
    let moved = game.enemies_advanced(steps);
    assert(moved.enemies[i] == game.enemies[i].advanced(steps[i], game.player));
    moved.enemies.lemma_filter_contains(|e: Enemy| e.active(), i);
}

} // verus!
