//! What a frame shows: one filled box for the player, one for each bullet
//! in flight and one for each live enemy.

use vstd::prelude::*;
use crate::bullet::Bullet;
use crate::enemy::Enemy;
use crate::game::{live_enemies, GameView, MyGame};
use crate::player::{live_bullets, PlayerView};

verus! {

/// The colour of a box.
#[derive(Clone, Copy, Debug, PartialEq, Eq)]
pub enum Paint {
    /// The player's colour, a dark magenta.
    Magenta,
    /// The colour of bullets and enemies.
    Black,
}

/// A filled box to draw.
#[derive(Clone, Copy, Debug, PartialEq, Eq)]
pub struct Block {
    pub position: (i32, i32),
    pub size: (i32, i32),
    pub paint: Paint,
}

/// The box that shows the player.
pub open spec fn player_block(player: PlayerView) -> Block {
    Block { position: player.position, size: player.size, paint: Paint::Magenta }
}

/// The box that shows a bullet.
pub open spec fn bullet_block(bullet: Bullet) -> Block {
    Block { position: bullet.position, size: bullet.size, paint: Paint::Black }
}

/// The box that shows an enemy.
pub open spec fn enemy_block(enemy: Enemy) -> Block {
    Block { position: enemy.position, size: enemy.size, paint: Paint::Black }
}

/// The boxes of the bullets in flight, in the bullets' order.
pub open spec fn bullet_blocks(bullets: Seq<Bullet>) -> Seq<Block> {
    live_bullets(bullets).map_values(|b: Bullet| bullet_block(b))
}

/// The boxes of the live enemies, in the enemies' order.
pub open spec fn enemy_blocks(enemies: Seq<Enemy>) -> Seq<Block> {
    live_enemies(enemies).map_values(|e: Enemy| enemy_block(e))
}

/// Everything a frame shows, in drawing order: the player, then the
/// bullets, then the enemies.
pub open spec fn scene(game: GameView) -> Seq<Block> {
    seq![player_block(game.player)] + bullet_blocks(game.player.bullets) + enemy_blocks(
        game.enemies,
    )
}

impl MyGame {
    /// The boxes to draw for the game as it stands, in drawing order.
    pub fn blocks(&self) -> (blocks: Vec<Block>)
        ensures
            blocks@ == scene(self@),
    {
        let mut blocks: Vec<Block> = Vec::new();
        blocks.push(
            Block { position: self.player.position, size: self.player.size, paint: Paint::Magenta },
        );
        let ghost first = seq![player_block(self.player@)];
        assert(blocks@ =~= first + bullet_blocks(self.player.bullets@.take(0))) by {
            reveal(Seq::filter);
        }
        let n: usize = self.player.bullets.len();
        let mut i: usize = 0;
        while i < n
            invariant
                i <= n,
                n == self.player.bullets.len(),
                first == seq![player_block(self.player@)],
                blocks@ == first + bullet_blocks(self.player.bullets@.take(i as int)),
            decreases n - i,
        {
            let bullet = self.player.bullets[i];
            proof {
                reveal(Seq::filter);
                let before = self.player.bullets@.take(i as int);
                let now = self.player.bullets@.take(i + 1);
                assert(now.drop_last() == before);
                if bullet.active() {
                    assert(live_bullets(now) == live_bullets(before).push(bullet));
                    assert(bullet_blocks(now) =~= bullet_blocks(before).push(bullet_block(bullet)));
                    assert((first + bullet_blocks(before)).push(bullet_block(bullet)) =~= first
                        + bullet_blocks(now));
                } else {
                    assert(live_bullets(now) == live_bullets(before));
                }
            }
            if bullet.is_active() {
                blocks.push(
                    Block { position: bullet.position, size: bullet.size, paint: Paint::Black },
                );
            }
            i += 1;
        }
        assert(self.player.bullets@.take(n as int) == self.player.bullets@);
        let ghost front = first + bullet_blocks(self.player.bullets@);
        assert(blocks@ =~= front + enemy_blocks(self.enemies@.take(0))) by {
            reveal(Seq::filter);
        }
        let m: usize = self.enemies.len();
        let mut j: usize = 0;
        while j < m
            invariant
                j <= m,
                m == self.enemies.len(),
                front == seq![player_block(self.player@)] + bullet_blocks(self.player.bullets@),
                blocks@ == front + enemy_blocks(self.enemies@.take(j as int)),
            decreases m - j,
        {
            let enemy = self.enemies[j];
            proof {
                reveal(Seq::filter);
                let before = self.enemies@.take(j as int);
                let now = self.enemies@.take(j + 1);
                assert(now.drop_last() == before);
                if enemy.active() {
                    assert(live_enemies(now) == live_enemies(before).push(enemy));
                    assert(enemy_blocks(now) =~= enemy_blocks(before).push(enemy_block(enemy)));
                    assert((front + enemy_blocks(before)).push(enemy_block(enemy)) =~= front
                        + enemy_blocks(now));
                } else {
                    assert(live_enemies(now) == live_enemies(before));
                }
            }
            if enemy.is_active() {
                blocks.push(
                    Block { position: enemy.position, size: enemy.size, paint: Paint::Black },
                );
            }
            j += 1;
        }
        assert(self.enemies@.take(m as int) == self.enemies@);
        blocks
    }
}

} // verus!
