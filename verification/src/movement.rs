//! Motion of the shots and of the player.
//!
//! A shot flies straight up or straight down and expires once it has crossed
//! the screen edge ahead of it. The player moves sideways only and is kept
//! inside the screen.

use vstd::prelude::*;
use crate::components::{
    drawn_from, has_ident, numbered_below, Bullet, EnemyBullet, Player, Solid,
};
use crate::formation::EDGE_MARGIN;
use crate::geometry::{advance, advanced, clamp_coordinate, retreat, saturate, Bounds, Position};

verus! {

/// Speed of the player, in pixels per second.
pub const PLAYER_SPEED: i64 = 500;

/// A player bullet after `dt_ms` milliseconds, or `None` once it has left
/// the top of the screen.
pub open spec fn bullet_flown(bullet: Bullet, dt_ms: u32, bounds: Bounds) -> Option<Bullet> {
    let y = advanced(bullet.position.y, bullet.speed as int, dt_ms);
    if y > bounds.height {
        None
    } else {
        Some(Bullet { position: Position { x: bullet.position.x, y }, ..bullet })
    }
}

/// The identifier of a player bullet that leaves the top of the screen
/// within `dt_ms` milliseconds.
pub open spec fn bullet_expired(bullet: Bullet, dt_ms: u32, bounds: Bounds) -> Option<u64> {
    if bullet_flown(bullet, dt_ms, bounds) is None {
        Some(bullet.id)
    } else {
        None
    }
}

/// The player bullets that are still on screen after `dt_ms` milliseconds.
pub open spec fn bullets_flown(bullets: Seq<Bullet>, dt_ms: u32, bounds: Bounds) -> Seq<Bullet> {
    bullets.filter_map(|b: Bullet| bullet_flown(b, dt_ms, bounds))
}

/// The identifiers of the player bullets that leave within `dt_ms`
/// milliseconds.
pub open spec fn bullets_expired(bullets: Seq<Bullet>, dt_ms: u32, bounds: Bounds) -> Seq<u64> {
    bullets.filter_map(|b: Bullet| bullet_expired(b, dt_ms, bounds))
}

/// An enemy bullet after `dt_ms` milliseconds, or `None` once it has left
/// the bottom of the screen.
pub open spec fn enemy_bullet_flown(bullet: EnemyBullet, dt_ms: u32) -> Option<EnemyBullet> {
    let y = advanced(bullet.position.y, -(bullet.speed as int), dt_ms);
    if y < EDGE_MARGIN {
        None
    } else {
        Some(EnemyBullet { position: Position { x: bullet.position.x, y }, ..bullet })
    }
}

/// The identifier of an enemy bullet that leaves the bottom of the screen
/// within `dt_ms` milliseconds.
pub open spec fn enemy_bullet_expired(bullet: EnemyBullet, dt_ms: u32) -> Option<u64> {
    if enemy_bullet_flown(bullet, dt_ms) is None {
        Some(bullet.id)
    } else {
        None
    }
}

/// The enemy bullets that are still on screen after `dt_ms` milliseconds.
pub open spec fn enemy_bullets_flown(bullets: Seq<EnemyBullet>, dt_ms: u32) -> Seq<EnemyBullet> {
    bullets.filter_map(|b: EnemyBullet| enemy_bullet_flown(b, dt_ms))
}

/// The identifiers of the enemy bullets that leave within `dt_ms`
/// milliseconds.
pub open spec fn enemy_bullets_expired(bullets: Seq<EnemyBullet>, dt_ms: u32) -> Seq<u64> {
    bullets.filter_map(|b: EnemyBullet| enemy_bullet_expired(b, dt_ms))
}

/// Moves every player bullet up and drops those that have left the top of
/// the screen. Returns the identifiers of the bullets dropped.
pub fn move_bullet(bullets: &mut Vec<Bullet>, dt_ms: u32, bounds: Bounds) -> (expired: Vec<u64>)
    ensures
        final(bullets)@ == bullets_flown(old(bullets)@, dt_ms, bounds),
        expired@ == bullets_expired(old(bullets)@, dt_ms, bounds),
{
    let ghost before = bullets@;
    let mut kept: Vec<Bullet> = Vec::new();
    let mut expired: Vec<u64> = Vec::new();
    let mut i: usize = 0;
    while i < bullets.len()
        invariant
            i <= bullets.len(),
            bullets@ == before,
            kept@ == bullets_flown(before.take(i as int), dt_ms, bounds),
            expired@ == bullets_expired(before.take(i as int), dt_ms, bounds),
        decreases bullets.len() - i,
    {
        let bullet = bullets[i];
        proof {
            assert(before.take(i + 1).drop_last() =~= before.take(i as int));
            assert(before.take(i + 1).last() == bullet);
        }
        let y = advance(bullet.position.y, bullet.speed, dt_ms);
        if y as i128 > bounds.height as i128 {
            expired.push(bullet.id);
        } else {
            kept.push(
                Bullet {
                    id: bullet.id,
                    position: Position { x: bullet.position.x, y },
                    bounding_box: bullet.bounding_box,
                    speed: bullet.speed,
                },
            );
        }
        proof {
            assert(kept@ =~= bullets_flown(before.take(i + 1), dt_ms, bounds));
            assert(expired@ =~= bullets_expired(before.take(i + 1), dt_ms, bounds));
        }
        i = i + 1;
    }
    assert(before.take(i as int) =~= before);
    *bullets = kept;
    expired
}

/// Moves every enemy bullet down and drops those that have left the bottom
/// of the screen. Returns the identifiers of the bullets dropped.
pub fn move_enemy_bullet(bullets: &mut Vec<EnemyBullet>, dt_ms: u32) -> (expired: Vec<u64>)
    ensures
        final(bullets)@ == enemy_bullets_flown(old(bullets)@, dt_ms),
        expired@ == enemy_bullets_expired(old(bullets)@, dt_ms),
{
    let ghost before = bullets@;
    let mut kept: Vec<EnemyBullet> = Vec::new();
    let mut expired: Vec<u64> = Vec::new();
    let mut i: usize = 0;
    while i < bullets.len()
        invariant
            i <= bullets.len(),
            bullets@ == before,
            kept@ == enemy_bullets_flown(before.take(i as int), dt_ms),
            expired@ == enemy_bullets_expired(before.take(i as int), dt_ms),
        decreases bullets.len() - i,
    {
        let bullet = bullets[i];
        proof {
            assert(before.take(i + 1).drop_last() =~= before.take(i as int));
            assert(before.take(i + 1).last() == bullet);
        }
        let y = retreat(bullet.position.y, bullet.speed, dt_ms);
        if y < EDGE_MARGIN {
            expired.push(bullet.id);
        } else {
            kept.push(
                EnemyBullet {
                    id: bullet.id,
                    position: Position { x: bullet.position.x, y },
                    bounding_box: bullet.bounding_box,
                    speed: bullet.speed,
                },
            );
        }
        proof {
            assert(kept@ =~= enemy_bullets_flown(before.take(i + 1), dt_ms));
            assert(expired@ =~= enemy_bullets_expired(before.take(i + 1), dt_ms));
        }
        i = i + 1;
    }
    assert(before.take(i as int) =~= before);
    *bullets = kept;
    expired
}

/// The player bullets that fly on are drawn from those that flew.
pub proof fn lemma_bullets_flown_draw(bullets: Seq<Bullet>, dt_ms: u32, bounds: Bounds)
    ensures
        drawn_from(bullets_flown(bullets, dt_ms, bounds), bullets),
    decreases bullets.len(),
{
    if bullets.len() > 0 {
        let init = bullets.drop_last();
        let before = bullets_flown(init, dt_ms, bounds);
        let after = bullets_flown(bullets, dt_ms, bounds);
        lemma_bullets_flown_draw(init, dt_ms, bounds);
        assert forall|i: int| 0 <= i < after.len() implies has_ident(
            bullets,
            (#[trigger] after[i]).ident(),
        ) by {
            if i < before.len() {
                assert(after[i] == before[i]);
                assert(has_ident(init, before[i].ident()));
                let k = choose|k: int|
                    0 <= k < init.len() && (#[trigger] init[k]).ident() == before[i].ident();
                assert(bullets[k] == init[k]);
            } else {
                assert(bullets[bullets.len() - 1].ident() == after[i].ident());
            }
        }
    }
}

/// The enemy bullets that fly on are drawn from those that flew.
pub proof fn lemma_enemy_bullets_flown_draw(bullets: Seq<EnemyBullet>, dt_ms: u32)
    ensures
        drawn_from(enemy_bullets_flown(bullets, dt_ms), bullets),
    decreases bullets.len(),
{
    if bullets.len() > 0 {
        let init = bullets.drop_last();
        let before = enemy_bullets_flown(init, dt_ms);
        let after = enemy_bullets_flown(bullets, dt_ms);
        lemma_enemy_bullets_flown_draw(init, dt_ms);
        assert forall|i: int| 0 <= i < after.len() implies has_ident(
            bullets,
            (#[trigger] after[i]).ident(),
        ) by {
            if i < before.len() {
                assert(after[i] == before[i]);
                assert(has_ident(init, before[i].ident()));
                let k = choose|k: int|
                    0 <= k < init.len() && (#[trigger] init[k]).ident() == before[i].ident();
                assert(bullets[k] == init[k]);
            } else {
                assert(bullets[bullets.len() - 1].ident() == after[i].ident());
            }
        }
    }
}

/// The player bullets that fly on keep their numbering.
pub proof fn lemma_bullets_keep_numbering(
    bullets: Seq<Bullet>,
    dt_ms: u32,
    bounds: Bounds,
    bound: int,
)
    requires
        numbered_below(bullets, bound),
    ensures
        numbered_below(bullets_flown(bullets, dt_ms, bounds), bound),
    decreases bullets.len(),
{
    if bullets.len() > 0 {
        let init = bullets.drop_last();
        let last = bullets.last();
        let before = bullets_flown(init, dt_ms, bounds);
        let after = bullets_flown(bullets, dt_ms, bounds);
        assert(last == bullets[bullets.len() - 1]);
        assert(numbered_below(init, last.id as int)) by {
            assert forall|i: int| 0 <= i < init.len() implies (#[trigger] init[i]).ident() < last.id by {
                assert(init[i] == bullets[i]);
            }
            assert forall|i: int, j: int| 0 <= i < j < init.len() implies (#[trigger] init[i]).ident()
                < (#[trigger] init[j]).ident() by {
                assert(init[i] == bullets[i] && init[j] == bullets[j]);
            }
        }
        lemma_bullets_keep_numbering(init, dt_ms, bounds, last.id as int);
        assert forall|i: int| 0 <= i < after.len() implies (#[trigger] after[i]).ident() < bound by {
            if i < before.len() {
                assert(after[i] == before[i]);
            }
        }
        assert forall|i: int, j: int| 0 <= i < j < after.len() implies (#[trigger] after[i]).ident()
            < (#[trigger] after[j]).ident() by {
            assert(after[i] == before[i]);
            if j < before.len() {
                assert(after[j] == before[j]);
            }
        }
    }
}

/// The enemy bullets that fly on keep their numbering.
pub proof fn lemma_enemy_bullets_keep_numbering(bullets: Seq<EnemyBullet>, dt_ms: u32, bound: int)
    requires
        numbered_below(bullets, bound),
    ensures
        numbered_below(enemy_bullets_flown(bullets, dt_ms), bound),
    decreases bullets.len(),
{
    if bullets.len() > 0 {
        let init = bullets.drop_last();
        let last = bullets.last();
        let before = enemy_bullets_flown(init, dt_ms);
        let after = enemy_bullets_flown(bullets, dt_ms);
        assert(last == bullets[bullets.len() - 1]);
        assert(numbered_below(init, last.id as int)) by {
            assert forall|i: int| 0 <= i < init.len() implies (#[trigger] init[i]).ident() < last.id by {
                assert(init[i] == bullets[i]);
            }
            assert forall|i: int, j: int| 0 <= i < j < init.len() implies (#[trigger] init[i]).ident()
                < (#[trigger] init[j]).ident() by {
                assert(init[i] == bullets[i] && init[j] == bullets[j]);
            }
        }
        lemma_enemy_bullets_keep_numbering(init, dt_ms, last.id as int);
        assert forall|i: int| 0 <= i < after.len() implies (#[trigger] after[i]).ident() < bound by {
            if i < before.len() {
                assert(after[i] == before[i]);
            }
        }
        assert forall|i: int, j: int| 0 <= i < j < after.len() implies (#[trigger] after[i]).ident()
            < (#[trigger] after[j]).ident() by {
            assert(after[i] == before[i]);
            if j < before.len() {
                assert(after[j] == before[j]);
            }
        }
    }
}

/// The unit direction that the two movement signals ask for: they cancel
/// when both are held.
pub open spec fn heading(move_left: bool, move_right: bool) -> int {
    (if move_right { 1int } else { 0int }) - (if move_left { 1int } else { 0int })
}

/// The player after `dt_ms` milliseconds of steering.
pub open spec fn steered(player: Player, move_left: bool, move_right: bool, dt_ms: u32) -> Player {
    Player {
        position: Position {
            x: advanced(
                player.position.x,
                heading(move_left, move_right) * PLAYER_SPEED,
                dt_ms,
            ),
            y: player.position.y,
        },
        ..player
    }
}

/// The smallest x at which the player's box is inside the screen.
pub open spec fn leftmost(player: Player) -> i64 {
    player.bounding_box.half_width
}

/// The largest x at which the player's box is inside the screen.
pub open spec fn rightmost(player: Player, bounds: Bounds) -> i64 {
    saturate(bounds.width - player.bounding_box.half_width) as i64
}

/// The player, brought back inside the horizontal screen bounds.
pub open spec fn confined(player: Player, bounds: Bounds) -> Player {
    let x = player.position.x;
    let kept = if x < leftmost(player) {
        leftmost(player)
    } else if x > rightmost(player, bounds) {
        rightmost(player, bounds)
    } else {
        x
    };
    Player { position: Position { x: kept, y: player.position.y }, ..player }
}

/// Moves the player sideways as the held movement signals ask.
pub fn player_movement(player: &mut Player, move_left: bool, move_right: bool, dt_ms: u32)
    ensures
        *final(player) == steered(*old(player), move_left, move_right, dt_ms),
{
    let x = if move_right && !move_left {
        advance(player.position.x, PLAYER_SPEED, dt_ms)
    } else if move_left && !move_right {
        retreat(player.position.x, PLAYER_SPEED, dt_ms)
    } else {
        assert(0 * (dt_ms as int) == 0);
        player.position.x
    };
    assert(1 * PLAYER_SPEED == PLAYER_SPEED as int);
    assert(-1 * PLAYER_SPEED == -(PLAYER_SPEED as int));
    player.position = Position { x, y: player.position.y };
}

/// Keeps the player's box inside the screen, left to right. The height is
/// left alone.
pub fn confine_player_movement(player: &mut Player, bounds: Bounds)
    ensures
        *final(player) == confined(*old(player), bounds),
{
    let x_min = player.bounding_box.half_width;
    let x_max = clamp_coordinate(bounds.width as i128 - player.bounding_box.half_width as i128);
    let x = player.position.x;
    if x < x_min {
        player.position = Position { x: x_min, y: player.position.y };
    } else if x > x_max {
        player.position = Position { x: x_max, y: player.position.y };
    }
}

} // verus!
