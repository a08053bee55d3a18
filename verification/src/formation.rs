//! The formation: one marching state shared by all enemies.
//!
//! While it marches, the formation moves sideways until a live enemy reaches
//! the wall ahead. High above the castles it then descends for a fixed
//! number of steps and marches back; once its lowest enemy stands at the
//! stand-still line it only turns round.

use vstd::prelude::*;
use crate::components::Enemy;
use crate::geometry::{advance, advanced, retreat, Bounds, Position};
use crate::resources::{Direction, EnemyInfo, EnemyStage};
use crate::spawn::{CASTLE_HEIGHT, ENEMY_HALF_SIZE};

verus! {

/// Side length of an enemy sprite.
pub const ENEMY_SIZE: i64 = 32_000;

/// Speed of the formation, in pixels per second, sideways and downwards.
pub const ENEMY_STEP: i64 = 50;

/// Steps of a descent.
pub const DOWN_AMOUNT: usize = 25;

/// Distance from a screen edge at which the edge counts as reached.
pub const EDGE_MARGIN: i64 = 500;

/// An enemy after one tick of the formation in `stage`.
pub open spec fn moved(enemy: Enemy, stage: EnemyStage, dt_ms: u32) -> Enemy {
    let at = enemy.position;
    let step = ENEMY_STEP as int;
    match stage {
        EnemyStage::Marching(Direction::Right) => Enemy {
            position: Position { x: advanced(at.x, step, dt_ms), y: at.y },
            ..enemy
        },
        EnemyStage::Marching(Direction::Left) => Enemy {
            position: Position { x: advanced(at.x, -step, dt_ms), y: at.y },
            ..enemy
        },
        EnemyStage::Descending(_, _) => Enemy {
            position: Position { x: at.x, y: advanced(at.y, -step, dt_ms) },
            ..enemy
        },
    }
}

/// The formation after one tick in `stage`: every enemy has moved.
pub open spec fn marched(enemies: Seq<Enemy>, stage: EnemyStage, dt_ms: u32) -> Seq<Enemy> {
    Seq::new(enemies.len(), |i: int| moved(enemies[i], stage, dt_ms))
}

/// The y-coordinate of the castle row.
pub open spec fn castle_row(bounds: Bounds) -> int {
    bounds.height as int / 4
}

/// The line at which the formation stops descending: half an enemy and the
/// height of a castle above the castle row.
pub open spec fn stand_still_line(bounds: Bounds) -> int {
    castle_row(bounds) + ENEMY_HALF_SIZE + CASTLE_HEIGHT
}

/// Whether a live enemy has reached the right wall.
pub open spec fn reaches_right(enemy: Enemy, bounds: Bounds) -> bool {
    !enemy.is_dead && enemy.position.x + enemy.bounding_box.half_width >= bounds.width
        - EDGE_MARGIN
}

/// Whether a live enemy has reached the left wall.
pub open spec fn reaches_left(enemy: Enemy) -> bool {
    !enemy.is_dead && enemy.position.x - enemy.bounding_box.half_width <= EDGE_MARGIN
}

/// Whether a live enemy stands at the stand-still line or below it.
pub open spec fn stands_still(enemy: Enemy, bounds: Bounds) -> bool {
    !enemy.is_dead && enemy.position.y <= stand_still_line(bounds)
}

/// Whether the formation has reached the wall that it marches towards.
pub open spec fn wall_reached(enemies: Seq<Enemy>, towards: Direction, bounds: Bounds) -> bool {
    match towards {
        Direction::Right => exists|i: int|
            0 <= i < enemies.len() && reaches_right(#[trigger] enemies[i], bounds),
        Direction::Left => exists|i: int|
            0 <= i < enemies.len() && reaches_left(#[trigger] enemies[i]),
    }
}

/// Whether the lowest live enemy has reached the stand-still line.
pub open spec fn at_stand_still(enemies: Seq<Enemy>, bounds: Bounds) -> bool {
    exists|i: int| 0 <= i < enemies.len() && stands_still(#[trigger] enemies[i], bounds)
}

/// The stage after one tick, given the enemies as they stand after moving.
/// With no enemy left there is nothing to steer, and the stage stays.
pub open spec fn next_stage(stage: EnemyStage, enemies: Seq<Enemy>, bounds: Bounds) -> EnemyStage {
    match stage {
        _ if enemies.len() == 0 => stage,
        EnemyStage::Descending(remaining, resume) => if remaining <= 1 {
            EnemyStage::Marching(resume)
        } else {
            EnemyStage::Descending((remaining - 1) as usize, resume)
        },
        EnemyStage::Marching(towards) => if !wall_reached(enemies, towards, bounds) {
            stage
        } else if at_stand_still(enemies, bounds) {
            EnemyStage::Marching(towards.opposite())
        } else {
            EnemyStage::Descending(DOWN_AMOUNT, towards.opposite())
        },
    }
}

/// Moves every enemy by one tick of the formation's stage: sideways while it
/// marches, downwards while it descends.
pub fn enemy_movements(enemies: &mut Vec<Enemy>, stage: EnemyStage, dt_ms: u32)
    ensures
        final(enemies)@ == marched(old(enemies)@, stage, dt_ms),
{
    let ghost before = enemies@;
    let mut i: usize = 0;
    while i < enemies.len()
        invariant
            i <= enemies.len(),
            enemies@.len() == before.len(),
            forall|j: int| 0 <= j < i ==> enemies@[j] == moved(before[j], stage, dt_ms),
            forall|j: int| i <= j < before.len() ==> enemies@[j] == before[j],
        decreases enemies.len() - i,
    {
        let enemy = enemies[i];
        let at = enemy.position;
        let position = match stage {
            EnemyStage::Marching(Direction::Right) => Position {
                x: advance(at.x, ENEMY_STEP, dt_ms),
                y: at.y,
            },
            EnemyStage::Marching(Direction::Left) => Position {
                x: retreat(at.x, ENEMY_STEP, dt_ms),
                y: at.y,
            },
            EnemyStage::Descending(_, _) => Position {
                x: at.x,
                y: retreat(at.y, ENEMY_STEP, dt_ms),
            },
        };
        enemies[i] = Enemy {
            id: enemy.id,
            position,
            bounding_box: enemy.bounding_box,
            level: enemy.level,
            is_dead: enemy.is_dead,
        };
        i = i + 1;
    }
    assert(enemies@ =~= marched(before, stage, dt_ms));
}

/// Advances the formation's stage by one tick. A descent counts down and
/// then marches on; a march turns when the wall ahead is reached, with a
/// descent first unless the formation already stands at the stand-still line.
/// With no enemy left the stage stays, and with no live enemy no wall is
/// reached.
pub fn update_enemy_info(enemies: &Vec<Enemy>, info: &mut EnemyInfo, bounds: Bounds)
    ensures
        final(info).stage == next_stage(old(info).stage, enemies@, bounds),
{
    if enemies.len() == 0 {
        return;
    }
    match info.stage {
        EnemyStage::Descending(remaining, resume) => {
            if remaining <= 1 {
                info.stage = EnemyStage::Marching(resume);
            } else {
                info.stage = EnemyStage::Descending(remaining - 1, resume);
            }
        },
        EnemyStage::Marching(towards) => {
            let line: i128 = (bounds.height / 4) as i128 + ENEMY_HALF_SIZE as i128
                + CASTLE_HEIGHT as i128;
            let mut at_wall = false;
            let mut low = false;
            let mut i: usize = 0;
            while i < enemies.len()
                invariant
                    i <= enemies.len(),
                    line == stand_still_line(bounds),
                    at_wall == wall_reached(enemies@.take(i as int), towards, bounds),
                    low == at_stand_still(enemies@.take(i as int), bounds),
                decreases enemies.len() - i,
            {
                let enemy = &enemies[i];
                let ghost prefix = enemies@.take(i as int);
                let ghost longer = enemies@.take(i + 1);
                let x: i128 = enemy.position.x as i128;
                let half: i128 = enemy.bounding_box.half_width as i128;
                let here = !enemy.is_dead && match towards {
                    Direction::Right => x + half >= bounds.width as i128 - EDGE_MARGIN as i128,
                    Direction::Left => x - half <= EDGE_MARGIN as i128,
                };
                let here_low = !enemy.is_dead && enemy.position.y as i128 <= line;
                proof {
                    assert(longer[i as int] == *enemy);
                    assert forall|j: int| 0 <= j < i implies prefix[j] == longer[j] by {}
                    if wall_reached(prefix, towards, bounds) {
                        match towards {
                            Direction::Right => {
                                let j = choose|j: int|
                                    0 <= j < prefix.len() && reaches_right(
                                        #[trigger] prefix[j],
                                        bounds,
                                    );
                                assert(reaches_right(longer[j], bounds));
                            },
                            Direction::Left => {
                                let j = choose|j: int|
                                    0 <= j < prefix.len() && reaches_left(#[trigger] prefix[j]);
                                assert(reaches_left(longer[j]));
                            },
                        }
                    }
                    if at_stand_still(prefix, bounds) {
                        let j = choose|j: int|
                            0 <= j < prefix.len() && stands_still(#[trigger] prefix[j], bounds);
                        assert(stands_still(longer[j], bounds));
                    }
                    if wall_reached(longer, towards, bounds) && !here {
                        match towards {
                            Direction::Right => {
                                let j = choose|j: int|
                                    0 <= j < longer.len() && reaches_right(
                                        #[trigger] longer[j],
                                        bounds,
                                    );
                                assert(reaches_right(prefix[j], bounds));
                            },
                            Direction::Left => {
                                let j = choose|j: int|
                                    0 <= j < longer.len() && reaches_left(#[trigger] longer[j]);
                                assert(reaches_left(prefix[j]));
                            },
                        }
                    }
                    if at_stand_still(longer, bounds) && !here_low {
                        let j = choose|j: int|
                            0 <= j < longer.len() && stands_still(#[trigger] longer[j], bounds);
                        assert(stands_still(prefix[j], bounds));
                    }
                }
                at_wall = at_wall || here;
                low = low || here_low;
                i = i + 1;
            }
            assert(enemies@.take(i as int) =~= enemies@);
            if at_wall {
                if low {
                    info.stage = EnemyStage::Marching(towards.reversed());
                } else {
                    info.stage = EnemyStage::Descending(DOWN_AMOUNT, towards.reversed());
                }
            }
        },
    }
}

/// While the formation marches right and a live enemy's right edge is at the
/// screen's width or beyond, the next stage turns it left: it marches left
/// at the stand-still line, and descends to march left above it. It never
/// marches right again without turning first.
pub proof fn lemma_right_wall_turns_left(enemies: Seq<Enemy>, bounds: Bounds, i: int)
    requires
        0 <= i < enemies.len(),
        !enemies[i].is_dead,
        enemies[i].position.x + enemies[i].bounding_box.half_width >= bounds.width,
    ensures
        at_stand_still(enemies, bounds) ==> next_stage(
            EnemyStage::Marching(Direction::Right),
            enemies,
            bounds,
        ) == EnemyStage::Marching(Direction::Left),
        !at_stand_still(enemies, bounds) ==> next_stage(
            EnemyStage::Marching(Direction::Right),
            enemies,
            bounds,
        ) == EnemyStage::Descending(DOWN_AMOUNT, Direction::Left),
{
    assert(reaches_right(enemies[i], bounds));
}

/// The mirror image at the left wall: a formation that marches left turns
/// right once a live enemy's left edge is at the screen's edge or beyond.
pub proof fn lemma_left_wall_turns_right(enemies: Seq<Enemy>, bounds: Bounds, i: int)
    requires
        0 <= i < enemies.len(),
        !enemies[i].is_dead,
        enemies[i].position.x - enemies[i].bounding_box.half_width <= 0,
    ensures
        at_stand_still(enemies, bounds) ==> next_stage(
            EnemyStage::Marching(Direction::Left),
            enemies,
            bounds,
        ) == EnemyStage::Marching(Direction::Right),
        !at_stand_still(enemies, bounds) ==> next_stage(
            EnemyStage::Marching(Direction::Left),
            enemies,
            bounds,
        ) == EnemyStage::Descending(DOWN_AMOUNT, Direction::Right),
{
    assert(reaches_left(enemies[i]));
}

/// The steps of a descent only go down: while enemies are left, every tick
/// takes one step away, and a descent with no step left to take resolves to
/// a march in the direction it carried.
pub proof fn lemma_descent_counts_down(
    remaining: usize,
    resume: Direction,
    enemies: Seq<Enemy>,
    bounds: Bounds,
)
    requires
        enemies.len() > 0,
    ensures
        match next_stage(EnemyStage::Descending(remaining, resume), enemies, bounds) {
            EnemyStage::Marching(towards) => towards == resume && remaining <= 1,
            EnemyStage::Descending(left, towards) => towards == resume && left + 1 == remaining,
        },
{
}

} // verus!
