//! What a new game is populated with, and what is fired while it runs.
//!
//! Every spawner takes the first identifier it may use and numbers what it
//! creates from there, one after the other.

use vstd::prelude::*;
use crate::components::{Bullet, Castle, Enemy, EnemyBullet, Player, CASTLE_HITPOINTS};
use crate::dice::Dice;
use crate::formation::ENEMY_SIZE;
use crate::geometry::{BoundingBox, Bounds, Position};

verus! {

/// Side length of the player's sprite.
pub const PLAYER_SIZE: i64 = 64_000;

/// Half the side length of the player's sprite.
pub const PLAYER_HALF_SIZE: i64 = 32_000;

/// Height of a castle.
pub const CASTLE_HEIGHT: i64 = 70_000;

/// Half the height of a castle.
pub const CASTLE_HALF_HEIGHT: i64 = 35_000;

/// Half the width of a castle.
pub const CASTLE_HALF_WIDTH: i64 = 15_000;

/// Half the side length of an enemy sprite.
pub const ENEMY_HALF_SIZE: i64 = 16_000;

/// Width of a castle.
pub const CASTLE_WIDTH: i64 = 30_000;

/// Castles in the row.
pub const NUMBER_OF_CASTLES: u32 = 4;

/// Width of the screen the game was laid out for.
pub const WINDOW_WIDTH: u32 = 600_000;

/// Height of the screen the game was laid out for.
pub const WINDOW_HEIGHT: u32 = 800_000;

/// Rows of the enemy grid.
pub const AMOUNT_OF_ROWS: u32 = 5;

/// Enemies that a row is spaced for.
pub const AMOUNT_OF_ENEMIES: u32 = 10;

/// Speed of a player bullet, in pixels per second.
pub const BULLET_SPEED: i64 = 500;

/// Speed of an enemy bullet, in pixels per second.
pub const ENEMY_BULLET_SPEED: i64 = 200;

/// Half the width of a player bullet.
pub const BULLET_HALF_WIDTH: i64 = 7_500;

/// Half the height of a player bullet.
pub const BULLET_HALF_HEIGHT: i64 = 5_000;

/// Radius of an enemy bullet.
pub const ENEMY_BULLET_RADIUS: i64 = 21_000;

/// Number of values a roll can take.
pub const ROLL_SPAN: i128 = 0x1_0000_0000;

/// The player of a new game: centred, a tenth of the screen up.
pub open spec fn new_player(bounds: Bounds, id: u64) -> Player {
    Player {
        id,
        position: Position { x: (bounds.width / 2) as i64, y: (bounds.height / 10) as i64 },
        bounding_box: BoundingBox { half_width: PLAYER_HALF_SIZE, half_height: PLAYER_HALF_SIZE },
    }
}

/// The castle at `index` of the row: the castles divide the screen's width
/// evenly, a quarter of the screen up.
pub open spec fn new_castle(bounds: Bounds, first_id: u64, index: int) -> Castle {
    Castle {
        id: (first_id + index) as u64,
        position: Position {
            x: (bounds.width as int / (NUMBER_OF_CASTLES + 1) * (index + 1)) as i64,
            y: (bounds.height / 4) as i64,
        },
        bounding_box: BoundingBox {
            half_width: CASTLE_HALF_WIDTH,
            half_height: CASTLE_HALF_HEIGHT,
        },
        hitpoints: CASTLE_HITPOINTS,
    }
}

/// The castle row of a new game.
pub open spec fn new_castles(bounds: Bounds, first_id: u64) -> Seq<Castle> {
    Seq::new(NUMBER_OF_CASTLES as nat, |index: int| new_castle(bounds, first_id, index))
}

/// Width of one cell of the enemy grid: a row is spaced for
/// [`AMOUNT_OF_ENEMIES`] cells with half an enemy of margin at either side.
/// A screen that is no wider than one enemy has no cells.
pub open spec fn cell_width(bounds: Bounds) -> int {
    if bounds.width > ENEMY_SIZE {
        (bounds.width - ENEMY_SIZE) / AMOUNT_OF_ENEMIES as int
    } else {
        0
    }
}

/// Enemies in one row: as many cells as the screen's width holds.
pub open spec fn columns(bounds: Bounds) -> int {
    if cell_width(bounds) > 0 {
        bounds.width as int / cell_width(bounds)
    } else {
        0
    }
}

/// The enemy in `row`, counted from the lowest row, and `column`, counted
/// from the left. It stands in the middle of its cell, and the rows fill the
/// top of the screen. The lowest row faces the player: it is the front row
/// and has level 1.
pub open spec fn new_enemy(bounds: Bounds, id: u64, row: int, column: int) -> Enemy {
    Enemy {
        id,
        position: Position {
            x: (column * cell_width(bounds) + cell_width(bounds) / 2) as i64,
            y: (bounds.height - ENEMY_SIZE * AMOUNT_OF_ROWS + row * ENEMY_SIZE) as i64,
        },
        bounding_box: BoundingBox { half_width: ENEMY_HALF_SIZE, half_height: ENEMY_HALF_SIZE },
        level: (row + 1) as u32,
        is_dead: false,
    }
}

/// The enemy grid of a new game, row by row from the lowest.
pub open spec fn new_enemies(bounds: Bounds, first_id: u64) -> Seq<Enemy> {
    Seq::new(
        (AMOUNT_OF_ROWS * columns(bounds)) as nat,
        |k: int|
            new_enemy(
                bounds,
                (first_id + k) as u64,
                k / columns(bounds),
                k % columns(bounds),
            ),
    )
}

/// The bullet that a player fires: it starts where the player is.
pub open spec fn new_bullet(player: Player, id: u64) -> Bullet {
    Bullet {
        id,
        position: player.position,
        bounding_box: BoundingBox {
            half_width: BULLET_HALF_WIDTH,
            half_height: BULLET_HALF_HEIGHT,
        },
        speed: BULLET_SPEED,
    }
}

/// The bullet that an enemy fires: it starts where the enemy is.
pub open spec fn new_enemy_bullet(enemy: Enemy, id: u64) -> EnemyBullet {
    EnemyBullet {
        id,
        position: enemy.position,
        bounding_box: BoundingBox {
            half_width: ENEMY_BULLET_RADIUS,
            half_height: ENEMY_BULLET_RADIUS,
        },
        speed: ENEMY_BULLET_SPEED,
    }
}

/// Whether an enemy at height `y` fires on `roll`. With the roll read as the
/// fraction `roll / ROLL_SPAN` of the unit interval, the enemy fires iff
/// that fraction exceeds `0.9998 - (1 - y / height) / 1000`: the lower the
/// enemy, the more rolls make it fire.
pub open spec fn fires(y: i64, height: u32, roll: u32) -> bool {
    height > 0 && roll * 10_000 * height > ROLL_SPAN * (9_988 * height + 10 * y)
}

/// Whether the enemy at `index` fires: it must be alive and have a roll.
pub open spec fn shoots(enemies: Seq<Enemy>, rolls: Seq<u32>, index: int, bounds: Bounds) -> bool {
    &&& 0 <= index < enemies.len()
    &&& index < rolls.len()
    &&& !enemies[index].is_dead
    &&& fires(enemies[index].position.y, bounds.height, rolls[index])
}

/// The bullets that the enemies fire on `rolls`, the enemy at an index
/// rolling what stands at that index.
pub open spec fn enemy_fire(
    enemies: Seq<Enemy>,
    rolls: Seq<u32>,
    bounds: Bounds,
    first_id: u64,
) -> Seq<EnemyBullet>
    decreases enemies.len(),
{
    if enemies.len() == 0 {
        Seq::empty()
    } else {
        let before = enemy_fire(enemies.drop_last(), rolls, bounds, first_id);
        if shoots(enemies, rolls, enemies.len() - 1, bounds) {
            before.push(new_enemy_bullet(enemies.last(), (first_id + before.len()) as u64))
        } else {
            before
        }
    }
}

/// No more bullets are fired than there are enemies.
pub proof fn lemma_enemy_fire_len(enemies: Seq<Enemy>, rolls: Seq<u32>, bounds: Bounds, first_id: u64)
    ensures
        enemy_fire(enemies, rolls, bounds, first_id).len() <= enemies.len(),
    decreases enemies.len(),
{
    if enemies.len() > 0 {
        lemma_enemy_fire_len(enemies.drop_last(), rolls, bounds, first_id);
    }
}

/// The bullets that the enemies fire are numbered from `first_id`, one
/// after the other.
pub proof fn lemma_enemy_fire_numbering(
    enemies: Seq<Enemy>,
    rolls: Seq<u32>,
    bounds: Bounds,
    first_id: u64,
)
    requires
        first_id + enemies.len() <= u64::MAX,
    ensures
        enemy_fire(enemies, rolls, bounds, first_id).len() <= enemies.len(),
        forall|k: int|
            0 <= k < enemy_fire(enemies, rolls, bounds, first_id).len() ==> (#[trigger] enemy_fire(
                enemies,
                rolls,
                bounds,
                first_id,
            )[k]).id == first_id + k,
    decreases enemies.len(),
{
    if enemies.len() > 0 {
        lemma_enemy_fire_numbering(enemies.drop_last(), rolls, bounds, first_id);
    }
}

/// Creates the player of a new game.
pub fn spawn_player(bounds: Bounds, id: u64) -> (player: Player)
    ensures
        player == new_player(bounds, id),
{
    Player {
        id,
        position: Position { x: (bounds.width / 2) as i64, y: (bounds.height / 10) as i64 },
        bounding_box: BoundingBox { half_width: PLAYER_HALF_SIZE, half_height: PLAYER_HALF_SIZE },
    }
}

/// Creates the castle row of a new game.
pub fn spawn_castles(bounds: Bounds, first_id: u64) -> (castles: Vec<Castle>)
    requires
        first_id + NUMBER_OF_CASTLES <= u64::MAX,
    ensures
        castles@ == new_castles(bounds, first_id),
{
    let mut castles: Vec<Castle> = Vec::new();
    let stride: u32 = bounds.width / (NUMBER_OF_CASTLES + 1);
    let mut index: u32 = 0;
    while index < NUMBER_OF_CASTLES
        invariant
            index <= NUMBER_OF_CASTLES,
            first_id + NUMBER_OF_CASTLES <= u64::MAX,
            stride == bounds.width as int / (NUMBER_OF_CASTLES + 1),
            castles@.len() == index,
            forall|i: int| 0 <= i < index ==> castles@[i] == new_castle(bounds, first_id, i),
        decreases NUMBER_OF_CASTLES - index,
    {
        assert(stride * (index + 1) <= bounds.width) by (nonlinear_arith)
            requires
                stride == bounds.width as int / 5,
                0 <= index < 4,
        ;
        castles.push(
            Castle {
                id: first_id + index as u64,
                position: Position {
                    x: (stride * (index + 1)) as i64,
                    y: (bounds.height / 4) as i64,
                },
                bounding_box: BoundingBox {
                    half_width: CASTLE_HALF_WIDTH,
                    half_height: CASTLE_HALF_HEIGHT,
                },
                hitpoints: CASTLE_HITPOINTS,
            },
        );
        index = index + 1;
    }
    assert(castles@ =~= new_castles(bounds, first_id));
    castles
}

/// Enemies in one row of the grid, or 0 where the screen is too narrow for
/// a grid.
pub fn grid_columns(bounds: Bounds) -> (r: u32)
    ensures
        r == columns(bounds),
{
    if bounds.width as i64 > ENEMY_SIZE {
        let cell: u32 = (bounds.width - ENEMY_SIZE as u32) / AMOUNT_OF_ENEMIES;
        if cell > 0 {
            bounds.width / cell
        } else {
            0
        }
    } else {
        0
    }
}

/// Creates the enemy grid of a new game.
pub fn spawn_enemies(bounds: Bounds, first_id: u64) -> (enemies: Vec<Enemy>)
    requires
        first_id + AMOUNT_OF_ROWS * columns(bounds) <= u64::MAX,
    ensures
        enemies@ == new_enemies(bounds, first_id),
{
    let mut enemies: Vec<Enemy> = Vec::new();
    let per_row: u64 = grid_columns(bounds) as u64;
    let total: u64 = AMOUNT_OF_ROWS as u64 * per_row;
    let mut k: u64 = 0;
    while k < total
        invariant
            k <= total,
            per_row == columns(bounds),
            total == AMOUNT_OF_ROWS * columns(bounds),
            first_id + total <= u64::MAX,
            enemies@.len() == k,
            forall|i: int|
                0 <= i < k ==> enemies@[i] == new_enemy(
                    bounds,
                    (first_id + i) as u64,
                    i / columns(bounds),
                    i % columns(bounds),
                ),
        decreases total - k,
    {
        let cell: u64 = ((bounds.width - ENEMY_SIZE as u32) / AMOUNT_OF_ENEMIES) as u64;
        let row: u64 = k / per_row;
        let column: u64 = k % per_row;
        assert(row < 5 && column * cell <= bounds.width) by (nonlinear_arith)
            requires
                row == k as int / per_row as int,
                column == k as int % per_row as int,
                k < 5 * per_row,
                per_row == bounds.width as int / cell as int,
                cell > 0,
        ;
        enemies.push(
            Enemy {
                id: first_id + k,
                position: Position {
                    x: (column * cell + cell / 2) as i64,
                    y: bounds.height as i64 - ENEMY_SIZE * AMOUNT_OF_ROWS as i64 + row as i64
                        * ENEMY_SIZE,
                },
                bounding_box: BoundingBox {
                    half_width: ENEMY_HALF_SIZE,
                    half_height: ENEMY_HALF_SIZE,
                },
                level: row as u32 + 1,
                is_dead: false,
            },
        );
        k = k + 1;
    }
    assert(enemies@ =~= new_enemies(bounds, first_id));
    enemies
}

/// Creates the bullet that the player fires.
pub fn spawn_bullet(player: &Player, id: u64) -> (bullet: Bullet)
    ensures
        bullet == new_bullet(*player, id),
{
    Bullet {
        id,
        position: player.position,
        bounding_box: BoundingBox {
            half_width: BULLET_HALF_WIDTH,
            half_height: BULLET_HALF_HEIGHT,
        },
        speed: BULLET_SPEED,
    }
}

/// Decides whether an enemy at height `y` fires on `roll`.
pub fn enemy_fires(y: i64, height: u32, roll: u32) -> (r: bool)
    ensures
        r == fires(y, height, roll),
{
    if height == 0 {
        return false;
    }
    let h: i128 = height as i128;
    assert(0 <= (roll * 10_000) * height <= (0xFFFF_FFFF * 10_000) * 0xFFFF_FFFF)
        by (nonlinear_arith)
        requires
            0 <= roll <= 0xFFFF_FFFF,
            0 <= height <= 0xFFFF_FFFF,
    ;
    let lhs: i128 = roll as i128 * 10_000 * h;
    let rhs: i128 = ROLL_SPAN * (9_988 * h + 10 * (y as i128));
    lhs > rhs
}

/// Lets every live enemy fire on its roll and adds the bullets fired to
/// `enemy_bullets`. Returns the number of bullets fired.
pub fn enemy_shoot_with(
    enemies: &Vec<Enemy>,
    rolls: &Vec<u32>,
    bounds: Bounds,
    first_id: u64,
    enemy_bullets: &mut Vec<EnemyBullet>,
) -> (fired: usize)
    requires
        first_id + enemies.len() <= u64::MAX,
    ensures
        final(enemy_bullets)@ == old(enemy_bullets)@ + enemy_fire(
            enemies@,
            rolls@,
            bounds,
            first_id,
        ),
        fired == enemy_fire(enemies@, rolls@, bounds, first_id).len(),
{
    let ghost before = enemy_bullets@;
    let mut fired: usize = 0;
    let mut i: usize = 0;
    while i < enemies.len()
        invariant
            i <= enemies.len(),
            first_id + enemies.len() <= u64::MAX,
            fired <= i,
            fired == enemy_fire(enemies@.take(i as int), rolls@, bounds, first_id).len(),
            enemy_bullets@ == before + enemy_fire(
                enemies@.take(i as int),
                rolls@,
                bounds,
                first_id,
            ),
        decreases enemies.len() - i,
    {
        let enemy = &enemies[i];
        proof {
            assert(enemies@.take(i + 1).drop_last() =~= enemies@.take(i as int));
            assert(enemies@.take(i + 1).last() == *enemy);
        }
        if i < rolls.len() && !enemy.is_dead && enemy_fires(
            enemy.position.y,
            bounds.height,
            rolls[i],
        ) {
            enemy_bullets.push(
                EnemyBullet {
                    id: first_id + fired as u64,
                    position: enemy.position,
                    bounding_box: BoundingBox {
                        half_width: ENEMY_BULLET_RADIUS,
                        half_height: ENEMY_BULLET_RADIUS,
                    },
                    speed: ENEMY_BULLET_SPEED,
                },
            );
            fired = fired + 1;
        }
        proof {
            assert(enemy_bullets@ =~= before + enemy_fire(
                enemies@.take(i + 1),
                rolls@,
                bounds,
                first_id,
            ));
        }
        i = i + 1;
    }
    assert(enemies@.take(i as int) =~= enemies@);
    fired
}

/// Rolls once for every enemy and lets the enemies fire on those rolls.
/// Whatever was rolled, the bullets added are those that
/// [`enemy_shoot_with`] adds for some rolls, one roll per enemy.
pub fn enemy_shoot(
    enemies: &Vec<Enemy>,
    dice: &mut Dice,
    bounds: Bounds,
    first_id: u64,
    enemy_bullets: &mut Vec<EnemyBullet>,
) -> (fired: usize)
    requires
        first_id + enemies.len() <= u64::MAX,
    ensures
        exists|rolls: Seq<u32>|
            rolls.len() == enemies.len() && final(enemy_bullets)@ == old(enemy_bullets)@
                + #[trigger] enemy_fire(enemies@, rolls, bounds, first_id) && fired == enemy_fire(
                enemies@,
                rolls,
                bounds,
                first_id,
            ).len(),
{
    let rolls = dice.rolls(enemies.len());
    enemy_shoot_with(enemies, &rolls, bounds, first_id, enemy_bullets)
}

} // verus!
