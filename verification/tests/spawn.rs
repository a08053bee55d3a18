use space_invaders::components::{Enemy, EnemyBullet, Player};
use space_invaders::dice::Dice;
use space_invaders::geometry::{BoundingBox, Bounds, Position};
use space_invaders::formation::ENEMY_SIZE;
use space_invaders::spawn::{
    enemy_fires, enemy_shoot, enemy_shoot_with, grid_columns, spawn_bullet, spawn_castles,
    spawn_enemies, spawn_player, CASTLE_HALF_HEIGHT, CASTLE_HALF_WIDTH, CASTLE_HEIGHT,
    CASTLE_WIDTH, ENEMY_HALF_SIZE, PLAYER_HALF_SIZE, PLAYER_SIZE, WINDOW_HEIGHT, WINDOW_WIDTH,
};

fn screen() -> Bounds {
    Bounds::new(WINDOW_WIDTH, WINDOW_HEIGHT)
}

fn enemy(id: u64, x: i64, y: i64) -> Enemy {
    Enemy {
        id,
        position: Position::new(x, y),
        bounding_box: BoundingBox::new(16_000, 16_000),
        level: 1,
        is_dead: false,
    }
}

#[test]
fn player_starts_centred_a_tenth_up() {
    let ship = spawn_player(screen(), 9);
    assert_eq!(
        ship,
        Player {
            id: 9,
            position: Position::new(300_000, 80_000),
            bounding_box: BoundingBox::new(32_000, 32_000),
        }
    );
}

#[test]
fn castles_divide_the_width_evenly() {
    let castles = spawn_castles(screen(), 1);
    assert_eq!(castles.len(), 4);
    let xs: Vec<i64> = castles.iter().map(|c| c.position.x).collect();
    assert_eq!(xs, vec![120_000, 240_000, 360_000, 480_000]);
    for (k, castle) in castles.iter().enumerate() {
        assert_eq!(castle.id, 1 + k as u64);
        assert_eq!(castle.position.y, 200_000);
        assert_eq!(castle.hitpoints, 2);
        assert_eq!(castle.bounding_box, BoundingBox::new(15_000, 35_000));
    }
}

#[test]
fn enemy_grid_fills_the_top_of_the_screen() {
    assert_eq!(grid_columns(screen()), 10);
    let enemies = spawn_enemies(screen(), 5);
    assert_eq!(enemies.len(), 50);
    assert_eq!(enemies[0].position, Position::new(28_400, 640_000));
    assert_eq!(enemies[0].level, 1);
    assert_eq!(enemies[0].id, 5);
    assert_eq!(enemies[9].position, Position::new(539_600, 640_000));
    assert_eq!(enemies[10].position, Position::new(28_400, 672_000));
    assert_eq!(enemies[10].level, 2);
    assert_eq!(enemies[49].position, Position::new(539_600, 768_000));
    assert_eq!(enemies[49].level, 5);
    assert_eq!(enemies[49].id, 54);
    for e in enemies.iter() {
        assert!(!e.is_dead);
        assert_eq!(e.bounding_box, BoundingBox::new(16_000, 16_000));
    }
}

#[test]
fn a_screen_no_wider_than_an_enemy_has_no_grid() {
    let narrow = Bounds::new(32_000, 800_000);
    assert_eq!(grid_columns(narrow), 0);
    assert!(spawn_enemies(narrow, 0).is_empty());
    assert_eq!(grid_columns(Bounds::new(0, 0)), 0);
}

#[test]
fn bullet_starts_at_the_player() {
    let ship = spawn_player(screen(), 0);
    let bullet = spawn_bullet(&ship, 77);
    assert_eq!(bullet.id, 77);
    assert_eq!(bullet.position, Position::new(300_000, 80_000));
    assert_eq!(bullet.speed, 500);
    assert_eq!(bullet.bounding_box, BoundingBox::new(7_500, 5_000));
}

#[test]
fn fire_threshold_at_the_bottom_of_the_screen() {
    // 0.9988 of the roll span is 4289813335.2448.
    assert!(!enemy_fires(0, 800_000, 4_289_813_335));
    assert!(enemy_fires(0, 800_000, 4_289_813_336));
}

#[test]
fn fire_threshold_at_the_top_of_the_screen() {
    // 0.9998 of the roll span is 4294108302.5408.
    assert!(!enemy_fires(800_000, 800_000, 4_294_108_302));
    assert!(enemy_fires(800_000, 800_000, 4_294_108_303));
}

#[test]
fn lower_enemies_fire_on_more_rolls() {
    let roll = 4_292_000_000;
    assert!(enemy_fires(100_000, 800_000, roll));
    assert!(!enemy_fires(700_000, 800_000, roll));
    assert!(!enemy_fires(400_000, 800_000, 0));
    assert!(enemy_fires(400_000, 800_000, u32::MAX));
    assert!(!enemy_fires(400_000, 0, u32::MAX));
}

#[test]
fn enemies_fire_on_their_own_rolls() {
    let mut dead = enemy(12, 300_000, 500_000);
    dead.is_dead = true;
    let enemies =
        vec![enemy(10, 100_000, 500_000), enemy(11, 200_000, 500_000), dead, enemy(13, 400_000, 500_000)];
    let rolls = vec![u32::MAX, 0, u32::MAX, u32::MAX];
    let mut enemy_bullets: Vec<EnemyBullet> = Vec::new();
    let fired = enemy_shoot_with(&enemies, &rolls, screen(), 100, &mut enemy_bullets);
    assert_eq!(fired, 2);
    assert_eq!(
        enemy_bullets,
        vec![
            EnemyBullet {
                id: 100,
                position: Position::new(100_000, 500_000),
                bounding_box: BoundingBox::new(21_000, 21_000),
                speed: 200,
            },
            EnemyBullet {
                id: 101,
                position: Position::new(400_000, 500_000),
                bounding_box: BoundingBox::new(21_000, 21_000),
                speed: 200,
            },
        ]
    );
}

#[test]
fn an_enemy_without_a_roll_holds_its_fire() {
    let enemies = vec![enemy(10, 100_000, 500_000), enemy(11, 200_000, 500_000)];
    let rolls = vec![u32::MAX];
    let mut enemy_bullets: Vec<EnemyBullet> = Vec::new();
    let fired = enemy_shoot_with(&enemies, &rolls, screen(), 0, &mut enemy_bullets);
    assert_eq!(fired, 1);
    assert_eq!(enemy_bullets.len(), 1);
    assert_eq!(enemy_bullets[0].position, Position::new(100_000, 500_000));
}

#[test]
fn rolled_fire_adds_one_bullet_per_shot() {
    let enemies: Vec<Enemy> = (0..200u64).map(|k| enemy(k, 1_000 * k as i64, 400_000)).collect();
    let mut dice = Dice::seeded(7);
    let mut enemy_bullets: Vec<EnemyBullet> = Vec::new();
    let mut total = 0;
    for _ in 0..50 {
        let before = enemy_bullets.len();
        let fired = enemy_shoot(&enemies, &mut dice, screen(), 1_000, &mut enemy_bullets);
        assert_eq!(enemy_bullets.len(), before + fired);
        assert!(fired <= enemies.len());
        total += fired;
    }
    assert!(total < 10_000);
    for b in enemy_bullets.iter() {
        assert_eq!(b.position.y, 400_000);
        assert_eq!(b.speed, 200);
    }
}

#[test]
fn half_sizes_are_half_the_sizes() {
    assert_eq!(PLAYER_HALF_SIZE * 2, PLAYER_SIZE);
    assert_eq!(CASTLE_HALF_WIDTH * 2, CASTLE_WIDTH);
    assert_eq!(CASTLE_HALF_HEIGHT * 2, CASTLE_HEIGHT);
    assert_eq!(ENEMY_HALF_SIZE * 2, ENEMY_SIZE);
}
