use space_invaders::components::{Bullet, EnemyBullet, Player};
use space_invaders::geometry::{advance, clamp_coordinate, retreat, BoundingBox, Bounds, Position};
use space_invaders::movement::{
    confine_player_movement, move_bullet, move_enemy_bullet, player_movement, PLAYER_SPEED,
};

fn bullet(id: u64, x: i64, y: i64) -> Bullet {
    Bullet {
        id,
        position: Position::new(x, y),
        bounding_box: BoundingBox::new(7_500, 5_000),
        speed: 500,
    }
}

fn enemy_bullet(id: u64, x: i64, y: i64) -> EnemyBullet {
    EnemyBullet {
        id,
        position: Position::new(x, y),
        bounding_box: BoundingBox::new(21_000, 21_000),
        speed: 200,
    }
}

fn player(x: i64) -> Player {
    Player { id: 0, position: Position::new(x, 80_000), bounding_box: BoundingBox::new(32_000, 32_000) }
}

fn screen() -> Bounds {
    Bounds::new(600_000, 800_000)
}

#[test]
fn coordinates_advance_by_speed_times_time() {
    assert_eq!(advance(1_000, 500, 16), 9_000);
    assert_eq!(retreat(1_000, 200, 10), -1_000);
    assert_eq!(advance(5, 0, 1_000), 5);
    assert_eq!(advance(5, 7, 0), 5);
    assert_eq!(advance(i64::MAX - 1, 500, 16), i64::MAX);
    assert_eq!(retreat(i64::MIN + 1, 500, 16), i64::MIN);
    assert_eq!(advance(0, i64::MIN, u32::MAX), i64::MIN);
    assert_eq!(retreat(0, i64::MIN, u32::MAX), i64::MAX);
}

#[test]
fn clamping_keeps_what_fits() {
    assert_eq!(clamp_coordinate(42), 42);
    assert_eq!(clamp_coordinate(-42), -42);
    assert_eq!(clamp_coordinate(i64::MAX as i128 + 1), i64::MAX);
    assert_eq!(clamp_coordinate(i64::MIN as i128 - 1), i64::MIN);
}

#[test]
fn bullets_fly_up_and_expire_past_the_top() {
    let mut bullets =
        vec![bullet(1, 10_000, 100_000), bullet(2, 20_000, 795_000), bullet(3, 30_000, 790_000)];
    let expired = move_bullet(&mut bullets, 20, screen());
    assert_eq!(expired, vec![2]);
    assert_eq!(bullets, vec![bullet(1, 10_000, 110_000), bullet(3, 30_000, 800_000)]);
}

#[test]
fn enemy_bullets_fly_down_and_expire_past_the_bottom() {
    let mut bullets = vec![
        enemy_bullet(1, 10_000, 100_000),
        enemy_bullet(2, 20_000, 2_499),
        enemy_bullet(3, 30_000, 2_500),
    ];
    let expired = move_enemy_bullet(&mut bullets, 10);
    assert_eq!(expired, vec![2]);
    assert_eq!(bullets, vec![enemy_bullet(1, 10_000, 98_000), enemy_bullet(3, 30_000, 500)]);
}

#[test]
fn no_bullets_nothing_expires() {
    let mut bullets: Vec<Bullet> = Vec::new();
    assert!(move_bullet(&mut bullets, 16, screen()).is_empty());
    let mut enemy_bullets: Vec<EnemyBullet> = Vec::new();
    assert!(move_enemy_bullet(&mut enemy_bullets, 16).is_empty());
}

#[test]
fn player_moves_sideways_only() {
    assert_eq!(PLAYER_SPEED, 500);
    let mut ship = player(300_000);
    player_movement(&mut ship, false, true, 16);
    assert_eq!(ship.position, Position::new(308_000, 80_000));
    player_movement(&mut ship, true, false, 10);
    assert_eq!(ship.position, Position::new(303_000, 80_000));
}

#[test]
fn both_directions_cancel() {
    let mut ship = player(300_000);
    player_movement(&mut ship, true, true, 16);
    assert_eq!(ship.position, Position::new(300_000, 80_000));
    player_movement(&mut ship, false, false, 16);
    assert_eq!(ship.position, Position::new(300_000, 80_000));
}

#[test]
fn player_is_kept_inside_the_screen() {
    let mut ship = player(10_000);
    confine_player_movement(&mut ship, screen());
    assert_eq!(ship.position, Position::new(32_000, 80_000));
    let mut ship = player(590_000);
    confine_player_movement(&mut ship, screen());
    assert_eq!(ship.position, Position::new(568_000, 80_000));
    let mut ship = player(568_000);
    confine_player_movement(&mut ship, screen());
    assert_eq!(ship.position, Position::new(568_000, 80_000));
    let mut ship = player(-5);
    ship.position.y = -900_000;
    confine_player_movement(&mut ship, screen());
    assert_eq!(ship.position, Position::new(32_000, -900_000));
}
