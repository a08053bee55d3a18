use space_invaders::combat::{
    bullet_hits_castle, bullet_hits_enemy, enemy_bullet_hits_castle, enemy_bullet_hits_player,
    find_first_hit, Hit,
};
use space_invaders::components::{Bullet, Castle, Enemy, EnemyBullet, Player};
use space_invaders::events::GameOver;
use space_invaders::resources::{Lives, Score};
use space_invaders::geometry::{overlaps, BoundingBox, Position};

fn bullet(id: u64, x: i64, y: i64) -> Bullet {
    Bullet {
        id,
        position: Position::new(x, y),
        bounding_box: BoundingBox::new(7_500, 5_000),
        speed: 500,
    }
}

fn enemy_bullet(id: u64, x: i64, y: i64) -> EnemyBullet {
    EnemyBullet {
        id,
        position: Position::new(x, y),
        bounding_box: BoundingBox::new(21_000, 21_000),
        speed: 200,
    }
}

fn enemy(id: u64, x: i64, y: i64) -> Enemy {
    Enemy {
        id,
        position: Position::new(x, y),
        bounding_box: BoundingBox::new(16_000, 16_000),
        level: 1,
        is_dead: false,
    }
}

fn castle(id: u64, x: i64, y: i64, hitpoints: u32) -> Castle {
    Castle {
        id,
        position: Position::new(x, y),
        bounding_box: BoundingBox::new(15_000, 35_000),
        hitpoints,
    }
}

fn player(id: u64, x: i64, y: i64) -> Player {
    Player { id, position: Position::new(x, y), bounding_box: BoundingBox::new(32_000, 32_000) }
}

#[test]
fn boxes_that_share_an_edge_overlap() {
    let a = Position::new(0, 0);
    let b = Position::new(20, 0);
    let half = BoundingBox::new(10, 10);
    assert!(overlaps(a, half, b, half));
    assert!(!overlaps(a, half, Position::new(21, 0), half));
    assert!(!overlaps(a, half, Position::new(0, 21), half));
    assert!(overlaps(a, half, Position::new(-20, -20), half));
}

#[test]
fn overlap_needs_both_axes() {
    let half = BoundingBox::new(10, 10);
    assert!(!overlaps(Position::new(0, 0), half, Position::new(5, 100), half));
    assert!(!overlaps(Position::new(0, 0), half, Position::new(100, 5), half));
    assert!(overlaps(Position::new(0, 0), half, Position::new(5, 5), half));
}

#[test]
fn overlap_at_the_ends_of_the_range_does_not_wrap() {
    let wide = BoundingBox::new(i64::MAX, i64::MAX);
    assert!(overlaps(Position::new(i64::MAX, 0), wide, Position::new(i64::MIN + 1, 0), wide));
    let thin = BoundingBox::new(1, 1);
    assert!(!overlaps(Position::new(i64::MAX, 0), thin, Position::new(i64::MIN, 0), thin));
}

#[test]
fn bullet_and_enemy_both_leave() {
    let mut bullets = vec![bullet(7, 100_000, 500_000)];
    let mut enemies = vec![enemy(3, 100_000, 510_000)];
    let hits = bullet_hits_enemy(&mut bullets, &mut enemies);
    assert_eq!(hits, vec![Hit { shot: 7, target: 3, destroyed: true }]);
    assert!(bullets.is_empty());
    assert!(enemies.is_empty());
}

#[test]
fn a_bullet_hits_only_the_first_enemy_it_overlaps() {
    let mut bullets = vec![bullet(7, 100_000, 500_000)];
    let mut enemies =
        vec![enemy(1, 400_000, 500_000), enemy(2, 100_000, 505_000), enemy(3, 105_000, 500_000)];
    let hits = bullet_hits_enemy(&mut bullets, &mut enemies);
    assert_eq!(hits, vec![Hit { shot: 7, target: 2, destroyed: true }]);
    assert!(bullets.is_empty());
    assert_eq!(enemies, vec![enemy(1, 400_000, 500_000), enemy(3, 105_000, 500_000)]);
}

#[test]
fn two_bullets_on_one_enemy_spend_only_the_first() {
    let mut bullets = vec![bullet(7, 100_000, 500_000), bullet(8, 100_000, 501_000)];
    let mut enemies = vec![enemy(2, 100_000, 505_000)];
    let hits = bullet_hits_enemy(&mut bullets, &mut enemies);
    assert_eq!(hits, vec![Hit { shot: 7, target: 2, destroyed: true }]);
    assert_eq!(bullets, vec![bullet(8, 100_000, 501_000)]);
    assert!(enemies.is_empty());
}

#[test]
fn every_bullet_survives_or_hits_once() {
    let mut bullets = vec![
        bullet(1, 100_000, 500_000),
        bullet(2, 300_000, 100_000),
        bullet(3, 200_000, 500_000),
        bullet(4, 100_000, 500_000),
    ];
    let mut enemies =
        vec![enemy(10, 100_000, 500_000), enemy(11, 200_000, 500_000), enemy(12, 100_000, 490_000)];
    let hits = bullet_hits_enemy(&mut bullets, &mut enemies);
    assert_eq!(hits.len() + bullets.len(), 4);
    assert_eq!(
        hits,
        vec![
            Hit { shot: 1, target: 10, destroyed: true },
            Hit { shot: 3, target: 11, destroyed: true },
            Hit { shot: 4, target: 12, destroyed: true },
        ]
    );
    assert_eq!(bullets, vec![bullet(2, 300_000, 100_000)]);
    assert!(enemies.is_empty());
}

#[test]
fn dead_enemy_is_not_hit() {
    let mut bullets = vec![bullet(7, 100_000, 500_000)];
    let mut corpse = enemy(3, 100_000, 500_000);
    corpse.is_dead = true;
    let mut enemies = vec![corpse];
    let hits = bullet_hits_enemy(&mut bullets, &mut enemies);
    assert!(hits.is_empty());
    assert_eq!(bullets.len(), 1);
    assert_eq!(enemies.len(), 1);
}

#[test]
fn no_bullets_and_no_targets_resolve_to_nothing() {
    let mut bullets: Vec<Bullet> = Vec::new();
    let mut enemies = vec![enemy(3, 100_000, 500_000)];
    assert!(bullet_hits_enemy(&mut bullets, &mut enemies).is_empty());
    assert_eq!(enemies.len(), 1);
    let mut bullets = vec![bullet(7, 100_000, 500_000)];
    let mut none: Vec<Enemy> = Vec::new();
    assert!(bullet_hits_enemy(&mut bullets, &mut none).is_empty());
    assert_eq!(bullets.len(), 1);
}

#[test]
fn player_bullet_does_not_harm_a_castle() {
    let mut bullets = vec![bullet(7, 120_000, 200_000)];
    let mut castles = vec![castle(1, 120_000, 200_000, 2)];
    let hits = bullet_hits_castle(&mut bullets, &mut castles);
    assert_eq!(hits, vec![Hit { shot: 7, target: 1, destroyed: false }]);
    assert!(bullets.is_empty());
    assert_eq!(castles, vec![castle(1, 120_000, 200_000, 2)]);
}

#[test]
fn castle_falls_on_the_second_hit() {
    let mut castles = vec![castle(1, 120_000, 200_000, 2)];
    let mut first = vec![enemy_bullet(20, 120_000, 230_000)];
    let hits = enemy_bullet_hits_castle(&mut first, &mut castles);
    assert_eq!(hits, vec![Hit { shot: 20, target: 1, destroyed: false }]);
    assert!(first.is_empty());
    assert_eq!(castles, vec![castle(1, 120_000, 200_000, 1)]);
    let mut second = vec![enemy_bullet(21, 120_000, 230_000)];
    let hits = enemy_bullet_hits_castle(&mut second, &mut castles);
    assert_eq!(hits, vec![Hit { shot: 21, target: 1, destroyed: true }]);
    assert!(second.is_empty());
    assert!(castles.is_empty());
}

#[test]
fn two_bullets_in_one_call_fell_a_castle_and_a_third_flies_on() {
    let mut castles = vec![castle(1, 120_000, 200_000, 2)];
    let mut shots = vec![
        enemy_bullet(20, 120_000, 230_000),
        enemy_bullet(21, 120_000, 231_000),
        enemy_bullet(22, 120_000, 232_000),
    ];
    let hits = enemy_bullet_hits_castle(&mut shots, &mut castles);
    assert_eq!(hits.len(), 2);
    assert!(castles.is_empty());
    assert_eq!(shots, vec![enemy_bullet(22, 120_000, 232_000)]);
}

#[test]
fn last_life_goes_and_the_bullet_with_it() {
    let mut shots = vec![enemy_bullet(20, 300_000, 90_000)];
    let ship = Some(player(0, 300_000, 80_000));
    let mut lives = Lives { value: 1 };
    let score = Score { value: 70 };
    let (hits, over) = enemy_bullet_hits_player(&mut shots, &ship, &mut lives, &score);
    assert_eq!(hits, vec![Hit { shot: 20, target: 0, destroyed: false }]);
    assert!(shots.is_empty());
    assert_eq!(lives.value, 0);
    assert_eq!(over, Some(GameOver { score: 70, won: false }));
}

#[test]
fn a_hit_with_lives_to_spare_costs_one() {
    let mut shots = vec![enemy_bullet(20, 300_000, 90_000), enemy_bullet(21, 0, 700_000)];
    let ship = Some(player(0, 300_000, 80_000));
    let mut lives = Lives { value: 4 };
    let score = Score { value: 0 };
    let (hits, over) = enemy_bullet_hits_player(&mut shots, &ship, &mut lives, &score);
    assert_eq!(hits.len(), 1);
    assert_eq!(shots, vec![enemy_bullet(21, 0, 700_000)]);
    assert_eq!(lives.value, 3);
    assert_eq!(over, None);
}

#[test]
fn lives_do_not_go_below_zero() {
    let mut shots = vec![
        enemy_bullet(20, 300_000, 90_000),
        enemy_bullet(21, 300_000, 91_000),
        enemy_bullet(22, 300_000, 92_000),
    ];
    let ship = Some(player(0, 300_000, 80_000));
    let mut lives = Lives { value: 2 };
    let score = Score { value: 5 };
    let (hits, over) = enemy_bullet_hits_player(&mut shots, &ship, &mut lives, &score);
    assert_eq!(hits.len(), 3);
    assert!(shots.is_empty());
    assert_eq!(lives.value, 0);
    assert_eq!(over, Some(GameOver { score: 5, won: false }));
    let mut more = vec![enemy_bullet(23, 300_000, 90_000)];
    let (hits, again) = enemy_bullet_hits_player(&mut more, &ship, &mut lives, &score);
    assert_eq!(hits.len(), 1);
    assert_eq!(lives.value, 0);
    assert_eq!(again, None);
}

#[test]
fn without_a_player_enemy_bullets_fly_on() {
    let mut shots = vec![enemy_bullet(20, 300_000, 90_000)];
    let mut lives = Lives { value: 3 };
    let score = Score { value: 0 };
    let (hits, over) = enemy_bullet_hits_player(&mut shots, &None, &mut lives, &score);
    assert!(hits.is_empty());
    assert_eq!(shots.len(), 1);
    assert_eq!(lives.value, 3);
    assert_eq!(over, None);
}

#[test]
fn first_hit_is_the_lowest_index() {
    let shot = bullet(7, 100_000, 500_000);
    let targets =
        vec![enemy(1, 400_000, 500_000), enemy(2, 100_000, 505_000), enemy(3, 100_000, 500_000)];
    assert_eq!(find_first_hit(&shot, &targets), Some(1));
    let far = bullet(8, 0, 0);
    assert_eq!(find_first_hit(&far, &targets), None);
}
