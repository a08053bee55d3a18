use space_invaders::components::Enemy;
use space_invaders::formation::{enemy_movements, update_enemy_info, DOWN_AMOUNT};
use space_invaders::geometry::{BoundingBox, Bounds, Position};
use space_invaders::resources::{Direction, EnemyInfo, EnemyStage};

fn enemy_at(id: u64, x: i64, y: i64) -> Enemy {
    Enemy {
        id,
        position: Position::new(x, y),
        bounding_box: BoundingBox::new(16_000, 16_000),
        level: 1,
        is_dead: false,
    }
}

fn screen() -> Bounds {
    Bounds::new(600_000, 800_000)
}

fn stage_after(stage: EnemyStage, enemies: &Vec<Enemy>) -> EnemyStage {
    let mut info = EnemyInfo { stage };
    update_enemy_info(enemies, &mut info, screen());
    info.stage
}

#[test]
fn right_wall_high_up_starts_a_descent_to_the_left() {
    let enemies = vec![enemy_at(1, 590_000, 700_000)];
    let next = stage_after(EnemyStage::Marching(Direction::Right), &enemies);
    assert_eq!(next, EnemyStage::Descending(25, Direction::Left));
    assert_eq!(DOWN_AMOUNT, 25);
}

#[test]
fn right_wall_at_stand_still_turns_in_place() {
    // The stand-still line is at 200 + 16 + 70 pixels.
    let enemies = vec![enemy_at(1, 590_000, 286_000), enemy_at(2, 300_000, 400_000)];
    let next = stage_after(EnemyStage::Marching(Direction::Right), &enemies);
    assert_eq!(next, EnemyStage::Marching(Direction::Left));
}

#[test]
fn just_above_stand_still_still_descends() {
    let enemies = vec![enemy_at(1, 590_000, 286_001)];
    let next = stage_after(EnemyStage::Marching(Direction::Right), &enemies);
    assert_eq!(next, EnemyStage::Descending(25, Direction::Left));
}

#[test]
fn left_wall_starts_a_descent_to_the_right() {
    let enemies = vec![enemy_at(1, 16_500, 700_000)];
    let next = stage_after(EnemyStage::Marching(Direction::Left), &enemies);
    assert_eq!(next, EnemyStage::Descending(25, Direction::Right));
}

#[test]
fn wall_margin_is_half_a_pixel() {
    let short = vec![enemy_at(1, 583_499, 700_000)];
    assert_eq!(
        stage_after(EnemyStage::Marching(Direction::Right), &short),
        EnemyStage::Marching(Direction::Right)
    );
    let there = vec![enemy_at(1, 583_500, 700_000)];
    assert_eq!(
        stage_after(EnemyStage::Marching(Direction::Right), &there),
        EnemyStage::Descending(25, Direction::Left)
    );
}

#[test]
fn the_wall_behind_does_not_turn_the_formation() {
    let enemies = vec![enemy_at(1, 16_000, 700_000)];
    let next = stage_after(EnemyStage::Marching(Direction::Right), &enemies);
    assert_eq!(next, EnemyStage::Marching(Direction::Right));
}

#[test]
fn dead_enemies_reach_no_wall() {
    let mut ghost = enemy_at(1, 590_000, 700_000);
    ghost.is_dead = true;
    let enemies = vec![ghost, enemy_at(2, 300_000, 700_000)];
    let next = stage_after(EnemyStage::Marching(Direction::Right), &enemies);
    assert_eq!(next, EnemyStage::Marching(Direction::Right));
}

#[test]
fn empty_formation_keeps_its_stage() {
    let enemies: Vec<Enemy> = Vec::new();
    assert_eq!(
        stage_after(EnemyStage::Marching(Direction::Right), &enemies),
        EnemyStage::Marching(Direction::Right)
    );
    assert_eq!(
        stage_after(EnemyStage::Marching(Direction::Left), &enemies),
        EnemyStage::Marching(Direction::Left)
    );
    assert_eq!(
        stage_after(EnemyStage::Descending(7, Direction::Left), &enemies),
        EnemyStage::Descending(7, Direction::Left)
    );
}

#[test]
fn descent_counts_down_and_resumes_the_march() {
    let enemies = vec![enemy_at(1, 590_000, 700_000)];
    let mut info = EnemyInfo { stage: EnemyStage::Descending(25, Direction::Left) };
    for left in (1..25usize).rev() {
        update_enemy_info(&enemies, &mut info, screen());
        assert_eq!(info.stage, EnemyStage::Descending(left, Direction::Left));
    }
    update_enemy_info(&enemies, &mut info, screen());
    assert_eq!(info.stage, EnemyStage::Marching(Direction::Left));
}

#[test]
fn descent_with_no_step_left_resolves_to_a_march() {
    let enemies = vec![enemy_at(1, 590_000, 700_000)];
    assert_eq!(
        stage_after(EnemyStage::Descending(0, Direction::Right), &enemies),
        EnemyStage::Marching(Direction::Right)
    );
}

#[test]
fn marching_moves_fifty_pixels_a_second() {
    let mut enemies = vec![enemy_at(1, 100_000, 700_000), enemy_at(2, 200_000, 650_000)];
    enemy_movements(&mut enemies, EnemyStage::Marching(Direction::Right), 20);
    assert_eq!(enemies[0].position, Position::new(101_000, 700_000));
    assert_eq!(enemies[1].position, Position::new(201_000, 650_000));
    enemy_movements(&mut enemies, EnemyStage::Marching(Direction::Left), 40);
    assert_eq!(enemies[0].position, Position::new(99_000, 700_000));
    enemy_movements(&mut enemies, EnemyStage::Descending(3, Direction::Left), 10);
    assert_eq!(enemies[0].position, Position::new(99_000, 699_500));
    assert_eq!(enemies[1].position, Position::new(199_000, 649_500));
    assert_eq!(enemies[0].id, 1);
}

#[test]
fn motion_stops_at_the_end_of_the_coordinate_range() {
    let mut enemies = vec![enemy_at(1, i64::MAX - 10, i64::MIN + 10)];
    enemy_movements(&mut enemies, EnemyStage::Marching(Direction::Right), 1000);
    assert_eq!(enemies[0].position.x, i64::MAX);
    enemy_movements(&mut enemies, EnemyStage::Descending(1, Direction::Right), 1000);
    assert_eq!(enemies[0].position.y, i64::MIN);
}
