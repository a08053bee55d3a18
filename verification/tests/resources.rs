use space_invaders::dice::Dice;
use space_invaders::events::{GameOver, GameStartRequested};
use space_invaders::components::{idents, Castle, Enemy, Player};
use space_invaders::geometry::{BoundingBox, Bounds, Position};
use space_invaders::world::Registry;
use space_invaders::phase::{
    call_random_hit_sound, detect_game_won, game_loaded, handle_game_over, reset_lives, start_game,
    HIT_SOUNDS,
};
use space_invaders::resources::{
    Direction, EnemyCatalog, EnemyInfo, EnemyStage, Game, HighScore, Lives, LoadingFlags, Score,
    NUMBER_OF_LIVES,
};

fn enemy(id: u64) -> Enemy {
    Enemy {
        id,
        position: Position::new(0, 0),
        bounding_box: BoundingBox::new(16_000, 16_000),
        level: 1,
        is_dead: false,
    }
}

#[test]
fn resources_start_as_a_session_starts() {
    assert_eq!(Game::default(), Game::Intro);
    assert_eq!(Score::default().value, 0);
    assert_eq!(HighScore::default().value, 0);
    assert_eq!(Lives::default().value, 4);
    assert_eq!(NUMBER_OF_LIVES, 4);
    assert_eq!(
        LoadingFlags::default(),
        LoadingFlags { player: false, enemies: false, castles: false }
    );
    assert_eq!(EnemyInfo::default().stage, EnemyStage::Marching(Direction::Right));
}

#[test]
fn directions_reverse() {
    assert_eq!(Direction::Left.reversed(), Direction::Right);
    assert_eq!(Direction::Right.reversed(), Direction::Left);
}

#[test]
fn catalog_holds_the_eight_names_in_order() {
    let catalog = EnemyCatalog::default();
    assert_eq!(catalog.len(), 8);
    let names: Vec<&str> = (0..8u32).map(|k| catalog.get_enemy(k)).collect();
    assert_eq!(names, vec!["daan", "erhan", "frank", "hus", "jeroen", "kas", "ryan", "storm"]);
}

#[test]
fn rolls_go_round_the_catalog() {
    let catalog = EnemyCatalog::default();
    assert_eq!(catalog.get_enemy(8), "daan");
    assert_eq!(catalog.get_enemy(9), "erhan");
    assert_eq!(catalog.get_enemy(u32::MAX), "storm");
}

#[test]
fn random_enemy_is_one_of_the_catalog() {
    let catalog = EnemyCatalog::default();
    let names = ["daan", "erhan", "frank", "hus", "jeroen", "kas", "ryan", "storm"];
    let mut dice = Dice::seeded(1);
    let mut seen = Vec::new();
    for _ in 0..200 {
        let name = catalog.get_random_enemy(&mut dice);
        assert!(names.contains(&name));
        if !seen.contains(&name) {
            seen.push(name);
        }
    }
    assert!(seen.len() > 1);
}

#[test]
fn hit_sound_is_one_of_eight() {
    assert_eq!(HIT_SOUNDS, 8);
    let mut dice = Dice::seeded(3);
    let mut seen = [false; 8];
    for _ in 0..400 {
        let sound = call_random_hit_sound(&mut dice);
        assert!(sound < 8);
        seen[sound] = true;
    }
    assert!(seen.iter().filter(|s| **s).count() > 1);
}

#[test]
fn dice_pick_stays_below_the_count() {
    let mut dice = Dice::seeded(11);
    assert_eq!(dice.pick(0), None);
    assert_eq!(dice.pick(1), Some(0));
    for count in 1..40usize {
        let pick = dice.pick(count);
        assert!(matches!(pick, Some(i) if i < count));
    }
}

#[test]
fn dice_give_as_many_rolls_as_asked() {
    let mut dice = Dice::seeded(5);
    assert_eq!(dice.rolls(0).len(), 0);
    assert_eq!(dice.rolls(17).len(), 17);
}

#[test]
fn equal_seeds_give_equal_rolls() {
    let mut a = Dice::seeded(99);
    let mut b = Dice::seeded(99);
    assert_eq!(a.rolls(32), b.rolls(32));
    assert_eq!(a.roll(), b.roll());
}

#[test]
fn confirm_starts_a_game_from_intro_and_from_ended() {
    let mut game = Game::Intro;
    assert_eq!(start_game(true, &mut game), Some(GameStartRequested {}));
    assert_eq!(game, Game::Loading);
    let mut game = Game::Ended;
    assert_eq!(start_game(true, &mut game), Some(GameStartRequested {}));
    assert_eq!(game, Game::Loading);
}

#[test]
fn confirm_does_nothing_while_loading_or_playing() {
    let mut game = Game::Loading;
    assert_eq!(start_game(true, &mut game), None);
    assert_eq!(game, Game::Loading);
    let mut game = Game::Playing;
    assert_eq!(start_game(true, &mut game), None);
    assert_eq!(game, Game::Playing);
    let mut game = Game::Intro;
    assert_eq!(start_game(false, &mut game), None);
    assert_eq!(game, Game::Intro);
}

#[test]
fn lives_are_reset_to_four() {
    let mut lives = Lives { value: 0 };
    reset_lives(&mut lives);
    assert_eq!(lives.value, 4);
}

#[test]
fn game_is_loaded_once_all_flags_are_set() {
    let mut flags = LoadingFlags { player: true, enemies: true, castles: false };
    let mut game = Game::Loading;
    assert!(!game_loaded(&mut flags, &mut game));
    assert_eq!(game, Game::Loading);
    assert_eq!(flags, LoadingFlags { player: true, enemies: true, castles: false });
    flags.castles = true;
    assert!(game_loaded(&mut flags, &mut game));
    assert_eq!(game, Game::Playing);
    assert_eq!(flags, LoadingFlags { player: false, enemies: false, castles: false });
}

#[test]
fn flags_matter_only_while_loading() {
    let mut flags = LoadingFlags { player: true, enemies: true, castles: true };
    let mut game = Game::Intro;
    assert!(!game_loaded(&mut flags, &mut game));
    assert_eq!(game, Game::Intro);
    assert_eq!(flags, LoadingFlags { player: true, enemies: true, castles: true });
}

#[test]
fn empty_enemy_set_wins_a_running_game() {
    let enemies: Vec<Enemy> = Vec::new();
    let score = Score { value: 30 };
    let mut game = Game::Playing;
    assert_eq!(detect_game_won(&enemies, &score, &mut game), Some(GameOver { score: 30, won: true }));
    assert_eq!(game, Game::Ended);
}

#[test]
fn win_check_on_an_ended_game_announces_nothing() {
    let enemies: Vec<Enemy> = Vec::new();
    let score = Score { value: 30 };
    let mut game = Game::Playing;
    assert!(detect_game_won(&enemies, &score, &mut game).is_some());
    assert_eq!(detect_game_won(&enemies, &score, &mut game), None);
    assert_eq!(detect_game_won(&enemies, &score, &mut game), None);
    assert_eq!(game, Game::Ended);
}

#[test]
fn win_check_with_enemies_left_changes_nothing() {
    let enemies = vec![enemy(1)];
    let score = Score { value: 0 };
    let mut game = Game::Playing;
    assert_eq!(detect_game_won(&enemies, &score, &mut game), None);
    assert_eq!(game, Game::Playing);
    let none: Vec<Enemy> = Vec::new();
    let mut game = Game::Loading;
    assert_eq!(detect_game_won(&none, &score, &mut game), None);
    assert_eq!(game, Game::Loading);
}

#[test]
fn game_over_clears_the_field_and_keeps_the_best_score() {
    let mut game = Game::Playing;
    let mut high = HighScore { value: 10 };
    let mut player = Some(Player {
        id: 0,
        position: Position::new(0, 0),
        bounding_box: BoundingBox::new(32_000, 32_000),
    });
    let mut castles = vec![Castle {
        id: 2,
        position: Position::new(0, 0),
        bounding_box: BoundingBox::new(15_000, 35_000),
        hitpoints: 1,
    }];
    let mut enemies = vec![enemy(7), enemy(9)];
    let gone = handle_game_over(
        GameOver { score: 25, won: true },
        &mut game,
        &mut high,
        &mut player,
        &mut castles,
        &mut enemies,
    );
    assert_eq!(game, Game::Ended);
    assert_eq!(high.value, 25);
    assert_eq!(gone, vec![0, 2, 7, 9]);
    assert!(player.is_none());
    assert!(castles.is_empty());
    assert!(enemies.is_empty());
}

#[test]
fn a_lost_game_sets_no_high_score() {
    let mut game = Game::Playing;
    let mut high = HighScore { value: 10 };
    let mut player = None;
    let mut castles: Vec<Castle> = Vec::new();
    let mut enemies = vec![enemy(7)];
    let gone = handle_game_over(
        GameOver { score: 25, won: false },
        &mut game,
        &mut high,
        &mut player,
        &mut castles,
        &mut enemies,
    );
    assert_eq!(high.value, 10);
    assert_eq!(gone, vec![7]);
    assert_eq!(game, Game::Ended);
}

#[test]
fn a_win_below_the_best_keeps_the_best() {
    let mut game = Game::Playing;
    let mut high = HighScore { value: 40 };
    let mut player = None;
    let mut castles: Vec<Castle> = Vec::new();
    let mut enemies: Vec<Enemy> = Vec::new();
    handle_game_over(
        GameOver { score: 40, won: true },
        &mut game,
        &mut high,
        &mut player,
        &mut castles,
        &mut enemies,
    );
    assert_eq!(high.value, 40);
}

#[test]
fn identifiers_are_listed_in_order() {
    let enemies = vec![enemy(4), enemy(9), enemy(2)];
    assert_eq!(idents(&enemies), vec![4, 9, 2]);
    let none: Vec<Enemy> = Vec::new();
    assert!(idents(&none).is_empty());
}

#[test]
fn a_new_registry_is_empty_and_a_populated_one_is_numbered_from_zero() {
    let empty = Registry::new();
    assert!(empty.player.is_none() && empty.enemies.is_empty() && empty.castles.is_empty());
    assert!(empty.bullets.is_empty() && empty.enemy_bullets.is_empty());
    assert_eq!(empty.next_id, 0);
    let full = Registry::populate(Bounds::new(600_000, 800_000));
    assert_eq!(full.player.map(|p| p.id), Some(0));
    assert_eq!(full.castles.iter().map(|c| c.id).collect::<Vec<u64>>(), vec![1, 2, 3, 4]);
    assert_eq!(full.enemies.len(), 50);
    assert_eq!(full.enemies[49].id, 54);
    assert_eq!(full.next_id, 55);
}
