//! The transitions of the game's phase.
//!
//! Every transition is guarded by the phase it leaves, so a condition that
//! holds for many ticks takes effect once.

use vstd::prelude::*;
use crate::components::{idents, idents_of, Castle, Enemy, Player};
use crate::dice::Dice;
use crate::events::{GameOver, GameStartRequested};
use crate::resources::{Game, HighScore, Lives, LoadingFlags, Score, NUMBER_OF_LIVES};

verus! {

/// Number of sound effects to choose from when an enemy is hit.
pub const HIT_SOUNDS: usize = 8;

/// Whether a confirm press starts a game in phase `game`.
pub open spec fn starts(confirm: bool, game: Game) -> bool {
    confirm && (game == Game::Intro || game == Game::Ended)
}

/// Whether a game in phase `game` is won: it is running and no enemy is left.
pub open spec fn is_won(game: Game, enemies: nat) -> bool {
    game == Game::Playing && enemies == 0
}

/// The best score after a game that ended on `score`: only a game won
/// counts.
pub open spec fn best_score(high_score: u32, score: u32, won: bool) -> u32 {
    if won && score > high_score {
        score
    } else {
        high_score
    }
}

/// The identifiers of what leaves when the game is over: the player, then
/// the castles, then the enemies.
pub open spec fn swept(player: Option<Player>, castles: Seq<Castle>, enemies: Seq<Enemy>) -> Seq<
    u64,
> {
    (match player {
        Some(p) => seq![p.id],
        None => Seq::empty(),
    }) + idents_of(castles) + idents_of(enemies)
}

/// Takes a confirm press: from the intro or from a game that has ended it
/// moves the game to loading and asks for a new game. In any other phase the
/// press does nothing.
pub fn start_game(confirm: bool, game: &mut Game) -> (request: Option<GameStartRequested>)
    ensures
        starts(confirm, *old(game)) ==> *final(game) == Game::Loading && request == Some(
            GameStartRequested {  },
        ),
        !starts(confirm, *old(game)) ==> *final(game) == *old(game) && request is None,
{
    if confirm && (*game == Game::Intro || *game == Game::Ended) {
        *game = Game::Loading;
        Some(GameStartRequested {  })
    } else {
        None
    }
}

/// Gives the player the lives that a game starts with.
pub fn reset_lives(lives: &mut Lives)
    ensures
        final(lives).value == NUMBER_OF_LIVES,
{
    lives.value = NUMBER_OF_LIVES;
}

/// Moves a loading game to playing once all three spawners have finished,
/// and clears their flags. Returns whether it did.
pub fn game_loaded(loading_flags: &mut LoadingFlags, game: &mut Game) -> (loaded: bool)
    ensures
        loaded == (*old(game) == Game::Loading && old(loading_flags).complete()),
        loaded ==> *final(game) == Game::Playing && *final(loading_flags)
            == LoadingFlags::cleared(),
        !loaded ==> *final(game) == *old(game) && *final(loading_flags) == *old(loading_flags),
{
    if *game != Game::Loading {
        return false;
    }
    if loading_flags.enemies && loading_flags.castles && loading_flags.player {
        *game = Game::Playing;
        loading_flags.enemies = false;
        loading_flags.player = false;
        loading_flags.castles = false;
        true
    } else {
        false
    }
}

/// The win check: a running game with no enemy left has ended, won. In any
/// other phase, and while enemies are left, nothing happens and nothing is
/// announced.
pub fn detect_game_won(enemies: &Vec<Enemy>, score: &Score, game: &mut Game) -> (over: Option<
    GameOver,
>)
    ensures
        is_won(*old(game), enemies@.len()) ==> *final(game) == Game::Ended && over == Some(
            GameOver { score: score.value, won: true },
        ),
        !is_won(*old(game), enemies@.len()) ==> *final(game) == *old(game) && over is None,
{
    if *game != Game::Playing {
        return None;
    }
    if enemies.len() == 0 {
        *game = Game::Ended;
        Some(GameOver { won: true, score: score.value })
    } else {
        None
    }
}

/// Once a win check has ended the game, a further check announces nothing:
/// whatever is left of the enemies, an ended game is not won again.
pub proof fn lemma_win_announced_once(enemies: nat)
    ensures
        !is_won(Game::Ended, enemies),
{
}

/// Ends the game on a game-over notice: the phase is `Ended`, a game won
/// with a score above the best one sets a new best, and the player, the
/// castles and the enemies leave. Returns the identifiers of what left.
pub fn handle_game_over(
    event: GameOver,
    game: &mut Game,
    high_score: &mut HighScore,
    player: &mut Option<Player>,
    castles: &mut Vec<Castle>,
    enemies: &mut Vec<Enemy>,
) -> (gone: Vec<u64>)
    ensures
        *final(game) == Game::Ended,
        final(high_score).value == best_score(old(high_score).value, event.score, event.won),
        *final(player) is None,
        final(castles)@ == Seq::<Castle>::empty(),
        final(enemies)@ == Seq::<Enemy>::empty(),
        gone@ == swept(*old(player), old(castles)@, old(enemies)@),
{
    *game = Game::Ended;
    if event.won {
        if event.score > high_score.value {
            high_score.value = event.score;
        }
    }
    let mut gone: Vec<u64> = Vec::new();
    match *player {
        Some(p) => {
            gone.push(p.id);
        },
        None => {},
    }
    let mut castle_ids = idents(castles);
    gone.append(&mut castle_ids);
    let mut enemy_ids = idents(enemies);
    gone.append(&mut enemy_ids);
    *player = None;
    castles.clear();
    enemies.clear();
    gone
}

/// Chooses the sound effect for an enemy that was hit: one of
/// [`HIT_SOUNDS`], whatever the dice give.
pub fn call_random_hit_sound(dice: &mut Dice) -> (sound: usize)
    ensures
        sound < HIT_SOUNDS,
{
    match dice.pick(HIT_SOUNDS) {
        Some(sound) => sound,
        None => 0,
    }
}

} // verus!
