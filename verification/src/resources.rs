//! The state that is shared by the whole game: its phase, the counters and
//! the state of the formation.

use vstd::prelude::*;
use vstd::string::*;
use crate::dice::Dice;

verus! {

/// Lives at the start of a game.
pub const NUMBER_OF_LIVES: u32 = 4;

/// The top-level phase of the game.
#[derive(Clone, Copy, Debug, PartialEq, Eq, Structural)]
pub enum Game {
    Intro,
    Loading,
    Playing,
    Ended,
}

impl Default for Game {
    fn default() -> (r: Game)
        ensures
            r == Game::Intro,
    {
        Game::Intro
    }
}

/// The score of the game that is running. It is carried into the game-over
/// notice and into the high score; no rule of the game adds to it.
#[derive(Clone, Copy, Debug, PartialEq, Eq, Structural)]
pub struct Score {
    pub value: u32,
}

impl Default for Score {
    fn default() -> (r: Score)
        ensures
            r.value == 0,
    {
        Score { value: 0 }
    }
}

/// Which spawners have finished populating a new game.
#[derive(Clone, Copy, Debug, PartialEq, Eq, Structural)]
pub struct LoadingFlags {
    pub player: bool,
    pub enemies: bool,
    pub castles: bool,
}

impl LoadingFlags {
    /// Whether all three spawners have finished.
    pub open spec fn complete(&self) -> bool {
        self.player && self.enemies && self.castles
    }

    /// The flags with none set.
    pub open spec fn cleared() -> LoadingFlags {
        LoadingFlags { player: false, enemies: false, castles: false }
    }
}

impl Default for LoadingFlags {
    fn default() -> (r: LoadingFlags)
        ensures
            r == LoadingFlags::cleared(),
    {
        LoadingFlags { castles: false, enemies: false, player: false }
    }
}

/// The best score of the games won in this session.
#[derive(Clone, Copy, Debug, PartialEq, Eq, Structural)]
pub struct HighScore {
    pub value: u32,
}

impl Default for HighScore {
    fn default() -> (r: HighScore)
        ensures
            r.value == 0,
    {
        HighScore { value: 0 }
    }
}

/// The lives the player has left.
#[derive(Clone, Copy, Debug, PartialEq, Eq, Structural)]
pub struct Lives {
    pub value: u32,
}

impl Default for Lives {
    fn default() -> (r: Lives)
        ensures
            r.value == NUMBER_OF_LIVES,
    {
        Lives { value: NUMBER_OF_LIVES }
    }
}

/// A marching direction.
#[derive(Clone, Copy, Debug, PartialEq, Eq, Structural)]
pub enum Direction {
    Left,
    Right,
}

impl Direction {
    /// The other direction.
    pub open spec fn opposite(self) -> Direction {
        match self {
            Direction::Left => Direction::Right,
            Direction::Right => Direction::Left,
        }
    }

    /// The other direction.
    pub fn reversed(self) -> (r: Direction)
        ensures
            r == self.opposite(),
    {
        match self {
            Direction::Left => Direction::Right,
            Direction::Right => Direction::Left,
        }
    }
}

/// The state that the whole formation shares: it marches sideways, or it
/// descends for a number of further steps and then marches on in the
/// direction it carries.
#[derive(Clone, Copy, Debug, PartialEq, Eq, Structural)]
pub enum EnemyStage {
    Marching(Direction),
    Descending(usize, Direction),
}

/// The formation's state, as a resource of the game.
#[derive(Clone, Copy, Debug, PartialEq, Eq, Structural)]
pub struct EnemyInfo {
    pub stage: EnemyStage,
}

impl Default for EnemyInfo {
    fn default() -> (r: EnemyInfo)
        ensures
            r.stage == EnemyStage::Marching(Direction::Right),
    {
        EnemyInfo { stage: EnemyStage::Marching(Direction::Right) }
    }
}

/// The names of the enemy sprites.
pub struct EnemyCatalog {
    enemy_sprites: Vec<String>,
}

/// The names a catalog starts with.
pub open spec fn sprite_names() -> Seq<Seq<char>> {
    seq!["daan"@, "erhan"@, "frank"@, "hus"@, "jeroen"@, "kas"@, "ryan"@, "storm"@]
}

impl EnemyCatalog {
    /// The names in the catalog, in order.
    pub closed spec fn names(&self) -> Seq<Seq<char>> {
        Seq::new(self.enemy_sprites@.len(), |i: int| self.enemy_sprites@[i]@)
    }

    /// The number of names in the catalog.
    pub fn len(&self) -> (n: usize)
        ensures
            n == self.names().len(),
    {
        self.enemy_sprites.len()
    }

    /// The name that a roll selects: the rolls go round the catalog.
    pub fn get_enemy(&self, roll: u32) -> (name: &str)
        requires
            self.names().len() > 0,
        ensures
            name@ == self.names()[(roll as int) % (self.names().len() as int)],
    {
        let idx = roll as usize % self.enemy_sprites.len();
        self.enemy_sprites[idx].as_str()
    }

    /// A name of the catalog, chosen by a roll of `dice`.
    pub fn get_random_enemy(&self, dice: &mut Dice) -> (name: &str)
        requires
            self.names().len() > 0,
        ensures
            exists|i: int| 0 <= i < self.names().len() && name@ == #[trigger] self.names()[i],
    {
        let roll = dice.roll();
        let name = self.get_enemy(roll);
        assert(0 <= (roll as int) % (self.names().len() as int) < self.names().len());
        name
    }
}

impl Default for EnemyCatalog {
    fn default() -> (r: EnemyCatalog)
        ensures
            r.names() == sprite_names(),
    {
        let mut enemy_sprites: Vec<String> = Vec::new();
        enemy_sprites.push(String::from_str("daan"));
        enemy_sprites.push(String::from_str("erhan"));
        enemy_sprites.push(String::from_str("frank"));
        enemy_sprites.push(String::from_str("hus"));
        enemy_sprites.push(String::from_str("jeroen"));
        enemy_sprites.push(String::from_str("kas"));
        enemy_sprites.push(String::from_str("ryan"));
        enemy_sprites.push(String::from_str("storm"));
        let r = EnemyCatalog { enemy_sprites };
        assert(r.names() =~= sprite_names());
        r
    }
}

} // verus!
