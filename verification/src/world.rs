//! The whole simulation and its tick.
//!
//! A tick does the work of the phase that the game is in when the tick
//! begins. While the game is playing the order within a tick is fixed: the
//! player is steered, the formation moves, shots are fired, shots fly and
//! expire, overlaps are resolved, and last the game is checked for its end.
//! What a tick removes is only missed by the ticks after it: the check for a
//! win looks at the enemies that the tick found.

use vstd::prelude::*;
use crate::combat::{
    bullet_hits_castle, bullet_hits_enemy, enemy_bullet_hits_castle, enemy_bullet_hits_player,
    last_life_lost, lives_after, player_targets, volley, Hit,
};
use crate::components::{
    idents, idents_of, Bullet, Castle, Enemy, EnemyBullet, Kind, Player, Solid,
};
use crate::invariants::{
    lemma_tick_keeps_limits, lemma_tick_keeps_order, lemma_tick_shares_nothing, registered,
    unshared, within_limits,
};
use crate::dice::Dice;
use crate::events::{GameOver, GameStartRequested};
use crate::formation::{enemy_movements, marched, next_stage, update_enemy_info};
use crate::geometry::{Bounds, Position};
use crate::movement::{
    bullets_expired, bullets_flown, confine_player_movement, confined, enemy_bullets_expired,
    enemy_bullets_flown, move_bullet, move_enemy_bullet, player_movement, steered,
};
use crate::phase::{
    best_score, detect_game_won, game_loaded, handle_game_over, is_won, reset_lives, start_game,
    swept,
};
use crate::resources::{
    Direction, EnemyInfo, EnemyStage, Game, HighScore, Lives, LoadingFlags, Score,
    NUMBER_OF_LIVES,
};
use crate::spawn::{
    columns, enemy_fire, enemy_shoot_with, grid_columns, lemma_enemy_fire_len, new_bullet,
    new_castles, new_enemies, new_player, spawn_bullet, spawn_castles, spawn_enemies,
    spawn_player, AMOUNT_OF_ROWS, NUMBER_OF_CASTLES,
};

verus! {

/// The input signals of one tick, as they are held during it. The movement
/// signals act for as long as they are held; `fire` and `confirm` act on the
/// tick in which they go from released to held.
#[derive(Clone, Copy, Debug, PartialEq, Eq, Structural)]
pub struct Input {
    pub move_left: bool,
    pub move_right: bool,
    pub fire: bool,
    pub confirm: bool,
}

/// The live entities, kind by kind, and the next free identifier.
pub struct Registry {
    pub player: Option<Player>,
    pub bullets: Vec<Bullet>,
    pub enemy_bullets: Vec<EnemyBullet>,
    pub enemies: Vec<Enemy>,
    pub castles: Vec<Castle>,
    pub next_id: u64,
}

/// A registry as plain values.
pub ghost struct RegistryView {
    pub player: Option<Player>,
    pub bullets: Seq<Bullet>,
    pub enemy_bullets: Seq<EnemyBullet>,
    pub enemies: Seq<Enemy>,
    pub castles: Seq<Castle>,
    pub next_id: u64,
}

impl View for Registry {
    type V = RegistryView;

    open spec fn view(&self) -> RegistryView {
        RegistryView {
            player: self.player,
            bullets: self.bullets@,
            enemy_bullets: self.enemy_bullets@,
            enemies: self.enemies@,
            castles: self.castles@,
            next_id: self.next_id,
        }
    }
}

/// The state of the simulation.
pub struct World {
    pub bounds: Bounds,
    pub game: Game,
    pub score: Score,
    pub high_score: HighScore,
    pub lives: Lives,
    pub loading_flags: LoadingFlags,
    pub enemy_info: EnemyInfo,
    pub registry: Registry,
    /// Whether `fire` was held during the last tick.
    pub fire_held: bool,
    /// Whether `confirm` was held during the last tick.
    pub confirm_held: bool,
}

/// A world as plain values.
pub ghost struct WorldView {
    pub bounds: Bounds,
    pub game: Game,
    pub score: u32,
    pub high_score: u32,
    pub lives: u32,
    pub loading_flags: LoadingFlags,
    pub stage: EnemyStage,
    pub registry: RegistryView,
    pub fire_held: bool,
    pub confirm_held: bool,
}

impl View for World {
    type V = WorldView;

    open spec fn view(&self) -> WorldView {
        WorldView {
            bounds: self.bounds,
            game: self.game,
            score: self.score.value,
            high_score: self.high_score.value,
            lives: self.lives.value,
            loading_flags: self.loading_flags,
            stage: self.enemy_info.stage,
            registry: self.registry@,
            fire_held: self.fire_held,
            confirm_held: self.confirm_held,
        }
    }
}

/// An entity that entered the registry: what it is, what it is registered
/// under and where it entered.
#[derive(Clone, Copy, Debug, PartialEq, Eq, Structural)]
pub struct Spawn {
    pub kind: Kind,
    pub id: u64,
    pub position: Position,
}

/// What one tick did, for whoever presents the game: what to show, what to
/// take away, what to sound and what to announce.
pub struct TickReport {
    /// A new game was asked for.
    pub started: Option<GameStartRequested>,
    /// The game ended in this tick.
    pub game_over: Option<GameOver>,
    /// The player fired a bullet.
    pub player_fired: bool,
    /// The number of bullets that the enemies fired.
    pub enemy_shots: usize,
    /// The entities that entered the registry, where they entered it.
    pub spawned: Vec<Spawn>,
    /// The shots that left the screen.
    pub expired: Vec<u64>,
    /// Player bullets that hit an enemy.
    pub enemy_hits: Vec<Hit>,
    /// Player bullets that a castle stopped.
    pub shielded: Vec<Hit>,
    /// Enemy bullets that hit the player.
    pub player_hits: Vec<Hit>,
    /// Enemy bullets that hit a castle.
    pub castle_hits: Vec<Hit>,
    /// The entities that left because the game ended.
    pub cleared: Vec<u64>,
}

/// A report as plain values.
pub ghost struct ReportView {
    pub started: Option<GameStartRequested>,
    pub game_over: Option<GameOver>,
    pub player_fired: bool,
    pub enemy_shots: nat,
    pub spawned: Seq<Spawn>,
    pub expired: Seq<u64>,
    pub enemy_hits: Seq<Hit>,
    pub shielded: Seq<Hit>,
    pub player_hits: Seq<Hit>,
    pub castle_hits: Seq<Hit>,
    pub cleared: Seq<u64>,
}

impl View for TickReport {
    type V = ReportView;

    open spec fn view(&self) -> ReportView {
        ReportView {
            started: self.started,
            game_over: self.game_over,
            player_fired: self.player_fired,
            enemy_shots: self.enemy_shots as nat,
            spawned: self.spawned@,
            expired: self.expired@,
            enemy_hits: self.enemy_hits@,
            shielded: self.shielded@,
            player_hits: self.player_hits@,
            castle_hits: self.castle_hits@,
            cleared: self.cleared@,
        }
    }
}

/// The report of a tick in which nothing happened.
pub open spec fn quiet() -> ReportView {
    ReportView {
        started: None,
        game_over: None,
        player_fired: false,
        enemy_shots: 0,
        spawned: Seq::empty(),
        expired: Seq::empty(),
        enemy_hits: Seq::empty(),
        shielded: Seq::empty(),
        player_hits: Seq::empty(),
        castle_hits: Seq::empty(),
        cleared: Seq::empty(),
    }
}

/// The entries of `items` as entities of `kind` that enter the registry.
pub open spec fn spawns_of<A: Solid>(items: Seq<A>, kind: Kind) -> Seq<Spawn> {
    Seq::new(
        items.len(),
        |i: int| Spawn { kind, id: items[i].ident(), position: items[i].center() },
    )
}

/// A registry with nothing in it.
pub open spec fn empty_registry() -> RegistryView {
    RegistryView {
        player: None,
        bullets: Seq::empty(),
        enemy_bullets: Seq::empty(),
        enemies: Seq::empty(),
        castles: Seq::empty(),
        next_id: 0,
    }
}

/// The registry of a new game: the player, the castle row and the enemy
/// grid, numbered in that order from 0.
pub open spec fn populated(bounds: Bounds) -> RegistryView {
    RegistryView {
        player: Some(new_player(bounds, 0)),
        bullets: Seq::empty(),
        enemy_bullets: Seq::empty(),
        enemies: new_enemies(bounds, (1 + NUMBER_OF_CASTLES) as u64),
        castles: new_castles(bounds, 1),
        next_id: (1 + NUMBER_OF_CASTLES + AMOUNT_OF_ROWS * columns(bounds)) as u64,
    }
}

/// What enters the registry when a new game is populated: the player, the
/// castles and the enemies.
pub open spec fn population(bounds: Bounds) -> Seq<Spawn> {
    spawns_of(player_targets(populated(bounds).player), Kind::Player) + spawns_of(
        populated(bounds).castles,
        Kind::Castle,
    ) + spawns_of(populated(bounds).enemies, Kind::Enemy)
}

/// The world at the start of a session.
pub open spec fn initial(bounds: Bounds) -> WorldView {
    WorldView {
        bounds,
        game: Game::Intro,
        score: 0,
        high_score: 0,
        lives: NUMBER_OF_LIVES,
        loading_flags: LoadingFlags::cleared(),
        stage: EnemyStage::Marching(Direction::Right),
        registry: empty_registry(),
        fire_held: false,
        confirm_held: false,
    }
}

/// The world after a confirm press started a new game: it is loading, with
/// full lives, no flag set and no entity left.
pub open spec fn restarted(w: WorldView) -> WorldView {
    WorldView {
        game: Game::Loading,
        lives: NUMBER_OF_LIVES,
        loading_flags: LoadingFlags::cleared(),
        registry: empty_registry(),
        ..w
    }
}

/// The world after the tick that loads a new game: the registry is
/// populated and the game is playing.
pub open spec fn loaded(w: WorldView) -> WorldView {
    WorldView {
        game: Game::Playing,
        loading_flags: LoadingFlags::cleared(),
        registry: populated(w.bounds),
        ..w
    }
}

/// Whether the registry has identifiers left for all that one tick can
/// fire: a bullet of the player and one of every enemy.
pub open spec fn has_room(r: RegistryView) -> bool {
    r.next_id + r.enemies.len() + 1 <= u64::MAX
}

/// The registry after the player was steered and kept inside the screen.
pub open spec fn after_steering(
    r: RegistryView,
    input: Input,
    dt_ms: u32,
    bounds: Bounds,
) -> RegistryView {
    RegistryView {
        player: match r.player {
            Some(p) => Some(confined(steered(p, input.move_left, input.move_right, dt_ms), bounds)),
            None => None,
        },
        ..r
    }
}

/// Whether the player fires: on a fresh press, with a ship to fire from and
/// an identifier to give.
pub open spec fn player_fires(r: RegistryView, fire: bool) -> bool {
    fire && r.player is Some && has_room(r)
}

/// The registry after the shots of this tick were fired: first the
/// player's, then those of the enemies on their rolls.
pub open spec fn after_fire(
    r: RegistryView,
    fire: bool,
    rolls: Seq<u32>,
    bounds: Bounds,
) -> RegistryView {
    if !has_room(r) {
        r
    } else {
        let first = if player_fires(r, fire) {
            (r.next_id + 1) as u64
        } else {
            r.next_id
        };
        let shots = enemy_fire(r.enemies, rolls, bounds, first);
        RegistryView {
            bullets: if player_fires(r, fire) {
                r.bullets.push(new_bullet(r.player->0, r.next_id))
            } else {
                r.bullets
            },
            enemy_bullets: r.enemy_bullets + shots,
            next_id: (first + shots.len()) as u64,
            ..r
        }
    }
}

/// The number of bullets that the enemies fire in a tick.
pub open spec fn enemy_shots(r: RegistryView, fire: bool, rolls: Seq<u32>, bounds: Bounds) -> nat {
    (after_fire(r, fire, rolls, bounds).enemy_bullets.len() - r.enemy_bullets.len()) as nat
}

/// The registry after the shots flew and those off screen expired.
pub open spec fn after_flight(r: RegistryView, dt_ms: u32, bounds: Bounds) -> RegistryView {
    RegistryView {
        bullets: bullets_flown(r.bullets, dt_ms, bounds),
        enemy_bullets: enemy_bullets_flown(r.enemy_bullets, dt_ms),
        ..r
    }
}

/// The registry after the overlaps were resolved: player bullets against
/// enemies, what is left of them against castles, enemy bullets against the
/// player, what is left of them against castles.
pub open spec fn after_combat(r: RegistryView) -> RegistryView {
    let on_enemies = volley(r.bullets, r.enemies, true);
    let on_shelter = volley(on_enemies.survivors, r.castles, false);
    let on_player = volley(r.enemy_bullets, player_targets(r.player), false);
    let on_castles = volley(on_player.survivors, r.castles, true);
    RegistryView {
        bullets: on_shelter.survivors,
        enemies: on_enemies.targets,
        enemy_bullets: on_castles.survivors,
        castles: on_castles.targets,
        ..r
    }
}

/// The enemy bullets that hit the player among the overlaps of a tick.
pub open spec fn hits_on_player(r: RegistryView) -> Seq<Hit> {
    volley(r.enemy_bullets, player_targets(r.player), false).hits
}

/// The registry before the overlaps of a playing tick are resolved.
pub open spec fn before_combat(
    w: WorldView,
    input: Input,
    fire: bool,
    dt_ms: u32,
    rolls: Seq<u32>,
) -> RegistryView {
    let steered = after_steering(w.registry, input, dt_ms, w.bounds);
    let moved = RegistryView { enemies: marched(steered.enemies, w.stage, dt_ms), ..steered };
    after_flight(after_fire(moved, fire, rolls, w.bounds), dt_ms, w.bounds)
}

/// How a playing tick ends the game, if it does: lost when the last life
/// went in it, else won when it found no enemy left. An enemy that falls in
/// a tick is still counted in that tick, so a game is won on the tick after
/// its last enemy fell.
pub open spec fn verdict(
    lives_before: u32,
    lives_after: u32,
    enemies: Seq<Enemy>,
    score: u32,
) -> Option<GameOver> {
    match last_life_lost(lives_before, lives_after, score) {
        Some(lost) => Some(lost),
        None => if is_won(Game::Playing, enemies.len()) {
            Some(GameOver { score, won: true })
        } else {
            None
        },
    }
}

/// The world after a tick of a playing game.
pub open spec fn played(
    w: WorldView,
    input: Input,
    fire: bool,
    dt_ms: u32,
    rolls: Seq<u32>,
) -> WorldView {
    let marching = marched(w.registry.enemies, w.stage, dt_ms);
    let ready = before_combat(w, input, fire, dt_ms, rolls);
    let fought = after_combat(ready);
    let lives = lives_after(w.lives, hits_on_player(ready).len());
    let running = WorldView {
        stage: next_stage(w.stage, marching, w.bounds),
        lives,
        registry: fought,
        ..w
    };
    match verdict(w.lives, lives, w.registry.enemies, w.score) {
        None => running,
        Some(over) => WorldView {
            game: Game::Ended,
            high_score: best_score(w.high_score, over.score, over.won),
            registry: RegistryView { next_id: fought.next_id, ..empty_registry() },
            ..running
        },
    }
}

/// The report of a tick of a playing game.
pub open spec fn played_report(
    w: WorldView,
    input: Input,
    fire: bool,
    dt_ms: u32,
    rolls: Seq<u32>,
) -> ReportView {
    let steered = after_steering(w.registry, input, dt_ms, w.bounds);
    let moved = RegistryView { enemies: marched(steered.enemies, w.stage, dt_ms), ..steered };
    let fired = after_fire(moved, fire, rolls, w.bounds);
    let ready = after_flight(fired, dt_ms, w.bounds);
    let fought = after_combat(ready);
    let on_enemies = volley(ready.bullets, ready.enemies, true);
    let on_player = volley(ready.enemy_bullets, player_targets(ready.player), false);
    let lives = lives_after(w.lives, on_player.hits.len());
    let over = verdict(w.lives, lives, w.registry.enemies, w.score);
    ReportView {
        started: None,
        game_over: over,
        player_fired: player_fires(moved, fire),
        enemy_shots: enemy_shots(moved, fire, rolls, w.bounds),
        spawned: spawns_of(fired.bullets.skip(moved.bullets.len() as int), Kind::Bullet)
            + spawns_of(
            fired.enemy_bullets.skip(moved.enemy_bullets.len() as int),
            Kind::EnemyBullet,
        ),
        expired: bullets_expired(fired.bullets, dt_ms, w.bounds) + enemy_bullets_expired(
            fired.enemy_bullets,
            dt_ms,
        ),
        enemy_hits: on_enemies.hits,
        shielded: volley(on_enemies.survivors, ready.castles, false).hits,
        player_hits: on_player.hits,
        castle_hits: volley(on_player.survivors, ready.castles, true).hits,
        cleared: if over is Some {
            swept(fought.player, fought.castles, fought.enemies) + idents_of(fought.bullets)
                + idents_of(fought.enemy_bullets)
        } else {
            Seq::empty()
        },
    }
}

/// Whether `input` presses `fire` afresh.
pub open spec fn fire_pressed(w: WorldView, input: Input) -> bool {
    input.fire && !w.fire_held
}

/// Whether `input` presses `confirm` afresh.
pub open spec fn confirm_pressed(w: WorldView, input: Input) -> bool {
    input.confirm && !w.confirm_held
}

/// The world with the held signals of `input` remembered.
pub open spec fn listening(w: WorldView, input: Input) -> WorldView {
    WorldView { fire_held: input.fire, confirm_held: input.confirm, ..w }
}

/// The world after one tick.
pub open spec fn ticked(w: WorldView, input: Input, dt_ms: u32, rolls: Seq<u32>) -> WorldView {
    let heard = listening(w, input);
    match w.game {
        Game::Intro | Game::Ended => if confirm_pressed(w, input) {
            restarted(heard)
        } else {
            heard
        },
        Game::Loading => loaded(heard),
        Game::Playing => played(heard, input, fire_pressed(w, input), dt_ms, rolls),
    }
}

/// The report of one tick.
pub open spec fn reported(w: WorldView, input: Input, dt_ms: u32, rolls: Seq<u32>) -> ReportView {
    match w.game {
        Game::Intro | Game::Ended => if confirm_pressed(w, input) {
            ReportView { started: Some(GameStartRequested {  }), ..quiet() }
        } else {
            quiet()
        },
        Game::Loading => ReportView { spawned: population(w.bounds), ..quiet() },
        Game::Playing => played_report(
            listening(w, input),
            input,
            fire_pressed(w, input),
            dt_ms,
            rolls,
        ),
    }
}

/// Lists the entries of `items` from index `from` on as entities of `kind`
/// that have entered the registry.
pub fn spawns<A: Solid>(items: &Vec<A>, from: usize, kind: Kind) -> (entered: Vec<Spawn>)
    requires
        from <= items.len(),
    ensures
        entered@ == spawns_of(items@.skip(from as int), kind),
{
    let mut entered: Vec<Spawn> = Vec::new();
    let mut i: usize = from;
    while i < items.len()
        invariant
            from <= i <= items.len(),
            entered@ == spawns_of(items@.subrange(from as int, i as int), kind),
        decreases items.len() - i,
    {
        entered.push(Spawn { kind, id: items[i].id_of(), position: items[i].center_of() });
        assert(entered@ =~= spawns_of(items@.subrange(from as int, i + 1), kind));
        i = i + 1;
    }
    assert(items@.subrange(from as int, i as int) =~= items@.skip(from as int));
    entered
}

impl Registry {
    /// A registry with nothing in it.
    pub fn new() -> (r: Registry)
        ensures
            r@ == empty_registry(),
    {
        Registry {
            player: None,
            bullets: Vec::new(),
            enemy_bullets: Vec::new(),
            enemies: Vec::new(),
            castles: Vec::new(),
            next_id: 0,
        }
    }

    /// The registry of a new game.
    pub fn populate(bounds: Bounds) -> (r: Registry)
        ensures
            r@ == populated(bounds),
    {
        let per_row = grid_columns(bounds);
        let first_enemy: u64 = 1 + NUMBER_OF_CASTLES as u64;
        let player = spawn_player(bounds, 0);
        let castles = spawn_castles(bounds, 1);
        let enemies = spawn_enemies(bounds, first_enemy);
        Registry {
            player: Some(player),
            bullets: Vec::new(),
            enemy_bullets: Vec::new(),
            enemies,
            castles,
            next_id: first_enemy + AMOUNT_OF_ROWS as u64 * per_row as u64,
        }
    }
}

impl World {
    /// The world at the start of a session: the intro is showing and
    /// nothing is registered.
    pub fn new(bounds: Bounds) -> (w: World)
        ensures
            w@ == initial(bounds),
            within_limits(w@),
            registered(w@.registry),
            unshared(w@.registry),
    {
        World {
            bounds,
            game: Game::Intro,
            score: Score { value: 0 },
            high_score: HighScore { value: 0 },
            lives: Lives { value: NUMBER_OF_LIVES },
            loading_flags: LoadingFlags { player: false, enemies: false, castles: false },
            enemy_info: EnemyInfo { stage: EnemyStage::Marching(Direction::Right) },
            registry: Registry::new(),
            fire_held: false,
            confirm_held: false,
        }
    }

    /// Populates the registry for a new game and, with all three spawners
    /// done, moves the game from loading to playing.
    fn load(&mut self) -> (entered: Vec<Spawn>)
        requires
            old(self).game == Game::Loading,
        ensures
            final(self)@ == loaded(old(self)@),
            entered@ == population(old(self).bounds),
    {
        self.registry = Registry::populate(self.bounds);
        self.loading_flags = LoadingFlags { player: true, enemies: true, castles: true };
        game_loaded(&mut self.loading_flags, &mut self.game);
        let mut ship: Vec<Player> = Vec::new();
        match self.registry.player {
            Some(p) => {
                ship.push(p);
            },
            None => {},
        }
        assert(ship@ =~= player_targets(self.registry.player));
        assert(ship@.skip(0) =~= ship@);
        assert(self.registry.castles@.skip(0) =~= self.registry.castles@);
        assert(self.registry.enemies@.skip(0) =~= self.registry.enemies@);
        let mut entered = spawns(&ship, 0, Kind::Player);
        let mut castles = spawns(&self.registry.castles, 0, Kind::Castle);
        let mut enemies = spawns(&self.registry.enemies, 0, Kind::Enemy);
        entered.append(&mut castles);
        entered.append(&mut enemies);
        entered
    }

    /// One tick of a playing game, the enemies firing on `rolls`.
    fn play(&mut self, input: Input, fire: bool, dt_ms: u32, rolls: &Vec<u32>) -> (report:
        TickReport)
        requires
            old(self).game == Game::Playing,
        ensures
            final(self)@ == played(old(self)@, input, fire, dt_ms, rolls@),
            report@ == played_report(old(self)@, input, fire, dt_ms, rolls@),
    {
        let bounds = self.bounds;
        let mut phase = self.game;
        let won = detect_game_won(&self.registry.enemies, &self.score, &mut phase);
        match self.registry.player {
            Some(p) => {
                let mut ship = p;
                player_movement(&mut ship, input.move_left, input.move_right, dt_ms);
                confine_player_movement(&mut ship, bounds);
                self.registry.player = Some(ship);
            },
            None => {},
        }
        enemy_movements(&mut self.registry.enemies, self.enemy_info.stage, dt_ms);
        update_enemy_info(&self.registry.enemies, &mut self.enemy_info, bounds);
        let ghost moved = self.registry@;
        let bullets_before = self.registry.bullets.len();
        let enemy_bullets_before = self.registry.enemy_bullets.len();
        let mut player_fired = false;
        let mut enemy_shots: usize = 0;
        if (self.registry.enemies.len() as u64) < u64::MAX - self.registry.next_id {
            if fire {
                match self.registry.player {
                    Some(p) => {
                        self.registry.bullets.push(spawn_bullet(&p, self.registry.next_id));
                        self.registry.next_id = self.registry.next_id + 1;
                        player_fired = true;
                    },
                    None => {},
                }
            }
            proof {
                lemma_enemy_fire_len(moved.enemies, rolls@, bounds, self.registry.next_id);
            }
            enemy_shots =
            enemy_shoot_with(
                &self.registry.enemies,
                rolls,
                bounds,
                self.registry.next_id,
                &mut self.registry.enemy_bullets,
            );
            self.registry.next_id = self.registry.next_id + enemy_shots as u64;
        }
        assert(self.registry@ == after_fire(moved, fire, rolls@, bounds));
        let mut spawned = spawns(&self.registry.bullets, bullets_before, Kind::Bullet);
        let mut fired_at_us = spawns(
            &self.registry.enemy_bullets,
            enemy_bullets_before,
            Kind::EnemyBullet,
        );
        spawned.append(&mut fired_at_us);
        let mut expired = move_bullet(&mut self.registry.bullets, dt_ms, bounds);
        let mut fallen = move_enemy_bullet(&mut self.registry.enemy_bullets, dt_ms);
        expired.append(&mut fallen);
        let enemy_hits = bullet_hits_enemy(&mut self.registry.bullets, &mut self.registry.enemies);
        let shielded = bullet_hits_castle(&mut self.registry.bullets, &mut self.registry.castles);
        let (player_hits, lost) = enemy_bullet_hits_player(
            &mut self.registry.enemy_bullets,
            &self.registry.player,
            &mut self.lives,
            &self.score,
        );
        let castle_hits = enemy_bullet_hits_castle(
            &mut self.registry.enemy_bullets,
            &mut self.registry.castles,
        );
        let game_over = match lost {
            Some(event) => Some(event),
            None => won,
        };
        let mut cleared: Vec<u64> = Vec::new();
        match game_over {
            Some(event) => {
                let mut gone = handle_game_over(
                    event,
                    &mut self.game,
                    &mut self.high_score,
                    &mut self.registry.player,
                    &mut self.registry.castles,
                    &mut self.registry.enemies,
                );
                cleared.append(&mut gone);
                let mut spent = idents(&self.registry.bullets);
                cleared.append(&mut spent);
                let mut dropped = idents(&self.registry.enemy_bullets);
                cleared.append(&mut dropped);
                self.registry.bullets.clear();
                self.registry.enemy_bullets.clear();
            },
            None => {},
        }
        TickReport {
            started: None,
            game_over,
            player_fired,
            enemy_shots,
            spawned,
            expired,
            enemy_hits,
            shielded,
            player_hits,
            castle_hits,
            cleared,
        }
    }

    /// Advances the simulation by one tick of `dt_ms` milliseconds, the
    /// enemies firing on `rolls`: the enemy at an index rolls what stands at
    /// that index, and an enemy without a roll holds its fire.
    pub fn tick_with(&mut self, input: Input, dt_ms: u32, rolls: &Vec<u32>) -> (report: TickReport)
        ensures
            final(self)@ == ticked(old(self)@, input, dt_ms, rolls@),
            report@ == reported(old(self)@, input, dt_ms, rolls@),
            within_limits(old(self)@) ==> within_limits(final(self)@),
            registered(old(self)@.registry) ==> registered(final(self)@.registry),
            registered(old(self)@.registry) && unshared(old(self)@.registry) ==> unshared(
                final(self)@.registry,
            ),
    {
        proof {
            if within_limits(self@) {
                lemma_tick_keeps_limits(self@, input, dt_ms, rolls@);
            }
            if registered(self@.registry) {
                lemma_tick_keeps_order(self@, input, dt_ms, rolls@);
                if unshared(self@.registry) {
                    lemma_tick_shares_nothing(self@, input, dt_ms, rolls@);
                }
            }
        }
        let fire = input.fire && !self.fire_held;
        let confirm = input.confirm && !self.confirm_held;
        self.fire_held = input.fire;
        self.confirm_held = input.confirm;
        match self.game {
            Game::Intro | Game::Ended => {
                let started = start_game(confirm, &mut self.game);
                if started.is_some() {
                    reset_lives(&mut self.lives);
                    self.loading_flags = LoadingFlags {
                        player: false,
                        enemies: false,
                        castles: false,
                    };
                    self.registry = Registry::new();
                }
                TickReport {
                    started,
                    game_over: None,
                    player_fired: false,
                    enemy_shots: 0,
                    spawned: Vec::new(),
                    expired: Vec::new(),
                    enemy_hits: Vec::new(),
                    shielded: Vec::new(),
                    player_hits: Vec::new(),
                    castle_hits: Vec::new(),
                    cleared: Vec::new(),
                }
            },
            Game::Loading => {
                let spawned = self.load();
                TickReport {
                    started: None,
                    game_over: None,
                    player_fired: false,
                    enemy_shots: 0,
                    spawned,
                    expired: Vec::new(),
                    enemy_hits: Vec::new(),
                    shielded: Vec::new(),
                    player_hits: Vec::new(),
                    castle_hits: Vec::new(),
                    cleared: Vec::new(),
                }
            },
            Game::Playing => self.play(input, fire, dt_ms, rolls),
        }
    }

    /// Advances the simulation by one tick of `dt_ms` milliseconds, rolling
    /// `dice` once for every enemy. Whatever was rolled, the tick is the one
    /// that [`World::tick_with`] makes of some rolls, one for every enemy.
    pub fn tick(&mut self, input: Input, dt_ms: u32, dice: &mut Dice) -> (report: TickReport)
        ensures
            exists|rolls: Seq<u32>|
                rolls.len() == old(self)@.registry.enemies.len() && final(self)@ == #[trigger] ticked(
                    old(self)@,
                    input,
                    dt_ms,
                    rolls,
                ) && report@ == reported(old(self)@, input, dt_ms, rolls),
            within_limits(old(self)@) ==> within_limits(final(self)@),
            registered(old(self)@.registry) ==> registered(final(self)@.registry),
            registered(old(self)@.registry) && unshared(old(self)@.registry) ==> unshared(
                final(self)@.registry,
            ),
    {
        let rolls = dice.rolls(self.registry.enemies.len());
        self.tick_with(input, dt_ms, &rolls)
    }
}

} // verus!
