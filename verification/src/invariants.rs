//! What holds of every tick: the limits of the counters, the order of the
//! registry, the order of the phases, and that the end of a game and the hit
//! of a shot are each reported once.

use vstd::prelude::*;
use crate::combat::{
    castles_sound, lemma_castles_stay_sound, lemma_numbered_is_distinct,
    lemma_one_hit_across_volleys, lemma_one_hit_per_shot, lemma_survivors_keep_numbering,
    lemma_targets_keep_numbering, lemma_volley_draws, player_targets, volley,
};
use crate::components::{
    apart, has_ident, lemma_drawn_from_drawn, lemma_drawn_from_itself, lemma_drawn_stay_apart,
    numbered_below, Solid,
};
use crate::events::GameOver;
use crate::formation::marched;
use crate::geometry::Bounds;
use crate::movement::{
    lemma_bullets_flown_draw, lemma_bullets_keep_numbering, lemma_enemy_bullets_flown_draw,
    lemma_enemy_bullets_keep_numbering,
};
use crate::resources::{Game, NUMBER_OF_LIVES};
use crate::spawn::{cell_width, columns, enemy_fire, lemma_enemy_fire_numbering};
use crate::world::{
    after_combat, after_fire, after_flight, after_steering, before_combat, confirm_pressed,
    fire_pressed, has_room, initial, listening, player_fires, populated, quiet, reported, ticked,
    Input, RegistryView, WorldView,
};

verus! {

/// The limits that the counters keep: the player never has more lives than
/// a game starts with, a game that is loading or playing has a life left,
/// and every castle that stands has between one hitpoint and the two it was
/// built with.
pub open spec fn within_limits(w: WorldView) -> bool {
    &&& w.lives <= NUMBER_OF_LIVES
    &&& w.game == Game::Loading || w.game == Game::Playing ==> w.lives > 0
    &&& castles_sound(w.registry.castles)
}

/// A session starts within the limits.
pub proof fn lemma_initial_within_limits(bounds: Bounds)
    ensures
        within_limits(initial(bounds)),
{
}

/// No tick leaves the limits: after any tick of a world within them, the
/// lives are between 0 and the starting lives and the hitpoints of every
/// castle are between 0 and 2.
pub proof fn lemma_tick_keeps_limits(w: WorldView, input: Input, dt_ms: u32, rolls: Seq<u32>)
    requires
        within_limits(w),
    ensures
        within_limits(ticked(w, input, dt_ms, rolls)),
        0 <= ticked(w, input, dt_ms, rolls).lives <= NUMBER_OF_LIVES,
        forall|i: int|
            0 <= i < ticked(w, input, dt_ms, rolls).registry.castles.len() ==> 0 <= (
            #[trigger] ticked(w, input, dt_ms, rolls).registry.castles[i]).hitpoints <= 2,
{
    if w.game == Game::Playing {
        let heard = listening(w, input);
        let ready = before_combat(heard, input, fire_pressed(w, input), dt_ms, rolls);
        let on_player = volley(ready.enemy_bullets, player_targets(ready.player), false);
        assert(ready.castles == w.registry.castles);
        lemma_castles_stay_sound(on_player.survivors, ready.castles, true);
    }
}

/// Whether the registry is in order: within every kind the entities stand
/// in the order of their identifiers, none twice, and every identifier in
/// use is below the next free one.
pub open spec fn registered(r: RegistryView) -> bool {
    &&& numbered_below(r.bullets, r.next_id as int)
    &&& numbered_below(r.enemy_bullets, r.next_id as int)
    &&& numbered_below(r.enemies, r.next_id as int)
    &&& numbered_below(r.castles, r.next_id as int)
    &&& r.player matches Some(p) ==> p.id < r.next_id
}

/// Firing keeps the registry in order.
pub proof fn lemma_fire_keeps_order(r: RegistryView, fire: bool, rolls: Seq<u32>, bounds: Bounds)
    requires
        registered(r),
    ensures
        registered(after_fire(r, fire, rolls, bounds)),
{
    if has_room(r) {
        let after = after_fire(r, fire, rolls, bounds);
        let first = if player_fires(r, fire) {
            (r.next_id + 1) as u64
        } else {
            r.next_id
        };
        let shots = enemy_fire(r.enemies, rolls, bounds, first);
        lemma_enemy_fire_numbering(r.enemies, rolls, bounds, first);
        assert forall|i: int, j: int| 0 <= i < j < after.bullets.len() implies (
        #[trigger] after.bullets[i]).ident() < (#[trigger] after.bullets[j]).ident() by {
            assert(after.bullets[i] == r.bullets[i]);
            if j < r.bullets.len() {
                assert(after.bullets[j] == r.bullets[j]);
            }
        }
        assert forall|i: int| 0 <= i < after.bullets.len() implies (#[trigger] after.bullets[i]).ident()
            < after.next_id by {
            if i < r.bullets.len() {
                assert(after.bullets[i] == r.bullets[i]);
            }
        }
        assert forall|i: int| 0 <= i < after.enemy_bullets.len() implies (
        #[trigger] after.enemy_bullets[i]).ident() < after.next_id && (if i
            < r.enemy_bullets.len() {
            after.enemy_bullets[i].ident() < r.next_id
        } else {
            after.enemy_bullets[i].ident() == first + (i - r.enemy_bullets.len())
        }) by {
            if i < r.enemy_bullets.len() {
                assert(after.enemy_bullets[i] == r.enemy_bullets[i]);
            } else {
                assert(after.enemy_bullets[i] == shots[i - r.enemy_bullets.len()]);
            }
        }
        assert forall|i: int, j: int| 0 <= i < j < after.enemy_bullets.len() implies (
        #[trigger] after.enemy_bullets[i]).ident() < (#[trigger] after.enemy_bullets[j]).ident() by {
            if j < r.enemy_bullets.len() {
                assert(after.enemy_bullets[i] == r.enemy_bullets[i]);
                assert(after.enemy_bullets[j] == r.enemy_bullets[j]);
            }
        }
        assert forall|i: int| 0 <= i < after.enemies.len() implies (#[trigger] after.enemies[i]).ident()
            < after.next_id by {
            assert(r.enemies[i].ident() < r.next_id);
        }
        assert forall|i: int| 0 <= i < after.castles.len() implies (#[trigger] after.castles[i]).ident()
            < after.next_id by {
            assert(r.castles[i].ident() < r.next_id);
        }
    }
}

/// The flight of the shots keeps the registry in order.
pub proof fn lemma_flight_keeps_order(r: RegistryView, dt_ms: u32, bounds: Bounds)
    requires
        registered(r),
    ensures
        registered(after_flight(r, dt_ms, bounds)),
{
    lemma_bullets_keep_numbering(r.bullets, dt_ms, bounds, r.next_id as int);
    lemma_enemy_bullets_keep_numbering(r.enemy_bullets, dt_ms, r.next_id as int);
}

/// Resolving the overlaps keeps the registry in order.
pub proof fn lemma_combat_keeps_order(r: RegistryView)
    requires
        registered(r),
    ensures
        registered(after_combat(r)),
{
    let bound = r.next_id as int;
    let on_enemies = volley(r.bullets, r.enemies, true);
    let on_player = volley(r.enemy_bullets, player_targets(r.player), false);
    lemma_survivors_keep_numbering(r.bullets, r.enemies, true, bound);
    lemma_targets_keep_numbering(r.bullets, r.enemies, true, bound);
    lemma_survivors_keep_numbering(on_enemies.survivors, r.castles, false, bound);
    lemma_survivors_keep_numbering(r.enemy_bullets, player_targets(r.player), false, bound);
    lemma_survivors_keep_numbering(on_player.survivors, r.castles, true, bound);
    lemma_targets_keep_numbering(on_player.survivors, r.castles, true, bound);
}

/// The registry of a new game is in order.
pub proof fn lemma_populated_in_order(bounds: Bounds)
    ensures
        registered(populated(bounds)),
{
    let r = populated(bounds);
    let cell = cell_width(bounds);
    if cell > 0 {
        assert(bounds.width as int / cell <= bounds.width) by (nonlinear_arith)
            requires
                cell > 0,
                bounds.width >= 0,
        ;
    }
    assert(0 <= columns(bounds) <= u32::MAX);
    assert forall|i: int, j: int| 0 <= i < j < r.enemies.len() implies (#[trigger] r.enemies[i]).ident()
        < (#[trigger] r.enemies[j]).ident() by {}
    assert forall|i: int| 0 <= i < r.enemies.len() implies (#[trigger] r.enemies[i]).ident()
        < r.next_id by {}
}

/// In a playing tick the registry is in order when the overlaps come to be
/// resolved.
pub proof fn lemma_tick_keeps_order_until_combat(
    w: WorldView,
    input: Input,
    dt_ms: u32,
    rolls: Seq<u32>,
)
    requires
        registered(w.registry),
    ensures
        registered(before_combat(listening(w, input), input, fire_pressed(w, input), dt_ms, rolls)),
{
    let heard = listening(w, input);
    let fire = fire_pressed(w, input);
    let steered = after_steering(heard.registry, input, dt_ms, heard.bounds);
    let moved = RegistryView { enemies: marched(steered.enemies, heard.stage, dt_ms), ..steered };
    assert(registered(moved)) by {
        assert forall|i: int| 0 <= i < moved.enemies.len() implies (#[trigger] moved.enemies[i]).ident()
            == steered.enemies[i].ident() by {}
        assert forall|i: int| 0 <= i < moved.enemies.len() implies (#[trigger] moved.enemies[i]).ident()
            < moved.next_id by {
            assert(steered.enemies[i].ident() < steered.next_id);
        }
        assert forall|i: int, j: int| 0 <= i < j < moved.enemies.len() implies (
        #[trigger] moved.enemies[i]).ident() < (#[trigger] moved.enemies[j]).ident() by {
            assert(steered.enemies[i].ident() < steered.enemies[j].ident());
        }
    }
    lemma_fire_keeps_order(moved, fire, rolls, heard.bounds);
    lemma_flight_keeps_order(after_fire(moved, fire, rolls, heard.bounds), dt_ms, heard.bounds);
}

/// No tick disturbs the order of the registry: after any tick of a world
/// whose registry is in order, no two entities of a kind share an
/// identifier and none has one that is still to be given out.
pub proof fn lemma_tick_keeps_order(w: WorldView, input: Input, dt_ms: u32, rolls: Seq<u32>)
    requires
        registered(w.registry),
    ensures
        registered(ticked(w, input, dt_ms, rolls).registry),
{
    match w.game {
        Game::Playing => {
            let heard = listening(w, input);
            let fire = fire_pressed(w, input);
            lemma_tick_keeps_order_until_combat(w, input, dt_ms, rolls);
            lemma_combat_keeps_order(before_combat(heard, input, fire, dt_ms, rolls));
        },
        Game::Loading => {
            lemma_populated_in_order(w.bounds);
        },
        _ => {},
    }
}

/// Whether no identifier is shared between entities of different kinds.
pub open spec fn unshared(r: RegistryView) -> bool {
    &&& apart(r.bullets, r.enemy_bullets)
    &&& apart(r.bullets, r.enemies)
    &&& apart(r.bullets, r.castles)
    &&& apart(r.enemy_bullets, r.enemies)
    &&& apart(r.enemy_bullets, r.castles)
    &&& apart(r.enemies, r.castles)
    &&& apart(player_targets(r.player), r.bullets)
    &&& apart(player_targets(r.player), r.enemy_bullets)
    &&& apart(player_targets(r.player), r.enemies)
    &&& apart(player_targets(r.player), r.castles)
}

/// Firing shares no identifier: every shot fired gets one that nothing has.
pub proof fn lemma_fire_shares_nothing(r: RegistryView, fire: bool, rolls: Seq<u32>, bounds: Bounds)
    requires
        registered(r),
        unshared(r),
    ensures
        unshared(after_fire(r, fire, rolls, bounds)),
{
    if has_room(r) {
        let after = after_fire(r, fire, rolls, bounds);
        let first = if player_fires(r, fire) {
            (r.next_id + 1) as u64
        } else {
            r.next_id
        };
        let shots = enemy_fire(r.enemies, rolls, bounds, first);
        lemma_enemy_fire_numbering(r.enemies, rolls, bounds, first);
        assert forall|i: int| 0 <= i < after.bullets.len() implies if i < r.bullets.len() {
            (#[trigger] after.bullets[i]) == r.bullets[i] && after.bullets[i].ident() < r.next_id
        } else {
            after.bullets[i].ident() == r.next_id && first == r.next_id + 1
        } by {}
        assert forall|i: int| 0 <= i < after.enemy_bullets.len() implies if i
            < r.enemy_bullets.len() {
            (#[trigger] after.enemy_bullets[i]) == r.enemy_bullets[i]
                && after.enemy_bullets[i].ident() < r.next_id
        } else {
            after.enemy_bullets[i].ident() >= first
        } by {
            if i >= r.enemy_bullets.len() {
                assert(after.enemy_bullets[i] == shots[i - r.enemy_bullets.len()]);
            }
        }
        assert(forall|i: int| 0 <= i < r.enemies.len() ==> (#[trigger] r.enemies[i]).ident() < r.next_id);
        assert(forall|i: int| 0 <= i < r.castles.len() ==> (#[trigger] r.castles[i]).ident() < r.next_id);
        let ship = player_targets(r.player);
        assert(forall|i: int| 0 <= i < ship.len() ==> (#[trigger] ship[i]).ident() < r.next_id);
        assert(apart(after.bullets, after.enemy_bullets)) by {
            assert forall|i: int, j: int|
                0 <= i < after.bullets.len() && 0 <= j < after.enemy_bullets.len() implies (
            #[trigger] after.bullets[i]).ident() != (#[trigger] after.enemy_bullets[j]).ident() by {
                if i < r.bullets.len() && j < r.enemy_bullets.len() {
                    assert(r.bullets[i].ident() != r.enemy_bullets[j].ident());
                }
            }
        }
        assert(apart(after.bullets, after.enemies)) by {
            assert forall|i: int, j: int|
                0 <= i < after.bullets.len() && 0 <= j < after.enemies.len() implies (
            #[trigger] after.bullets[i]).ident() != (#[trigger] after.enemies[j]).ident() by {
                if i < r.bullets.len() {
                    assert(r.bullets[i].ident() != r.enemies[j].ident());
                }
            }
        }
        assert(apart(after.bullets, after.castles)) by {
            assert forall|i: int, j: int|
                0 <= i < after.bullets.len() && 0 <= j < after.castles.len() implies (
            #[trigger] after.bullets[i]).ident() != (#[trigger] after.castles[j]).ident() by {
                if i < r.bullets.len() {
                    assert(r.bullets[i].ident() != r.castles[j].ident());
                }
            }
        }
        assert(apart(after.enemy_bullets, after.enemies)) by {
            assert forall|i: int, j: int|
                0 <= i < after.enemy_bullets.len() && 0 <= j < after.enemies.len() implies (
            #[trigger] after.enemy_bullets[i]).ident() != (#[trigger] after.enemies[j]).ident() by {
                if i < r.enemy_bullets.len() {
                    assert(r.enemy_bullets[i].ident() != r.enemies[j].ident());
                }
            }
        }
        assert(apart(after.enemy_bullets, after.castles)) by {
            assert forall|i: int, j: int|
                0 <= i < after.enemy_bullets.len() && 0 <= j < after.castles.len() implies (
            #[trigger] after.enemy_bullets[i]).ident() != (#[trigger] after.castles[j]).ident() by {
                if i < r.enemy_bullets.len() {
                    assert(r.enemy_bullets[i].ident() != r.castles[j].ident());
                }
            }
        }
        assert(apart(ship, after.bullets)) by {
            assert forall|i: int, j: int|
                0 <= i < ship.len() && 0 <= j < after.bullets.len() implies (#[trigger] ship[i]).ident()
                != (#[trigger] after.bullets[j]).ident() by {
                if j < r.bullets.len() {
                    assert(ship[i].ident() != r.bullets[j].ident());
                }
            }
        }
        assert(apart(ship, after.enemy_bullets)) by {
            assert forall|i: int, j: int|
                0 <= i < ship.len() && 0 <= j < after.enemy_bullets.len() implies (
            #[trigger] ship[i]).ident() != (#[trigger] after.enemy_bullets[j]).ident() by {
                if j < r.enemy_bullets.len() {
                    assert(ship[i].ident() != r.enemy_bullets[j].ident());
                }
            }
        }
    }
}

/// The flight of the shots shares no identifier.
pub proof fn lemma_flight_shares_nothing(r: RegistryView, dt_ms: u32, bounds: Bounds)
    requires
        unshared(r),
    ensures
        unshared(after_flight(r, dt_ms, bounds)),
{
    let after = after_flight(r, dt_ms, bounds);
    let ship = player_targets(r.player);
    lemma_bullets_flown_draw(r.bullets, dt_ms, bounds);
    lemma_enemy_bullets_flown_draw(r.enemy_bullets, dt_ms);
    lemma_drawn_from_itself(r.enemies);
    lemma_drawn_from_itself(r.castles);
    lemma_drawn_from_itself(ship);
    lemma_drawn_stay_apart(after.bullets, r.bullets, after.enemy_bullets, r.enemy_bullets);
    lemma_drawn_stay_apart(after.bullets, r.bullets, r.enemies, r.enemies);
    lemma_drawn_stay_apart(after.bullets, r.bullets, r.castles, r.castles);
    lemma_drawn_stay_apart(after.enemy_bullets, r.enemy_bullets, r.enemies, r.enemies);
    lemma_drawn_stay_apart(after.enemy_bullets, r.enemy_bullets, r.castles, r.castles);
    lemma_drawn_stay_apart(ship, ship, after.bullets, r.bullets);
    lemma_drawn_stay_apart(ship, ship, after.enemy_bullets, r.enemy_bullets);
}

/// Resolving the overlaps shares no identifier.
pub proof fn lemma_combat_shares_nothing(r: RegistryView)
    requires
        unshared(r),
    ensures
        unshared(after_combat(r)),
{
    let after = after_combat(r);
    let ship = player_targets(r.player);
    let on_enemies = volley(r.bullets, r.enemies, true);
    let on_shelter = volley(on_enemies.survivors, r.castles, false);
    let on_player = volley(r.enemy_bullets, ship, false);
    let on_castles = volley(on_player.survivors, r.castles, true);
    lemma_volley_draws(r.bullets, r.enemies, true);
    lemma_volley_draws(on_enemies.survivors, r.castles, false);
    lemma_volley_draws(r.enemy_bullets, ship, false);
    lemma_volley_draws(on_player.survivors, r.castles, true);
    lemma_drawn_from_drawn(after.bullets, on_enemies.survivors, r.bullets);
    lemma_drawn_from_drawn(after.enemy_bullets, on_player.survivors, r.enemy_bullets);
    lemma_drawn_from_itself(ship);
    lemma_drawn_stay_apart(after.bullets, r.bullets, after.enemy_bullets, r.enemy_bullets);
    lemma_drawn_stay_apart(after.bullets, r.bullets, after.enemies, r.enemies);
    lemma_drawn_stay_apart(after.bullets, r.bullets, after.castles, r.castles);
    lemma_drawn_stay_apart(after.enemy_bullets, r.enemy_bullets, after.enemies, r.enemies);
    lemma_drawn_stay_apart(after.enemy_bullets, r.enemy_bullets, after.castles, r.castles);
    lemma_drawn_stay_apart(after.enemies, r.enemies, after.castles, r.castles);
    lemma_drawn_stay_apart(ship, ship, after.bullets, r.bullets);
    lemma_drawn_stay_apart(ship, ship, after.enemy_bullets, r.enemy_bullets);
    lemma_drawn_stay_apart(ship, ship, after.enemies, r.enemies);
    lemma_drawn_stay_apart(ship, ship, after.castles, r.castles);
}

/// The registry of a new game shares no identifier between kinds.
pub proof fn lemma_populated_shares_nothing(bounds: Bounds)
    ensures
        unshared(populated(bounds)),
{
    let r = populated(bounds);
    let cell = cell_width(bounds);
    if cell > 0 {
        assert(bounds.width as int / cell <= bounds.width) by (nonlinear_arith)
            requires
                cell > 0,
                bounds.width >= 0,
        ;
    }
    assert(0 <= columns(bounds) <= u32::MAX);
    let ship = player_targets(r.player);
    assert(forall|i: int| 0 <= i < ship.len() ==> (#[trigger] ship[i]).ident() == 0);
    assert(forall|i: int| 0 <= i < r.castles.len() ==> 1 <= (#[trigger] r.castles[i]).ident() <= 4);
    assert(forall|i: int| 0 <= i < r.enemies.len() ==> (#[trigger] r.enemies[i]).ident() >= 5);
}

/// No tick lets two entities share an identifier: after any tick of a world
/// whose registry is in order and shares none, whatever kinds two entities
/// are of, their identifiers differ.
pub proof fn lemma_tick_shares_nothing(w: WorldView, input: Input, dt_ms: u32, rolls: Seq<u32>)
    requires
        registered(w.registry),
        unshared(w.registry),
    ensures
        unshared(ticked(w, input, dt_ms, rolls).registry),
{
    match w.game {
        Game::Playing => {
            let heard = listening(w, input);
            let fire = fire_pressed(w, input);
            let steered = after_steering(heard.registry, input, dt_ms, heard.bounds);
            let moved = RegistryView {
                enemies: marched(steered.enemies, heard.stage, dt_ms),
                ..steered
            };
            assert(registered(moved) && unshared(moved)) by {
                assert forall|i: int| 0 <= i < moved.enemies.len() implies (
                #[trigger] moved.enemies[i]).ident() == w.registry.enemies[i].ident() by {}
                assert forall|i: int| 0 <= i < moved.enemies.len() implies (
                #[trigger] moved.enemies[i]).ident() < moved.next_id by {
                    assert(w.registry.enemies[i].ident() < w.registry.next_id);
                }
                assert forall|i: int, j: int| 0 <= i < j < moved.enemies.len() implies (
                #[trigger] moved.enemies[i]).ident() < (#[trigger] moved.enemies[j]).ident() by {
                    assert(w.registry.enemies[i].ident() < w.registry.enemies[j].ident());
                }
                assert forall|i: int| 0 <= i < moved.enemies.len() implies has_ident(
                    w.registry.enemies,
                    (#[trigger] moved.enemies[i]).ident(),
                ) by {
                    assert(w.registry.enemies[i].ident() == moved.enemies[i].ident());
                }
                let ship = player_targets(w.registry.player);
                let steered_ship = player_targets(moved.player);
                assert forall|i: int| 0 <= i < steered_ship.len() implies has_ident(
                    ship,
                    (#[trigger] steered_ship[i]).ident(),
                ) by {
                    assert(ship[i].ident() == steered_ship[i].ident());
                }
                lemma_drawn_from_itself(w.registry.bullets);
                lemma_drawn_from_itself(w.registry.enemy_bullets);
                lemma_drawn_from_itself(w.registry.castles);
                lemma_drawn_stay_apart(
                    moved.bullets,
                    w.registry.bullets,
                    moved.enemies,
                    w.registry.enemies,
                );
                lemma_drawn_stay_apart(
                    moved.enemy_bullets,
                    w.registry.enemy_bullets,
                    moved.enemies,
                    w.registry.enemies,
                );
                lemma_drawn_stay_apart(
                    moved.enemies,
                    w.registry.enemies,
                    moved.castles,
                    w.registry.castles,
                );
                lemma_drawn_stay_apart(steered_ship, ship, moved.bullets, w.registry.bullets);
                lemma_drawn_stay_apart(
                    steered_ship,
                    ship,
                    moved.enemy_bullets,
                    w.registry.enemy_bullets,
                );
                lemma_drawn_stay_apart(steered_ship, ship, moved.enemies, w.registry.enemies);
                lemma_drawn_stay_apart(steered_ship, ship, moved.castles, w.registry.castles);
            }
            lemma_fire_keeps_order(moved, fire, rolls, heard.bounds);
            lemma_fire_shares_nothing(moved, fire, rolls, heard.bounds);
            let fired = after_fire(moved, fire, rolls, heard.bounds);
            lemma_flight_shares_nothing(fired, dt_ms, heard.bounds);
            lemma_combat_shares_nothing(after_flight(fired, dt_ms, heard.bounds));
        },
        Game::Loading => {
            lemma_populated_shares_nothing(w.bounds);
        },
        _ => {},
    }
}

/// Where `later` may follow `earlier` within one tick: a phase stays or
/// moves one step along intro, loading, playing, ended, and only an ended
/// game goes back to loading.
pub open spec fn may_follow(earlier: Game, later: Game) -> bool {
    match earlier {
        Game::Intro => later == Game::Intro || later == Game::Loading,
        Game::Loading => later == Game::Playing,
        Game::Playing => later == Game::Playing || later == Game::Ended,
        Game::Ended => later == Game::Ended || later == Game::Loading,
    }
}

/// The phase only moves forward, but for the restart of an ended game; a
/// game starts with full lives, and it leaves `Playing` for `Ended` only.
pub proof fn lemma_phase_order(w: WorldView, input: Input, dt_ms: u32, rolls: Seq<u32>)
    ensures
        may_follow(w.game, ticked(w, input, dt_ms, rolls).game),
        w.game != Game::Loading && ticked(w, input, dt_ms, rolls).game == Game::Loading ==> ticked(
            w,
            input,
            dt_ms,
            rolls,
        ).lives == NUMBER_OF_LIVES && confirm_pressed(w, input),
{
}

/// In every tick of a world whose registry is in order, a player bullet
/// registers at most one hit, on an enemy or on a castle, and an enemy
/// bullet at most one, on the player or on a castle: no shot is named twice
/// among the hits of its kind.
pub proof fn lemma_tick_hits_once_per_shot(w: WorldView, input: Input, dt_ms: u32, rolls: Seq<u32>)
    requires
        registered(w.registry),
        w.game == Game::Playing,
    ensures
        ({
            let report = reported(w, input, dt_ms, rolls);
            let by_player = report.enemy_hits + report.shielded;
            let by_enemies = report.player_hits + report.castle_hits;
            &&& forall|i: int, j: int|
                0 <= i < j < by_player.len() ==> (#[trigger] by_player[i]).shot != (
                #[trigger] by_player[j]).shot
            &&& forall|i: int, j: int|
                0 <= i < j < by_enemies.len() ==> (#[trigger] by_enemies[i]).shot != (
                #[trigger] by_enemies[j]).shot
        }),
{
    let heard = listening(w, input);
    let fire = fire_pressed(w, input);
    let steered = after_steering(heard.registry, input, dt_ms, heard.bounds);
    let moved = RegistryView { enemies: marched(steered.enemies, heard.stage, dt_ms), ..steered };
    let fired = after_fire(moved, fire, rolls, heard.bounds);
    let ready = after_flight(fired, dt_ms, heard.bounds);
    lemma_tick_keeps_order_until_combat(w, input, dt_ms, rolls);
    let bound = ready.next_id as int;
    lemma_numbered_is_distinct(ready.bullets, bound);
    lemma_numbered_is_distinct(ready.enemy_bullets, bound);
    let on_enemies = volley(ready.bullets, ready.enemies, true);
    let on_player = volley(ready.enemy_bullets, player_targets(ready.player), false);
    lemma_one_hit_per_shot(ready.bullets, ready.enemies, true);
    lemma_one_hit_per_shot(ready.enemy_bullets, player_targets(ready.player), false);
    lemma_survivors_keep_numbering(ready.bullets, ready.enemies, true, bound);
    lemma_survivors_keep_numbering(ready.enemy_bullets, player_targets(ready.player), false, bound);
    lemma_numbered_is_distinct(on_enemies.survivors, bound);
    lemma_numbered_is_distinct(on_player.survivors, bound);
    lemma_one_hit_per_shot(on_enemies.survivors, ready.castles, false);
    lemma_one_hit_per_shot(on_player.survivors, ready.castles, true);
    lemma_one_hit_across_volleys(ready.bullets, ready.enemies, ready.castles, true, false);
    lemma_one_hit_across_volleys(
        ready.enemy_bullets,
        player_targets(ready.player),
        ready.castles,
        false,
        true,
    );
}

/// No tick lowers the score or the high score. The score, as the rules
/// stand, is not raised either.
pub proof fn lemma_scores_never_fall(w: WorldView, input: Input, dt_ms: u32, rolls: Seq<u32>)
    ensures
        ticked(w, input, dt_ms, rolls).score == w.score,
        ticked(w, input, dt_ms, rolls).high_score >= w.high_score,
        ticked(w, input, dt_ms, rolls).high_score == w.high_score || (ticked(
            w,
            input,
            dt_ms,
            rolls,
        ).high_score == w.score && reported(w, input, dt_ms, rolls).game_over == Some(
            GameOver { score: w.score, won: true },
        )),
{
}

/// A game that has ended stays silent: a tick in phase `Ended` announces no
/// game over, whatever the registry holds, so the end of a game is
/// announced once. Without a fresh confirm press the phase stays `Ended`.
pub proof fn lemma_ended_stays_silent(w: WorldView, input: Input, dt_ms: u32, rolls: Seq<u32>)
    requires
        w.game == Game::Ended,
    ensures
        reported(w, input, dt_ms, rolls).game_over is None,
        !confirm_pressed(w, input) ==> ticked(w, input, dt_ms, rolls).game == Game::Ended,
        !confirm_pressed(w, input) ==> reported(w, input, dt_ms, rolls) == quiet(),
{
}

/// A tick announces a game over exactly when it takes the game from
/// `Playing` to `Ended`.
pub proof fn lemma_game_over_marks_the_end(w: WorldView, input: Input, dt_ms: u32, rolls: Seq<u32>)
    ensures
        reported(w, input, dt_ms, rolls).game_over is Some <==> (w.game == Game::Playing && ticked(
            w,
            input,
            dt_ms,
            rolls,
        ).game == Game::Ended),
{
}

} // verus!
