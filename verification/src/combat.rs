//! Overlap resolution between shots and their targets.
//!
//! Shots are taken in the order in which they are stored. Each shot is held
//! against the targets that are still there when its turn comes: the first
//! one it overlaps is hit, the shot is spent, and nothing more is resolved
//! for that shot.

use vstd::prelude::*;
use crate::components::{
    drawn_from, has_ident, numbered_below, Bullet, Castle, Enemy, EnemyBullet, Player, Solid,
    CASTLE_HITPOINTS,
};
use crate::events::GameOver;
use crate::geometry::{boxes_overlap, overlaps};
use crate::resources::{Lives, Score};

verus! {

/// One resolved overlap: the shot that was spent and the target it hit.
#[derive(Clone, Copy, Debug, PartialEq, Eq, Structural)]
pub struct Hit {
    pub shot: u64,
    pub target: u64,
    /// Whether the hit removed the target.
    pub destroyed: bool,
}

/// The outcome of holding a sequence of shots against a sequence of targets.
pub ghost struct Volley<A, B> {
    /// The shots that hit nothing, in their old order.
    pub survivors: Seq<A>,
    /// The targets that are left, in their old order.
    pub targets: Seq<B>,
    /// The overlaps that were resolved, in the order of the shots.
    pub hits: Seq<Hit>,
}

/// Whether `shot` overlaps `target` and `target` can be hit.
pub open spec fn touches<A: Solid, B: Solid>(shot: A, target: B) -> bool {
    target.tangible() && boxes_overlap(
        shot.center(),
        shot.extent(),
        target.center(),
        target.extent(),
    )
}

/// Whether `i` is the first target that `shot` touches.
pub open spec fn is_first_hit<A: Solid, B: Solid>(shot: A, targets: Seq<B>, i: int) -> bool {
    &&& 0 <= i < targets.len()
    &&& touches(shot, targets[i])
    &&& forall|j: int| 0 <= j < i ==> !touches(shot, #[trigger] targets[j])
}

/// The index of the first target that `shot` touches, if it touches any.
pub open spec fn first_hit<A: Solid, B: Solid>(shot: A, targets: Seq<B>) -> Option<int> {
    if exists|i: int| is_first_hit(shot, targets, i) {
        Some(choose|i: int| is_first_hit(shot, targets, i))
    } else {
        None
    }
}

/// The targets after the one at `i` was hit. A harmless hit leaves them as
/// they are.
pub open spec fn after_hit<B: Solid>(targets: Seq<B>, i: int, damaging: bool) -> Seq<B> {
    if !damaging {
        targets
    } else {
        match targets[i].struck() {
            Some(left) => targets.update(i, left),
            None => targets.remove(i),
        }
    }
}

/// Whether a hit on `target` removes it.
pub open spec fn destroys<B: Solid>(target: B, damaging: bool) -> bool {
    damaging && target.struck() is None
}

/// The outcome of one more shot after `before`.
pub open spec fn volley_step<A: Solid, B: Solid>(
    before: Volley<A, B>,
    shot: A,
    damaging: bool,
) -> Volley<A, B> {
    match first_hit(shot, before.targets) {
        None => Volley { survivors: before.survivors.push(shot), ..before },
        Some(i) => Volley {
            survivors: before.survivors,
            targets: after_hit(before.targets, i, damaging),
            hits: before.hits.push(
                Hit {
                    shot: shot.ident(),
                    target: before.targets[i].ident(),
                    destroyed: destroys(before.targets[i], damaging),
                },
            ),
        },
    }
}

/// The outcome of holding `shots`, one after the other, against `targets`.
pub open spec fn volley<A: Solid, B: Solid>(
    shots: Seq<A>,
    targets: Seq<B>,
    damaging: bool,
) -> Volley<A, B>
    decreases shots.len(),
{
    if shots.len() == 0 {
        Volley { survivors: Seq::empty(), targets, hits: Seq::empty() }
    } else {
        volley_step(volley(shots.drop_last(), targets, damaging), shots.last(), damaging)
    }
}

/// Finds the first target that `shot` touches.
pub fn find_first_hit<A: Solid, B: Solid>(shot: &A, targets: &Vec<B>) -> (r: Option<usize>)
    ensures
        match r {
            Some(i) => first_hit(*shot, targets@) == Some(i as int),
            None => first_hit(*shot, targets@) is None,
        },
        r matches Some(i) ==> is_first_hit(*shot, targets@, i as int),
        r is None ==> forall|j: int| 0 <= j < targets.len() ==> !touches(*shot, #[trigger] targets[j]),
{
    let center = shot.center_of();
    let extent = shot.extent_of();
    let mut i: usize = 0;
    while i < targets.len()
        invariant
            i <= targets.len(),
            center == shot.center(),
            extent == shot.extent(),
            forall|j: int| 0 <= j < i ==> !touches(*shot, #[trigger] targets[j]),
        decreases targets.len() - i,
    {
        let target = &targets[i];
        if target.is_tangible() && overlaps(center, extent, target.center_of(), target.extent_of()) {
            assert(is_first_hit(*shot, targets@, i as int));
            return Some(i);
        }
        i = i + 1;
    }
    None
}

/// Holds every shot against the targets and applies what follows from each
/// overlap: the shot is removed, and a damaging hit wears the target down or
/// removes it.
pub fn resolve<A: Solid + Copy, B: Solid + Copy>(
    shots: &mut Vec<A>,
    targets: &mut Vec<B>,
    damaging: bool,
) -> (hits: Vec<Hit>)
    ensures
        final(shots)@ == volley(old(shots)@, old(targets)@, damaging).survivors,
        final(targets)@ == volley(old(shots)@, old(targets)@, damaging).targets,
        hits@ == volley(old(shots)@, old(targets)@, damaging).hits,
{
    let ghost shots0 = shots@;
    let ghost targets0 = targets@;
    let mut survivors: Vec<A> = Vec::new();
    let mut hits: Vec<Hit> = Vec::new();
    let mut k: usize = 0;
    while k < shots.len()
        invariant
            k <= shots.len(),
            shots@ == shots0,
            (Volley { survivors: survivors@, targets: targets@, hits: hits@ }) == volley(
                shots0.take(k as int),
                targets0,
                damaging,
            ),
        decreases shots.len() - k,
    {
        let shot = shots[k];
        proof {
            assert(shots0.take(k + 1).drop_last() =~= shots0.take(k as int));
            assert(shots0.take(k + 1).last() == shot);
        }
        match find_first_hit(&shot, targets) {
            None => {
                survivors.push(shot);
            },
            Some(i) => {
                let target = targets[i];
                let left = target.take_hit();
                let mut destroyed = false;
                if damaging {
                    match left {
                        Some(worn) => {
                            targets[i] = worn;
                        },
                        None => {
                            targets.remove(i);
                            destroyed = true;
                        },
                    }
                }
                hits.push(Hit { shot: shot.id_of(), target: target.id_of(), destroyed });
            },
        }
        k = k + 1;
    }
    proof {
        assert(shots0.take(k as int) =~= shots0);
    }
    *shots = survivors;
    hits
}

/// Player bullets against enemies: bullet and enemy both leave.
pub fn bullet_hits_enemy(bullets: &mut Vec<Bullet>, enemies: &mut Vec<Enemy>) -> (hits: Vec<Hit>)
    ensures
        final(bullets)@ == volley(old(bullets)@, old(enemies)@, true).survivors,
        final(enemies)@ == volley(old(bullets)@, old(enemies)@, true).targets,
        hits@ == volley(old(bullets)@, old(enemies)@, true).hits,
{
    resolve(bullets, enemies, true)
}

/// Player bullets against castles: the bullet leaves, the castle is not
/// harmed by the player's own fire.
pub fn bullet_hits_castle(bullets: &mut Vec<Bullet>, castles: &mut Vec<Castle>) -> (hits: Vec<Hit>)
    ensures
        final(bullets)@ == volley(old(bullets)@, old(castles)@, false).survivors,
        final(castles)@ == old(castles)@,
        hits@ == volley(old(bullets)@, old(castles)@, false).hits,
{
    proof {
        lemma_harmless_volley(bullets@, castles@);
    }
    resolve(bullets, castles, false)
}

/// Enemy bullets against castles: the bullet leaves and the castle loses a
/// hitpoint, falling when its last one is gone.
pub fn enemy_bullet_hits_castle(
    enemy_bullets: &mut Vec<EnemyBullet>,
    castles: &mut Vec<Castle>,
) -> (hits: Vec<Hit>)
    ensures
        final(enemy_bullets)@ == volley(old(enemy_bullets)@, old(castles)@, true).survivors,
        final(castles)@ == volley(old(enemy_bullets)@, old(castles)@, true).targets,
        hits@ == volley(old(enemy_bullets)@, old(castles)@, true).hits,
{
    resolve(enemy_bullets, castles, true)
}

/// The player as a sequence of targets: one element, or none.
pub open spec fn player_targets(player: Option<Player>) -> Seq<Player> {
    match player {
        Some(p) => seq![p],
        None => Seq::empty(),
    }
}

/// Lives left after `hits` hits: each hit takes one life while any is left.
pub open spec fn lives_after(lives: u32, hits: nat) -> u32 {
    if hits >= lives {
        0
    } else {
        (lives - hits) as u32
    }
}

/// The notice that the last life went: the game is over, lost, if there was
/// a life before and there is none after.
pub open spec fn last_life_lost(before: u32, after: u32, score: u32) -> Option<GameOver> {
    if before > 0 && after == 0 {
        Some(GameOver { score, won: false })
    } else {
        None
    }
}

/// Enemy bullets against the player: every bullet that hits leaves and costs
/// one life while any is left. When the last life goes, the game is over and
/// lost, which the second part of the result announces.
pub fn enemy_bullet_hits_player(
    enemy_bullets: &mut Vec<EnemyBullet>,
    player: &Option<Player>,
    lives: &mut Lives,
    score: &Score,
) -> (r: (Vec<Hit>, Option<GameOver>))
    ensures
        final(enemy_bullets)@ == volley(
            old(enemy_bullets)@,
            player_targets(*player),
            false,
        ).survivors,
        r.0@ == volley(old(enemy_bullets)@, player_targets(*player), false).hits,
        final(lives).value == lives_after(old(lives).value, r.0@.len()),
        r.1 == last_life_lost(old(lives).value, final(lives).value, score.value),
{
    let mut targets: Vec<Player> = Vec::new();
    match player {
        Some(p) => {
            targets.push(*p);
        },
        None => {},
    }
    assert(targets@ =~= player_targets(*player));
    let hits = resolve(enemy_bullets, &mut targets, false);
    let before: u32 = lives.value;
    if hits.len() >= before as usize {
        lives.value = 0;
    } else {
        lives.value = before - hits.len() as u32;
    }
    let over = if before > 0 && lives.value == 0 {
        Some(GameOver { score: score.value, won: false })
    } else {
        None
    };
    (hits, over)
}

/// A harmless volley leaves the targets as they were.
pub proof fn lemma_harmless_volley<A: Solid, B: Solid>(shots: Seq<A>, targets: Seq<B>)
    ensures
        volley(shots, targets, false).targets == targets,
    decreases shots.len(),
{
    if shots.len() > 0 {
        lemma_harmless_volley(shots.drop_last(), targets);
    }
}

/// Whether every castle has at least one hitpoint and no more than a castle
/// is built with.
pub open spec fn castles_sound(castles: Seq<Castle>) -> bool {
    forall|i: int|
        0 <= i < castles.len() ==> 1 <= (#[trigger] castles[i]).hitpoints <= CASTLE_HITPOINTS
}

/// Whatever is fired at them, castles that were sound stay sound: a hit
/// takes a hitpoint away and never leaves a castle with none.
pub proof fn lemma_castles_stay_sound<A: Solid>(shots: Seq<A>, castles: Seq<Castle>, damaging: bool)
    requires
        castles_sound(castles),
    ensures
        castles_sound(volley(shots, castles, damaging).targets),
    decreases shots.len(),
{
    if shots.len() > 0 {
        let before = volley(shots.drop_last(), castles, damaging);
        lemma_castles_stay_sound(shots.drop_last(), castles, damaging);
        match first_hit(shots.last(), before.targets) {
            None => {},
            Some(i) => {
                assert(is_first_hit(shots.last(), before.targets, i));
                let after = after_hit(before.targets, i, damaging);
                assert forall|k: int| 0 <= k < after.len() implies 1 <= (#[trigger] after[k]).hitpoints
                    <= CASTLE_HITPOINTS by {
                    if damaging {
                        match before.targets[i].struck() {
                            Some(left) => {
                                if k != i {
                                    assert(after[k] == before.targets[k]);
                                }
                            },
                            None => {
                                if k < i {
                                    assert(after[k] == before.targets[k]);
                                } else {
                                    assert(after[k] == before.targets[k + 1]);
                                }
                            },
                        }
                    }
                }
            },
        }
    }
}

/// The survivors of a volley are drawn from its shots, and the targets it
/// leaves from its targets: a volley brings no identifier into play.
pub proof fn lemma_volley_draws<A: Solid, B: Solid>(shots: Seq<A>, targets: Seq<B>, damaging: bool)
    ensures
        drawn_from(volley(shots, targets, damaging).survivors, shots),
        drawn_from(volley(shots, targets, damaging).targets, targets),
    decreases shots.len(),
{
    lemma_volley_origin(shots, targets, damaging);
    if shots.len() == 0 {
        assert forall|i: int| 0 <= i < targets.len() implies has_ident(
            targets,
            (#[trigger] targets[i]).ident(),
        ) by {}
    } else {
        let before = volley(shots.drop_last(), targets, damaging);
        lemma_volley_draws(shots.drop_last(), targets, damaging);
        match first_hit(shots.last(), before.targets) {
            None => {},
            Some(i) => {
                assert(is_first_hit(shots.last(), before.targets, i));
                let after = after_hit(before.targets, i, damaging);
                before.targets[i].lemma_struck_keeps_ident();
                assert forall|k: int| 0 <= k < after.len() implies has_ident(
                    targets,
                    (#[trigger] after[k]).ident(),
                ) by {
                    let from = if damaging && before.targets[i].struck() is None && k >= i {
                        k + 1
                    } else {
                        k
                    };
                    assert(after[k].ident() == before.targets[from].ident());
                    assert(has_ident(targets, before.targets[from].ident()));
                }
            },
        }
    }
}

/// The survivors of a volley keep the numbering of the shots.
pub proof fn lemma_survivors_keep_numbering<A: Solid, B: Solid>(
    shots: Seq<A>,
    targets: Seq<B>,
    damaging: bool,
    bound: int,
)
    requires
        numbered_below(shots, bound),
    ensures
        numbered_below(volley(shots, targets, damaging).survivors, bound),
    decreases shots.len(),
{
    if shots.len() > 0 {
        let init = shots.drop_last();
        let last = shots.last();
        let before = volley(init, targets, damaging);
        let after = volley(shots, targets, damaging);
        assert(last == shots[shots.len() - 1]);
        assert(numbered_below(init, last.ident() as int)) by {
            assert forall|i: int| 0 <= i < init.len() implies (#[trigger] init[i]).ident()
                < last.ident() by {
                assert(init[i] == shots[i]);
            }
            assert forall|i: int, j: int| 0 <= i < j < init.len() implies (#[trigger] init[i]).ident()
                < (#[trigger] init[j]).ident() by {
                assert(init[i] == shots[i] && init[j] == shots[j]);
            }
        }
        lemma_survivors_keep_numbering(init, targets, damaging, last.ident() as int);
        assert forall|i: int| 0 <= i < after.survivors.len() implies (#[trigger] after.survivors[i]).ident()
            < bound by {
            if i < before.survivors.len() {
                assert(after.survivors[i] == before.survivors[i]);
            }
        }
        assert forall|i: int, j: int| 0 <= i < j < after.survivors.len() implies (
        #[trigger] after.survivors[i]).ident() < (#[trigger] after.survivors[j]).ident() by {
            assert(after.survivors[i] == before.survivors[i]);
            if j < before.survivors.len() {
                assert(after.survivors[j] == before.survivors[j]);
            }
        }
    }
}

/// The targets that a volley leaves keep the numbering they had.
pub proof fn lemma_targets_keep_numbering<A: Solid, B: Solid>(
    shots: Seq<A>,
    targets: Seq<B>,
    damaging: bool,
    bound: int,
)
    requires
        numbered_below(targets, bound),
    ensures
        numbered_below(volley(shots, targets, damaging).targets, bound),
    decreases shots.len(),
{
    if shots.len() > 0 {
        let before = volley(shots.drop_last(), targets, damaging);
        lemma_targets_keep_numbering(shots.drop_last(), targets, damaging, bound);
        match first_hit(shots.last(), before.targets) {
            None => {},
            Some(i) => {
                assert(is_first_hit(shots.last(), before.targets, i));
                let old_targets = before.targets;
                let after = after_hit(old_targets, i, damaging);
                old_targets[i].lemma_struck_keeps_ident();
                if damaging {
                    match old_targets[i].struck() {
                        Some(left) => {
                            assert forall|k: int| 0 <= k < after.len() implies (#[trigger] after[k]).ident()
                                == old_targets[k].ident() by {}
                            assert forall|k: int| 0 <= k < after.len() implies (#[trigger] after[k]).ident()
                                < bound by {
                                assert(old_targets[k].ident() < bound);
                            }
                            assert forall|k: int, l: int| 0 <= k < l < after.len() implies (
                            #[trigger] after[k]).ident() < (#[trigger] after[l]).ident() by {
                                assert(old_targets[k].ident() < old_targets[l].ident());
                            }
                        },
                        None => {
                            assert forall|k: int| 0 <= k < after.len() implies (#[trigger] after[k]).ident()
                                < bound by {
                                if k < i {
                                    assert(after[k] == old_targets[k]);
                                } else {
                                    assert(after[k] == old_targets[k + 1]);
                                }
                            }
                            assert forall|k: int, l: int| 0 <= k < l < after.len() implies (
                            #[trigger] after[k]).ident() < (#[trigger] after[l]).ident() by {
                                let a = if k < i { k } else { k + 1 };
                                let b = if l < i { l } else { l + 1 };
                                assert(after[k] == old_targets[a]);
                                assert(after[l] == old_targets[b]);
                            }
                        },
                    }
                }
            },
        }
    }
}

/// Whether no two of `shots` share an identifier.
pub open spec fn distinct_idents<A: Solid>(shots: Seq<A>) -> bool {
    forall|i: int, j: int|
        0 <= i < j < shots.len() ==> (#[trigger] shots[i]).ident() != (#[trigger] shots[j]).ident()
}

/// Shots that stand in the order of their identifiers have distinct
/// identifiers.
pub proof fn lemma_numbered_is_distinct<A: Solid>(shots: Seq<A>, bound: int)
    requires
        numbered_below(shots, bound),
    ensures
        distinct_idents(shots),
{
}

/// Every hit and every survivor of a volley goes back to one of its shots.
pub proof fn lemma_volley_origin<A: Solid, B: Solid>(shots: Seq<A>, targets: Seq<B>, damaging: bool)
    ensures
        forall|i: int|
            0 <= i < volley(shots, targets, damaging).hits.len() ==> has_ident(
                shots,
                (#[trigger] volley(shots, targets, damaging).hits[i]).shot,
            ),
        forall|i: int|
            0 <= i < volley(shots, targets, damaging).survivors.len() ==> has_ident(
                shots,
                (#[trigger] volley(shots, targets, damaging).survivors[i]).ident(),
            ),
    decreases shots.len(),
{
    if shots.len() > 0 {
        let init = shots.drop_last();
        let before = volley(init, targets, damaging);
        let after = volley(shots, targets, damaging);
        lemma_volley_origin(init, targets, damaging);
        assert forall|id: u64| has_ident(init, id) implies has_ident(shots, id) by {
            let k = choose|k: int| 0 <= k < init.len() && (#[trigger] init[k]).ident() == id;
            assert(shots[k] == init[k]);
        }
        assert(has_ident(shots, shots.last().ident())) by {
            assert(shots[shots.len() - 1].ident() == shots.last().ident());
        }
        assert forall|i: int| 0 <= i < after.hits.len() implies has_ident(
            shots,
            (#[trigger] after.hits[i]).shot,
        ) by {
            if i < before.hits.len() {
                assert(after.hits[i] == before.hits[i]);
            }
        }
        assert forall|i: int| 0 <= i < after.survivors.len() implies has_ident(
            shots,
            (#[trigger] after.survivors[i]).ident(),
        ) by {
            if i < before.survivors.len() {
                assert(after.survivors[i] == before.survivors[i]);
            }
        }
    }
}

/// Resolution is at most once per shot: every shot either survives or
/// registers exactly one hit, and where the shots have distinct identifiers,
/// no two hits name the same shot and no shot that registered a hit is still
/// among the survivors.
pub proof fn lemma_one_hit_per_shot<A: Solid, B: Solid>(
    shots: Seq<A>,
    targets: Seq<B>,
    damaging: bool,
)
    ensures
        volley(shots, targets, damaging).survivors.len() + volley(
            shots,
            targets,
            damaging,
        ).hits.len() == shots.len(),
        distinct_idents(shots) ==> forall|i: int, j: int|
            0 <= i < j < volley(shots, targets, damaging).hits.len() ==> (#[trigger] volley(
                shots,
                targets,
                damaging,
            ).hits[i]).shot != (#[trigger] volley(shots, targets, damaging).hits[j]).shot,
        distinct_idents(shots) ==> forall|i: int, j: int|
            0 <= i < volley(shots, targets, damaging).survivors.len() && 0 <= j < volley(
                shots,
                targets,
                damaging,
            ).hits.len() ==> (#[trigger] volley(shots, targets, damaging).survivors[i]).ident()
                != (#[trigger] volley(shots, targets, damaging).hits[j]).shot,
    decreases shots.len(),
{
    if shots.len() > 0 {
        let init = shots.drop_last();
        let last = shots.last();
        let before = volley(init, targets, damaging);
        let after = volley(shots, targets, damaging);
        lemma_one_hit_per_shot(init, targets, damaging);
        lemma_volley_origin(init, targets, damaging);
        if distinct_idents(shots) {
            assert(distinct_idents(init)) by {
                assert forall|i: int, j: int| 0 <= i < j < init.len() implies (#[trigger] init[i]).ident()
                    != (#[trigger] init[j]).ident() by {
                    assert(init[i] == shots[i] && init[j] == shots[j]);
                }
            }
            assert forall|id: u64| has_ident(init, id) implies id != last.ident() by {
                let k = choose|k: int| 0 <= k < init.len() && (#[trigger] init[k]).ident() == id;
                assert(shots[k] == init[k]);
                assert(shots[shots.len() - 1] == last);
            }
            assert forall|i: int, j: int| 0 <= i < j < after.hits.len() implies (#[trigger] after.hits[i]).shot
                != (#[trigger] after.hits[j]).shot by {
                if j < before.hits.len() {
                    assert(after.hits[i] == before.hits[i]);
                    assert(after.hits[j] == before.hits[j]);
                } else {
                    assert(after.hits[i] == before.hits[i]);
                    assert(has_ident(init, before.hits[i].shot));
                }
            }
            assert forall|i: int, j: int|
                0 <= i < after.survivors.len() && 0 <= j < after.hits.len() implies (
            #[trigger] after.survivors[i]).ident() != (#[trigger] after.hits[j]).shot by {
                if i < before.survivors.len() {
                    assert(after.survivors[i] == before.survivors[i]);
                    assert(has_ident(init, before.survivors[i].ident()));
                    if j < before.hits.len() {
                        assert(after.hits[j] == before.hits[j]);
                    }
                } else {
                    assert(after.hits[j] == before.hits[j]);
                    assert(has_ident(init, before.hits[j].shot));
                }
            }
        }
    }
}

/// A shot that hit its first kind of target is not held against the second:
/// where the shots have distinct identifiers, no shot registers a hit in
/// both of two volleys of which the second is fired by the survivors of the
/// first.
pub proof fn lemma_one_hit_across_volleys<A: Solid, B: Solid, C: Solid>(
    shots: Seq<A>,
    first: Seq<B>,
    second: Seq<C>,
    damaging_first: bool,
    damaging_second: bool,
)
    requires
        distinct_idents(shots),
    ensures
        forall|i: int, j: int|
            0 <= i < volley(shots, first, damaging_first).hits.len() && 0 <= j < volley(
                volley(shots, first, damaging_first).survivors,
                second,
                damaging_second,
            ).hits.len() ==> (#[trigger] volley(shots, first, damaging_first).hits[i]).shot != (
            #[trigger] volley(
                volley(shots, first, damaging_first).survivors,
                second,
                damaging_second,
            ).hits[j]).shot,
{
    let one = volley(shots, first, damaging_first);
    let two = volley(one.survivors, second, damaging_second);
    lemma_one_hit_per_shot(shots, first, damaging_first);
    lemma_volley_origin(one.survivors, second, damaging_second);
    assert forall|i: int, j: int| 0 <= i < one.hits.len() && 0 <= j < two.hits.len() implies (
    #[trigger] one.hits[i]).shot != (#[trigger] two.hits[j]).shot by {
        assert(has_ident(one.survivors, two.hits[j].shot));
        let k = choose|k: int|
            0 <= k < one.survivors.len() && (#[trigger] one.survivors[k]).ident()
                == two.hits[j].shot;
        assert(one.survivors[k].ident() != one.hits[i].shot);
    }
}

} // verus!
