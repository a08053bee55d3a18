//! The entities of the simulation.
//!
//! Every entity carries the identifier it was registered under, its position
//! and its bounding box. [`Solid`] is what the overlap resolver needs to know
//! of an entity, whatever its kind.

use vstd::prelude::*;
use crate::geometry::{BoundingBox, Position};

verus! {

/// Hitpoints of a freshly built castle.
pub const CASTLE_HITPOINTS: u32 = 2;

/// The kinds of entity.
#[derive(Clone, Copy, Debug, PartialEq, Eq, Structural)]
pub enum Kind {
    Player,
    Bullet,
    EnemyBullet,
    Castle,
    Enemy,
}

/// The player's ship.
#[derive(Clone, Copy, Debug, PartialEq, Eq, Structural)]
pub struct Player {
    pub id: u64,
    pub position: Position,
    pub bounding_box: BoundingBox,
}

/// A shot fired by the player. `speed` is in pixels per second, upwards.
#[derive(Clone, Copy, Debug, PartialEq, Eq, Structural)]
pub struct Bullet {
    pub id: u64,
    pub position: Position,
    pub bounding_box: BoundingBox,
    pub speed: i64,
}

/// A shot fired by an enemy. `speed` is in pixels per second, downwards.
#[derive(Clone, Copy, Debug, PartialEq, Eq, Structural)]
pub struct EnemyBullet {
    pub id: u64,
    pub position: Position,
    pub bounding_box: BoundingBox,
    pub speed: i64,
}

/// A shelter between the player and the formation.
#[derive(Clone, Copy, Debug, PartialEq, Eq, Structural)]
pub struct Castle {
    pub id: u64,
    pub position: Position,
    pub bounding_box: BoundingBox,
    pub hitpoints: u32,
}

/// One member of the formation. `level` is its row, 1 being the front row.
#[derive(Clone, Copy, Debug, PartialEq, Eq, Structural)]
pub struct Enemy {
    pub id: u64,
    pub position: Position,
    pub bounding_box: BoundingBox,
    pub level: u32,
    pub is_dead: bool,
}

/// What the overlap resolver reads of an entity.
pub trait Solid: Sized {
    /// The identifier the entity is registered under.
    spec fn ident(&self) -> u64;

    /// The centre of the entity's box.
    spec fn center(&self) -> Position;

    /// The half extents of the entity's box.
    spec fn extent(&self) -> BoundingBox;

    /// Whether a shot can hit the entity at all.
    spec fn tangible(&self) -> bool;

    /// What is left of the entity after a damaging hit; `None` when the hit
    /// destroys it.
    spec fn struck(&self) -> Option<Self>;

    fn id_of(&self) -> (r: u64)
        ensures
            r == self.ident(),
    ;

    fn center_of(&self) -> (r: Position)
        ensures
            r == self.center(),
    ;

    fn extent_of(&self) -> (r: BoundingBox)
        ensures
            r == self.extent(),
    ;

    fn is_tangible(&self) -> (r: bool)
        ensures
            r == self.tangible(),
    ;

    fn take_hit(&self) -> (r: Option<Self>)
        ensures
            r == self.struck(),
    ;

    /// A hit that leaves the entity standing leaves it its identifier.
    proof fn lemma_struck_keeps_ident(&self)
        ensures
            self.struck() matches Some(left) ==> left.ident() == self.ident(),
    ;
}

/// Whether `items` stand in the order of their identifiers, no identifier
/// twice, and every identifier is below `bound`.
pub open spec fn numbered_below<A: Solid>(items: Seq<A>, bound: int) -> bool {
    &&& forall|i: int, j: int|
        0 <= i < j < items.len() ==> (#[trigger] items[i]).ident() < (#[trigger] items[j]).ident()
    &&& forall|i: int| 0 <= i < items.len() ==> (#[trigger] items[i]).ident() < bound
}

/// Whether one of `items` is registered under `id`.
pub open spec fn has_ident<A: Solid>(items: Seq<A>, id: u64) -> bool {
    exists|k: int| 0 <= k < items.len() && (#[trigger] items[k]).ident() == id
}

/// Whether no entity of `these` shares its identifier with one of `those`.
pub open spec fn apart<A: Solid, B: Solid>(these: Seq<A>, those: Seq<B>) -> bool {
    forall|i: int, j: int|
        0 <= i < these.len() && 0 <= j < those.len() ==> (#[trigger] these[i]).ident() != (
        #[trigger] those[j]).ident()
}

/// Whether every entity of `after` has the identifier of one of `before`.
pub open spec fn drawn_from<A: Solid>(after: Seq<A>, before: Seq<A>) -> bool {
    forall|i: int| 0 <= i < after.len() ==> has_ident(before, (#[trigger] after[i]).ident())
}

/// What is drawn from collections that share no identifier shares none.
pub proof fn lemma_drawn_stay_apart<A: Solid, B: Solid>(
    these: Seq<A>,
    from_these: Seq<A>,
    those: Seq<B>,
    from_those: Seq<B>,
)
    requires
        apart(from_these, from_those),
        drawn_from(these, from_these),
        drawn_from(those, from_those),
    ensures
        apart(these, those),
{
    assert forall|i: int, j: int| 0 <= i < these.len() && 0 <= j < those.len() implies (
    #[trigger] these[i]).ident() != (#[trigger] those[j]).ident() by {
        assert(has_ident(from_these, these[i].ident()));
        assert(has_ident(from_those, those[j].ident()));
        let a = choose|k: int|
            0 <= k < from_these.len() && (#[trigger] from_these[k]).ident() == these[i].ident();
        let b = choose|k: int|
            0 <= k < from_those.len() && (#[trigger] from_those[k]).ident() == those[j].ident();
        assert(from_these[a].ident() != from_those[b].ident());
    }
}

/// What is drawn from what is drawn from a collection is drawn from it.
pub proof fn lemma_drawn_from_drawn<A: Solid>(last: Seq<A>, middle: Seq<A>, first: Seq<A>)
    requires
        drawn_from(last, middle),
        drawn_from(middle, first),
    ensures
        drawn_from(last, first),
{
    assert forall|i: int| 0 <= i < last.len() implies has_ident(
        first,
        (#[trigger] last[i]).ident(),
    ) by {
        assert(has_ident(middle, last[i].ident()));
        let k = choose|k: int|
            0 <= k < middle.len() && (#[trigger] middle[k]).ident() == last[i].ident();
        assert(has_ident(first, middle[k].ident()));
    }
}

/// Every collection is drawn from itself.
pub proof fn lemma_drawn_from_itself<A: Solid>(items: Seq<A>)
    ensures
        drawn_from(items, items),
{
    assert forall|i: int| 0 <= i < items.len() implies has_ident(
        items,
        (#[trigger] items[i]).ident(),
    ) by {}
}

/// The identifiers of `items`, in their order.
pub open spec fn idents_of<A: Solid>(items: Seq<A>) -> Seq<u64> {
    Seq::new(items.len(), |i: int| items[i].ident())
}

/// Lists the identifiers of `items`, in their order.
pub fn idents<A: Solid>(items: &Vec<A>) -> (ids: Vec<u64>)
    ensures
        ids@ == idents_of(items@),
{
    let mut ids: Vec<u64> = Vec::new();
    let mut i: usize = 0;
    while i < items.len()
        invariant
            i <= items.len(),
            ids@ == idents_of(items@.take(i as int)),
        decreases items.len() - i,
    {
        ids.push(items[i].id_of());
        assert(ids@ =~= idents_of(items@.take(i + 1)));
        i = i + 1;
    }
    assert(items@.take(i as int) =~= items@);
    ids
}

impl Solid for Player {
    open spec fn ident(&self) -> u64 {
        self.id
    }

    open spec fn center(&self) -> Position {
        self.position
    }

    open spec fn extent(&self) -> BoundingBox {
        self.bounding_box
    }

    open spec fn tangible(&self) -> bool {
        true
    }

    /// A hit costs a life, not the ship: the ship itself is unchanged.
    open spec fn struck(&self) -> Option<Self> {
        Some(*self)
    }

    proof fn lemma_struck_keeps_ident(&self) {
    }

    fn id_of(&self) -> (r: u64) {
        self.id
    }

    fn center_of(&self) -> (r: Position) {
        self.position
    }

    fn extent_of(&self) -> (r: BoundingBox) {
        self.bounding_box
    }

    fn is_tangible(&self) -> (r: bool) {
        true
    }

    fn take_hit(&self) -> (r: Option<Self>) {
        Some(*self)
    }
}

impl Solid for Bullet {
    open spec fn ident(&self) -> u64 {
        self.id
    }

    open spec fn center(&self) -> Position {
        self.position
    }

    open spec fn extent(&self) -> BoundingBox {
        self.bounding_box
    }

    open spec fn tangible(&self) -> bool {
        true
    }

    open spec fn struck(&self) -> Option<Self> {
        None
    }

    proof fn lemma_struck_keeps_ident(&self) {
    }

    fn id_of(&self) -> (r: u64) {
        self.id
    }

    fn center_of(&self) -> (r: Position) {
        self.position
    }

    fn extent_of(&self) -> (r: BoundingBox) {
        self.bounding_box
    }

    fn is_tangible(&self) -> (r: bool) {
        true
    }

    fn take_hit(&self) -> (r: Option<Self>) {
        None
    }
}

impl Solid for EnemyBullet {
    open spec fn ident(&self) -> u64 {
        self.id
    }

    open spec fn center(&self) -> Position {
        self.position
    }

    open spec fn extent(&self) -> BoundingBox {
        self.bounding_box
    }

    open spec fn tangible(&self) -> bool {
        true
    }

    open spec fn struck(&self) -> Option<Self> {
        None
    }

    proof fn lemma_struck_keeps_ident(&self) {
    }

    fn id_of(&self) -> (r: u64) {
        self.id
    }

    fn center_of(&self) -> (r: Position) {
        self.position
    }

    fn extent_of(&self) -> (r: BoundingBox) {
        self.bounding_box
    }

    fn is_tangible(&self) -> (r: bool) {
        true
    }

    fn take_hit(&self) -> (r: Option<Self>) {
        None
    }
}

impl Solid for Castle {
    open spec fn ident(&self) -> u64 {
        self.id
    }

    open spec fn center(&self) -> Position {
        self.position
    }

    open spec fn extent(&self) -> BoundingBox {
        self.bounding_box
    }

    open spec fn tangible(&self) -> bool {
        true
    }

    /// A hit takes one hitpoint; the castle falls when none is left.
    open spec fn struck(&self) -> Option<Self> {
        if self.hitpoints > 1 {
            Some(Castle { hitpoints: (self.hitpoints - 1) as u32, ..*self })
        } else {
            None
        }
    }

    proof fn lemma_struck_keeps_ident(&self) {
    }

    fn id_of(&self) -> (r: u64) {
        self.id
    }

    fn center_of(&self) -> (r: Position) {
        self.position
    }

    fn extent_of(&self) -> (r: BoundingBox) {
        self.bounding_box
    }

    fn is_tangible(&self) -> (r: bool) {
        true
    }

    fn take_hit(&self) -> (r: Option<Self>) {
        if self.hitpoints > 1 {
            Some(
                Castle {
                    id: self.id,
                    position: self.position,
                    bounding_box: self.bounding_box,
                    hitpoints: self.hitpoints - 1,
                },
            )
        } else {
            None
        }
    }
}

impl Solid for Enemy {
    open spec fn ident(&self) -> u64 {
        self.id
    }

    open spec fn center(&self) -> Position {
        self.position
    }

    open spec fn extent(&self) -> BoundingBox {
        self.bounding_box
    }

    /// Only a live enemy can be hit.
    open spec fn tangible(&self) -> bool {
        !self.is_dead
    }

    open spec fn struck(&self) -> Option<Self> {
        None
    }

    proof fn lemma_struck_keeps_ident(&self) {
    }

    fn id_of(&self) -> (r: u64) {
        self.id
    }

    fn center_of(&self) -> (r: Position) {
        self.position
    }

    fn extent_of(&self) -> (r: BoundingBox) {
        self.bounding_box
    }

    fn is_tangible(&self) -> (r: bool) {
        !self.is_dead
    }

    fn take_hit(&self) -> (r: Option<Self>) {
        None
    }
}

} // verus!
