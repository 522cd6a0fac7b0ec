//! The entities of one floor: the hero, the monsters and the items lying on
//! the ground, plus the map queries the turn logic needs.

use vstd::prelude::*;
use crate::combat::ai::in_coord_range;
use crate::components::{
    Ai, Equipment, Health, Inventory, Item, ItemKind, Mana, Renderable, Stats, TilePos, Viewshed,
};
use crate::procgen::dungeon::{Dungeon, Tile, passable_tile, tile_at};

verus! {

/// Width of every floor, in tiles.
pub const MAP_W: i32 = 60;
/// Height of every floor, in tiles.
pub const MAP_H: i32 = 24;
/// Sight radius of the hero, in tiles.
pub const VIEW_RADIUS: i32 = 5;
/// Inventory slots of the hero.
pub const INVENTORY_MAX: usize = 8;
/// Floors in a run.
pub const MAX_FLOORS: u32 = 8;
/// The floor that holds the boss.
pub const BOSS_FLOOR: u32 = MAX_FLOORS;

/// A monster on the floor.
#[derive(Clone, Debug)]
pub struct Monster {
    pub pos: TilePos,
    pub look: Renderable,
    pub health: Health,
    pub stats: Stats,
    pub ai: Ai,
    pub name: String,
}

/// An item lying on the ground.
#[derive(Clone, Debug)]
pub struct GroundItem {
    pub pos: TilePos,
    pub item: Item,
}

/// The player's character.
#[derive(Clone, Debug)]
pub struct Hero {
    pub pos: TilePos,
    pub look: Renderable,
    pub health: Health,
    pub mana: Mana,
    pub stats: Stats,
    pub inventory: Inventory,
    pub equipment: Equipment,
    pub viewshed: Viewshed,
    pub name: String,
}

/// Everything that lives on a floor.
#[derive(Clone, Debug)]
pub struct World {
    pub hero: Hero,
    pub monsters: Vec<Monster>,
    pub items: Vec<GroundItem>,
}

/// Item strengths stay within a quarter of `i32` either way; a potion's is
/// never negative (it restores its pool).
pub open spec fn item_ok(it: Item) -> bool {
    &&& -0x4000_0000 <= it.bonus <= 0x4000_0000
    &&& (it.kind == ItemKind::HealthPotion || it.kind == ItemKind::ManaPotion ==> it.bonus >= 0)
}

/// Every occupied slot holds a well-sized item.
pub open spec fn slots_ok(s: Seq<Option<Item>>) -> bool {
    forall|i: int| 0 <= i < s.len() ==> (#[trigger] s[i] matches Some(it) ==> item_ok(it))
}

/// Stats within which attack arithmetic cannot overflow.
pub open spec fn stats_ok(s: Stats) -> bool {
    &&& -0x0100_0000 <= s.strength <= 0x0100_0000
    &&& -0x0100_0000 <= s.dexterity <= 0x0100_0000
    &&& -0x0100_0000 <= s.constitution <= 0x0100_0000
    &&& -0x4000_0000 <= s.attack_bonus <= 0x4000_0000
}

pub open spec fn monster_ok(m: Monster) -> bool {
    &&& in_coord_range(m.pos)
    &&& stats_ok(m.stats)
}

pub open spec fn ground_ok(g: GroundItem) -> bool {
    in_coord_range(g.pos) && item_ok(g.item)
}

impl Hero {
    pub open spec fn wf(&self) -> bool {
        &&& in_coord_range(self.pos)
        &&& stats_ok(self.stats)
        &&& 1 <= self.inventory.max <= 0x1000
        &&& self.inventory.slots@.len() == self.inventory.max
        &&& slots_ok(self.inventory.slots@)
    }
}

impl World {
    pub open spec fn wf(&self) -> bool {
        &&& self.hero.wf()
        &&& forall|i: int| 0 <= i < self.monsters@.len() ==> monster_ok(#[trigger] self.monsters@[i])
        &&& forall|i: int| 0 <= i < self.items@.len() ==> ground_ok(#[trigger] self.items@[i])
    }
}

/// Some monster stands on `p`.
pub open spec fn monster_on(ms: Seq<Monster>, p: TilePos) -> bool {
    exists|j: int| 0 <= j < ms.len() && (#[trigger] ms[j]).pos == p
}

/// Some item lies on `p`.
pub open spec fn item_on(items: Seq<GroundItem>, p: TilePos) -> bool {
    exists|j: int| 0 <= j < items.len() && (#[trigger] items[j]).pos == p
}

/// An entity of any kind (hero, monster or item) occupies `p`.
pub open spec fn occupied(w: World, p: TilePos) -> bool {
    w.hero.pos == p || monster_on(w.monsters@, p) || item_on(w.items@, p)
}

/// Index of the first monster standing on `p`.
pub open spec fn is_first_monster_at(ms: Seq<Monster>, p: TilePos, i: int) -> bool {
    &&& 0 <= i < ms.len()
    &&& ms[i].pos == p
    &&& forall|j: int| 0 <= j < i ==> (#[trigger] ms[j]).pos != p
}

/// The first monster standing on `pos`, if any.
pub fn monster_at(monsters: &Vec<Monster>, pos: TilePos) -> (r: Option<usize>)
    ensures
        match r {
            Some(i) => is_first_monster_at(monsters@, pos, i as int),
            None => !monster_on(monsters@, pos),
        },
{
    let n = monsters.len();
    let mut i: usize = 0;
    while i < n
        invariant
            n == monsters@.len(),
            i <= n,
            forall|j: int| 0 <= j < i ==> (#[trigger] monsters@[j]).pos != pos,
        decreases n - i,
    {
        if monsters[i].pos == pos {
            return Some(i);
        }
        i = i + 1;
    }
    None
}

/// Is some item lying on `pos`?
pub fn item_lies_at(items: &Vec<GroundItem>, pos: TilePos) -> (r: bool)
    ensures
        r == item_on(items@, pos),
{
    let n = items.len();
    let mut i: usize = 0;
    while i < n
        invariant
            n == items@.len(),
            i <= n,
            forall|j: int| 0 <= j < i ==> (#[trigger] items@[j]).pos != pos,
        decreases n - i,
    {
        if items[i].pos == pos {
            return true;
        }
        i = i + 1;
    }
    false
}

impl World {
    /// Does the hero, a monster or an item occupy `pos`?
    pub fn is_occupied(&self, pos: TilePos) -> (r: bool)
        ensures
            r == occupied(*self, pos),
    {
        if self.hero.pos == pos {
            return true;
        }
        match monster_at(&self.monsters, pos) {
            Some(_) => true,
            None => item_lies_at(&self.items, pos),
        }
    }
}

/// Can the tile at `(x, y)` be walked on? Floors and stairs can; anything
/// outside the map cannot.
pub fn is_passable(d: &Dungeon, x: i32, y: i32) -> (r: bool)
    requires
        d.wf(),
    ensures
        r == passable_tile(tile_at(d.width as int, d.height as int, d.tiles@, x as int, y as int)),
{
    d.at(x, y).is_passable()
}

/// Sight blockers of a map: every cell that is not plain floor.
pub open spec fn blocks_of(tiles: Seq<Tile>) -> Seq<bool> {
    tiles.map_values(|t: Tile| t != Tile::Floor)
}

/// One flag per cell, `true` where the tile blocks sight (anything but floor).
pub fn build_blocks(d: &Dungeon) -> (b: Vec<bool>)
    requires
        d.wf(),
    ensures
        b@ == blocks_of(d.tiles@),
{
    let n = d.tiles.len();
    let mut b: Vec<bool> = Vec::new();
    let mut i: usize = 0;
    while i < n
        invariant
            n == d.tiles@.len(),
            i <= n,
            b@ == blocks_of(d.tiles@.take(i as int)),
        decreases n - i,
    {
        b.push(d.tiles[i] != Tile::Floor);
        i = i + 1;
        assert(b@ =~= blocks_of(d.tiles@.take(i as int)));
    }
    assert(d.tiles@.take(n as int) =~= d.tiles@);
    b
}

} // verus!
