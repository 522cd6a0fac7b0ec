//! Positions, directions and the game data that entities carry.

use vstd::prelude::*;
use crate::text::{decimal_text, push_decimal};

verus! {

/// World coordinate (tile, not pixel).
#[derive(Copy, Clone, Debug, Default, PartialEq, Eq, Structural, Hash)]
pub struct TilePos(pub i32, pub i32);

impl TilePos {
    pub fn new(x: i32, y: i32) -> (r: Self)
        ensures
            r == TilePos(x, y),
    {
        TilePos(x, y)
    }

    pub fn x(&self) -> (r: i32)
        ensures
            r == self.0,
    {
        self.0
    }

    pub fn y(&self) -> (r: i32)
        ensures
            r == self.1,
    {
        self.1
    }
}

/// 8-direction movement delta (vim hjkl cardinals, yubn diagonals).
///
///   h = (-1, 0)  j = (0, 1)  k = (0, -1)  l = (1, 0)
///   y = (-1, -1) u = (1, -1) b = (-1, 1)  n = (1, 1)
#[derive(Copy, Clone, Debug, PartialEq, Eq, Structural, Hash)]
pub enum Direction {
    Up,
    Down,
    Left,
    Right,
    UpLeft,
    UpRight,
    DownLeft,
    DownRight,
    Stay,
}

/// The (dx, dy) step of a direction.
pub open spec fn delta_of(d: Direction) -> (int, int) {
    match d {
        Direction::Up => (0, -1),
        Direction::Down => (0, 1),
        Direction::Left => (-1, 0),
        Direction::Right => (1, 0),
        Direction::UpLeft => (-1, -1),
        Direction::UpRight => (1, -1),
        Direction::DownLeft => (-1, 1),
        Direction::DownRight => (1, 1),
        Direction::Stay => (0, 0),
    }
}

/// The eight moving directions, clockwise from `Up`.
pub open spec fn eight_spec() -> Seq<Direction> {
    seq![
        Direction::Up,
        Direction::UpRight,
        Direction::Right,
        Direction::DownRight,
        Direction::Down,
        Direction::DownLeft,
        Direction::Left,
        Direction::UpLeft,
    ]
}

impl Direction {
    /// The eight moving directions, clockwise from `Up`.
    pub fn eight() -> (r: [Direction; 8])
        ensures
            r@ == eight_spec(),
    {
        let r = [
            Direction::Up,
            Direction::UpRight,
            Direction::Right,
            Direction::DownRight,
            Direction::Down,
            Direction::DownLeft,
            Direction::Left,
            Direction::UpLeft,
        ];
        assert(r@ =~= eight_spec());
        r
    }

    pub fn delta(self) -> (r: (i32, i32))
        ensures
            r.0 == delta_of(self).0,
            r.1 == delta_of(self).1,
    {
        match self {
            Direction::Up => (0, -1),
            Direction::Down => (0, 1),
            Direction::Left => (-1, 0),
            Direction::Right => (1, 0),
            Direction::UpLeft => (-1, -1),
            Direction::UpRight => (1, -1),
            Direction::DownLeft => (-1, 1),
            Direction::DownRight => (1, 1),
            Direction::Stay => (0, 0),
        }
    }
}


/// Game tick (turn counter).
#[derive(Copy, Clone, Debug, Default, PartialEq, Eq, Structural)]
pub struct Tick(pub u64);

/// Energy unit: entities gain energy each tick and act when full.
#[derive(Copy, Clone, Debug, Default, PartialEq, Eq, Structural)]
pub struct Energy(pub i32);

/// Energy required to spend a turn.
pub const ENERGY_PER_TURN: i32 = 100;

impl Energy {
    /// Adds `by`, flooring the total at 0.
    pub fn gain(&mut self, by: i32)
        requires
            i32::MIN <= old(self).0 + by <= i32::MAX,
        ensures
            final(self).0 == if old(self).0 + by < 0 { 0 } else { old(self).0 + by },
    {
        let v = self.0 + by;
        self.0 = if v < 0 { 0 } else { v };
    }

    /// Pays one turn's worth of energy, flooring the total at 0.
    pub fn spend_turn(&mut self)
        requires
            old(self).0 - ENERGY_PER_TURN >= i32::MIN,
        ensures
            final(self).0 == if old(self).0 - ENERGY_PER_TURN < 0 { 0 } else { old(self).0 - ENERGY_PER_TURN },
    {
        let v = self.0 - ENERGY_PER_TURN;
        self.0 = if v < 0 { 0 } else { v };
    }
}

/// Position in dungeon tile coordinates.
#[derive(Copy, Clone, Debug, Default, PartialEq, Eq, Structural, Hash)]
pub struct Position(pub TilePos);

/// Glyph and colour of an entity (24-bit RGB packed into `u32`).
#[derive(Copy, Clone, Debug, PartialEq, Eq, Structural)]
pub struct Renderable {
    pub glyph: char,
    pub fg_rgb: u32,
}

impl Renderable {
    pub fn new(glyph: char, fg_rgb: u32) -> (r: Self)
        ensures
            r == (Renderable { glyph, fg_rgb }),
    {
        Renderable { glyph, fg_rgb }
    }
}

/// Marker: blocks movement.
#[derive(Copy, Clone, Debug, Default, PartialEq, Eq, Structural)]
pub struct BlocksTile;

/// Marker: this entity is the player.
#[derive(Copy, Clone, Debug, Default, PartialEq, Eq, Structural)]
pub struct Player;

/// Marker: this entity is an enemy.
#[derive(Copy, Clone, Debug, Default, PartialEq, Eq, Structural)]
pub struct Enemy;

/// Field of view: sight radius, tiles visible now, tiles ever seen.
#[derive(Clone, Debug)]
pub struct Viewshed {
    pub range: i32,
    pub visible: Vec<TilePos>,
    pub revealed: Vec<bool>,
}

/// Number of map cells of a `width` x `height` map, negatives counting as 0.
pub open spec fn cell_count(width: i32, height: i32) -> int {
    (if width < 0 { 0int } else { width as int }) * (if height < 0 { 0int } else { height as int })
}

impl Viewshed {
    /// A viewshed with nothing visible and nothing revealed yet.
    pub fn new(range: i32, width: i32, height: i32) -> (r: Self)
        requires
            cell_count(width, height) <= usize::MAX,
        ensures
            r.range == range,
            r.visible@.len() == 0,
            r.revealed@ == Seq::new(cell_count(width, height) as nat, |i: int| false),
    {
        let w: usize = if width < 0 { 0 } else { width as usize };
        let h: usize = if height < 0 { 0 } else { height as usize };
        assert(w * h == cell_count(width, height)) by (nonlinear_arith)
            requires
                w == (if width < 0 { 0int } else { width as int }),
                h == (if height < 0 { 0int } else { height as int });
        let cap = w * h;
        let revealed = vec![false; cap];
        assert(revealed@ =~= Seq::new(cell_count(width, height) as nat, |i: int| false));
        Viewshed { range, visible: Vec::new(), revealed }
    }
}

/// Hit points. Current at 0 or below means dead.
#[derive(Copy, Clone, Debug, Default, PartialEq, Eq, Structural)]
pub struct Health {
    pub current: i32,
    pub max: i32,
}

/// Damage actually dealt by `take(dmg)` to a pool holding `current`.
pub open spec fn dealt_damage(current: int, dmg: int) -> int {
    let d = if dmg < 0 { 0 } else { dmg };
    if d < current { d } else { current }
}

impl Health {
    pub fn new(max: i32) -> (r: Self)
        ensures
            r.current == max,
            r.max == max,
    {
        Health { current: max, max }
    }

    pub fn is_dead(&self) -> (r: bool)
        ensures
            r == (self.current <= 0),
    {
        self.current <= 0
    }

    /// Deals `dmg` (negative counts as 0), never more than the current pool.
    /// Returns the damage dealt.
    pub fn take(&mut self, dmg: i32) -> (dealt: i32)
        ensures
            dealt == dealt_damage(old(self).current as int, dmg as int),
            final(self).current == old(self).current - dealt,
            final(self).max == old(self).max,
    {
        let d = if dmg < 0 { 0 } else { dmg };
        let dealt = if d < self.current { d } else { self.current };
        self.current = self.current - dealt;
        dealt
    }
}

/// Mana (magic resource).
#[derive(Copy, Clone, Debug, Default, PartialEq, Eq, Structural)]
pub struct Mana {
    pub current: i32,
    pub max: i32,
}

impl Mana {
    pub fn new(max: i32) -> (r: Self)
        ensures
            r.current == max,
            r.max == max,
    {
        Mana { current: max, max }
    }

    /// Pays `cost` if the pool holds at least that much.
    pub fn spend(&mut self, cost: i32) -> (paid: bool)
        requires
            old(self).current >= cost ==> old(self).current - cost <= i32::MAX,
        ensures
            paid == (old(self).current >= cost),
            final(self).current == if paid { old(self).current - cost } else { old(self).current as int },
            final(self).max == old(self).max,
    {
        if self.current >= cost {
            self.current = self.current - cost;
            true
        } else {
            false
        }
    }
}

/// Base stats plus the bonuses that equipment grants.
#[derive(Copy, Clone, Debug, Default, PartialEq, Eq, Structural)]
pub struct Stats {
    pub strength: i32,
    pub dexterity: i32,
    pub intellect: i32,
    pub wisdom: i32,
    pub constitution: i32,
    /// Equipment-derived bonus to outgoing attacks.
    pub attack_bonus: i32,
    /// Equipment-derived bonus to defense.
    pub defense_bonus: i32,
}

impl Stats {
    pub fn new(s: i32, d: i32, i: i32, w: i32, c: i32) -> (r: Self)
        ensures
            r == (Stats {
                strength: s,
                dexterity: d,
                intellect: i,
                wisdom: w,
                constitution: c,
                attack_bonus: 0,
                defense_bonus: 0,
            }),
    {
        Stats {
            strength: s,
            dexterity: d,
            intellect: i,
            wisdom: w,
            constitution: c,
            attack_bonus: 0,
            defense_bonus: 0,
        }
    }
}

/// How an enemy behaves on its turn.
#[derive(Copy, Clone, Debug, PartialEq, Eq, Structural)]
pub enum AiKind {
    /// Step toward the player.
    Chase,
    /// Step away from the player.
    Coward,
    /// Patrol until the player is seen, then chase.
    PatrolThenChase,
}

/// AI state of an enemy.
#[derive(Copy, Clone, Debug, PartialEq, Eq, Structural)]
pub struct Ai {
    pub kind: AiKind,
    /// Energy gained per tick.
    pub speed: i32,
    pub vision: i32,
    /// Last position at which this enemy saw the player.
    pub last_known_player: Option<TilePos>,
    /// Turns to wait before acting again.
    pub cooldown: u8,
}

impl Ai {
    pub fn new(kind: AiKind, speed: i32, vision: i32) -> (r: Self)
        ensures
            r == (Ai { kind, speed, vision, last_known_player: None, cooldown: 0 }),
    {
        Ai { kind, speed, vision, last_known_player: None, cooldown: 0 }
    }
}

/// Display name.
#[derive(Clone, Debug)]
pub struct Name(pub String);

/// Turns remaining of each status effect on an entity.
#[derive(Copy, Clone, Debug, Default, PartialEq, Eq, Structural)]
pub struct StatusEffects {
    pub poison_turns: u8,
    pub burn_turns: u8,
    pub slow_turns: u8,
    pub bleed_turns: u8,
}

/// Kind of item.
#[derive(Copy, Clone, Debug, PartialEq, Eq, Structural)]
pub enum ItemKind {
    Coin,
    HealthPotion,
    ManaPotion,
    Weapon,
    Armor,
}

/// An item on the ground or in an inventory.
#[derive(Clone, Debug)]
pub struct Item {
    pub kind: ItemKind,
    /// Korean display name.
    pub name: String,
    /// Glyph used when on the ground.
    pub glyph: char,
    /// RGB colour for ground rendering.
    pub fg_rgb: u32,
    /// Coin value, potion strength, or weapon/armor bonus.
    pub bonus: i32,
}

/// Ground glyph of each item kind.
pub open spec fn kind_glyph(k: ItemKind) -> char {
    match k {
        ItemKind::Coin => '$',
        ItemKind::HealthPotion => '!',
        ItemKind::ManaPotion => '?',
        ItemKind::Weapon => ')',
        ItemKind::Armor => '[',
    }
}

/// Ground colour of each item kind.
pub open spec fn kind_rgb(k: ItemKind) -> u32 {
    match k {
        ItemKind::Coin => 0xFF_D2_46u32,
        ItemKind::HealthPotion => 0x5A_DC_A0u32,
        ItemKind::ManaPotion => 0x5A_9C_F0u32,
        ItemKind::Weapon => 0xC8_C8_C8u32,
        ItemKind::Armor => 0xB8_B8_BCu32,
    }
}

impl Item {
    /// A pile of `n` gold coins, named "금화 n".
    pub fn gold(n: i32) -> (r: Self)
        ensures
            r.kind == ItemKind::Coin,
            r.name@ == "금화 "@ + decimal_text(n as int),
            r.glyph == kind_glyph(ItemKind::Coin),
            r.fg_rgb == kind_rgb(ItemKind::Coin),
            r.bonus == n,
    {
        let mut name = String::from_str("금화 ");
        push_decimal(&mut name, n as i64);
        Item { kind: ItemKind::Coin, name, glyph: '$', fg_rgb: 0xFF_D2_46, bonus: n }
    }

    /// A healing potion restoring 15 HP.
    pub fn potion_hp() -> (r: Self)
        ensures
            r.kind == ItemKind::HealthPotion,
            r.name@ == "치유 물약"@,
            r.glyph == kind_glyph(ItemKind::HealthPotion),
            r.fg_rgb == kind_rgb(ItemKind::HealthPotion),
            r.bonus == 15,
    {
        Item {
            kind: ItemKind::HealthPotion,
            name: String::from_str("치유 물약"),
            glyph: '!',
            fg_rgb: 0x5A_DC_A0,
            bonus: 15,
        }
    }

    /// A mana potion restoring 10 MP.
    pub fn potion_mp() -> (r: Self)
        ensures
            r.kind == ItemKind::ManaPotion,
            r.name@ == "마나 물약"@,
            r.glyph == kind_glyph(ItemKind::ManaPotion),
            r.fg_rgb == kind_rgb(ItemKind::ManaPotion),
            r.bonus == 10,
    {
        Item {
            kind: ItemKind::ManaPotion,
            name: String::from_str("마나 물약"),
            glyph: '?',
            fg_rgb: 0x5A_9C_F0,
            bonus: 10,
        }
    }

    /// A weapon with attack bonus `b`.
    pub fn weapon(b: i32, name: &str) -> (r: Self)
        ensures
            r.kind == ItemKind::Weapon,
            r.name@ == name@,
            r.glyph == kind_glyph(ItemKind::Weapon),
            r.fg_rgb == kind_rgb(ItemKind::Weapon),
            r.bonus == b,
    {
        Item { kind: ItemKind::Weapon, name: String::from_str(name), glyph: ')', fg_rgb: 0xC8_C8_C8, bonus: b }
    }

    /// An armor with defense bonus `b`.
    pub fn armor(b: i32, name: &str) -> (r: Self)
        ensures
            r.kind == ItemKind::Armor,
            r.name@ == name@,
            r.glyph == kind_glyph(ItemKind::Armor),
            r.fg_rgb == kind_rgb(ItemKind::Armor),
            r.bonus == b,
    {
        Item { kind: ItemKind::Armor, name: String::from_str(name), glyph: '[', fg_rgb: 0xB8_B8_BC, bonus: b }
    }
}


/// Inventory: a fixed number of slots, empty ones hold `None`.
#[derive(Clone, Debug)]
pub struct Inventory {
    pub slots: Vec<Option<Item>>,
    pub max: usize,
}

/// `i` is the first empty slot of `slots`.
pub open spec fn is_first_empty(slots: Seq<Option<Item>>, i: int) -> bool {
    &&& 0 <= i < slots.len()
    &&& slots[i] is None
    &&& forall|j: int| 0 <= j < i ==> #[trigger] slots[j] is Some
}

/// Slot `j` holds an item of kind `kind`.
pub open spec fn holds_kind(slots: Seq<Option<Item>>, j: int, kind: ItemKind) -> bool {
    slots[j] matches Some(it) && it.kind == kind
}

/// Slot `j` holds an item drawn with `glyph`.
pub open spec fn holds_glyph(slots: Seq<Option<Item>>, j: int, glyph: char) -> bool {
    slots[j] matches Some(it) && it.glyph == glyph
}

impl Inventory {
    /// `max` empty slots.
    pub fn new(max: usize) -> (r: Self)
        ensures
            r.max == max,
            r.slots@ == Seq::new(max as nat, |i: int| None::<Item>),
    {
        let mut slots: Vec<Option<Item>> = Vec::new();
        let mut i: usize = 0;
        while i < max
            invariant
                i <= max,
                slots@ == Seq::new(i as nat, |k: int| None::<Item>),
            decreases max - i,
        {
            slots.push(None);
            i = i + 1;
            assert(slots@ =~= Seq::new(i as nat, |k: int| None::<Item>));
        }
        Inventory { slots, max }
    }

    /// Puts `item` into the first empty slot and returns its index, or
    /// `Err(())` (inventory unchanged) when every slot is full.
    pub fn push(&mut self, item: Item) -> (r: Result<usize, ()>)
        ensures
            final(self).max == old(self).max,
            match r {
                Ok(i) => {
                    &&& is_first_empty(old(self).slots@, i as int)
                    &&& final(self).slots@ == old(self).slots@.update(i as int, Some(item))
                },
                Err(_) => {
                    &&& forall|j: int| 0 <= j < old(self).slots@.len() ==> #[trigger] old(self).slots@[j] is Some
                    &&& final(self).slots@ == old(self).slots@
                },
            },
    {
        let n = self.slots.len();
        let mut i: usize = 0;
        while i < n
            invariant
                n == self.slots@.len(),
                i <= n,
                self.slots@ == old(self).slots@,
                self.max == old(self).max,
                forall|j: int| 0 <= j < i ==> #[trigger] self.slots@[j] is Some,
            decreases n - i,
        {
            if self.slots[i].is_none() {
                self.slots.set(i, Some(item));
                return Ok(i);
            }
            i = i + 1;
        }
        Err(())
    }

    /// Removes and returns the item at `idx` (`None` if empty or out of range).
    pub fn take(&mut self, idx: usize) -> (r: Option<Item>)
        ensures
            final(self).max == old(self).max,
            idx < old(self).slots@.len() ==> {
                &&& r == old(self).slots@[idx as int]
                &&& final(self).slots@ == old(self).slots@.update(idx as int, None)
            },
            idx >= old(self).slots@.len() ==> r is None && final(self).slots@ == old(self).slots@,
    {
        if idx < self.slots.len() {
            let mut out: Option<Item> = None;
            self.slots.set_and_swap(idx, &mut out);
            out
        } else {
            None
        }
    }

    /// Puts `item` at `idx` if that slot exists and is empty.
    pub fn put_at(&mut self, idx: usize, item: Item) -> (r: Result<(), ()>)
        ensures
            final(self).max == old(self).max,
            r is Ok <==> (idx < old(self).slots@.len() && old(self).slots@[idx as int] is None),
            r is Ok ==> final(self).slots@ == old(self).slots@.update(idx as int, Some(item)),
            r is Err ==> final(self).slots@ == old(self).slots@,
    {
        if idx < self.slots.len() && self.slots[idx].is_none() {
            self.slots.set(idx, Some(item));
            Ok(())
        } else {
            Err(())
        }
    }

    /// True when no slot holds an item.
    pub fn is_empty(&self) -> (r: bool)
        ensures
            r == forall|j: int| 0 <= j < self.slots@.len() ==> #[trigger] self.slots@[j] is None,
    {
        let n = self.slots.len();
        let mut i: usize = 0;
        while i < n
            invariant
                n == self.slots@.len(),
                i <= n,
                forall|j: int| 0 <= j < i ==> #[trigger] self.slots@[j] is None,
            decreases n - i,
        {
            if self.slots[i].is_some() {
                return false;
            }
            i = i + 1;
        }
        true
    }

    /// First slot holding an item of `kind`, if any.
    pub fn find_kind(&self, kind: ItemKind) -> (r: Option<usize>)
        ensures
            match r {
                Some(i) => {
                    &&& i < self.slots@.len()
                    &&& holds_kind(self.slots@, i as int, kind)
                    &&& forall|j: int| 0 <= j < i ==> !#[trigger] holds_kind(self.slots@, j, kind)
                },
                None => forall|j: int| 0 <= j < self.slots@.len() ==> !#[trigger] holds_kind(self.slots@, j, kind),
            },
    {
        let n = self.slots.len();
        let mut i: usize = 0;
        while i < n
            invariant
                n == self.slots@.len(),
                i <= n,
                forall|j: int| 0 <= j < i ==> !#[trigger] holds_kind(self.slots@, j, kind),
            decreases n - i,
        {
            match &self.slots[i] {
                Some(it) => {
                    if it.kind == kind {
                        return Some(i);
                    }
                },
                None => {},
            }
            i = i + 1;
        }
        None
    }

    /// First slot holding an item drawn with `glyph`, if any.
    pub fn find_glyph(&self, glyph: char) -> (r: Option<usize>)
        ensures
            match r {
                Some(i) => {
                    &&& i < self.slots@.len()
                    &&& holds_glyph(self.slots@, i as int, glyph)
                    &&& forall|j: int| 0 <= j < i ==> !#[trigger] holds_glyph(self.slots@, j, glyph)
                },
                None => forall|j: int| 0 <= j < self.slots@.len() ==> !#[trigger] holds_glyph(self.slots@, j, glyph),
            },
    {
        let n = self.slots.len();
        let mut i: usize = 0;
        while i < n
            invariant
                n == self.slots@.len(),
                i <= n,
                forall|j: int| 0 <= j < i ==> !#[trigger] holds_glyph(self.slots@, j, glyph),
            decreases n - i,
        {
            match &self.slots[i] {
                Some(it) => {
                    if it.glyph == glyph {
                        return Some(i);
                    }
                },
                None => {},
            }
            i = i + 1;
        }
        None
    }
}

/// Which inventory slots are worn as weapon and as armor.
#[derive(Copy, Clone, Debug, Default, PartialEq, Eq, Structural)]
pub struct Equipment {
    pub weapon: Option<usize>,
    pub armor: Option<usize>,
}

/// An equipment slot.
#[derive(Copy, Clone, Debug, PartialEq, Eq, Structural)]
pub enum EquipSlot {
    Weapon,
    Armor,
}

impl Equipment {
    pub fn new() -> (r: Self)
        ensures
            r == (Equipment { weapon: None, armor: None }),
    {
        Equipment { weapon: None, armor: None }
    }

    /// The slot that wears inventory slot `inv_slot`, if any (weapon first).
    pub fn slot_of(&self, inv_slot: usize) -> (r: Option<EquipSlot>)
        ensures
            r == if self.weapon == Some(inv_slot) {
                Some(EquipSlot::Weapon)
            } else if self.armor == Some(inv_slot) {
                Some(EquipSlot::Armor)
            } else {
                None
            },
    {
        if self.weapon == Some(inv_slot) {
            Some(EquipSlot::Weapon)
        } else if self.armor == Some(inv_slot) {
            Some(EquipSlot::Armor)
        } else {
            None
        }
    }
}

/// The slot accepts exactly its own kind: weapons for `Weapon`, armor for `Armor`.
pub open spec fn slot_accepts(slot: EquipSlot, kind: ItemKind) -> bool {
    (slot == EquipSlot::Weapon && kind == ItemKind::Weapon) || (slot == EquipSlot::Armor && kind == ItemKind::Armor)
}

impl EquipSlot {
    pub fn accepts(self, kind: ItemKind) -> (r: bool)
        ensures
            r == slot_accepts(self, kind),
    {
        match (self, kind) {
            (EquipSlot::Weapon, ItemKind::Weapon) => true,
            (EquipSlot::Armor, ItemKind::Armor) => true,
            _ => false,
        }
    }
}

/// Theme of each floor band.
#[derive(Copy, Clone, Debug, PartialEq, Eq, Structural)]
pub enum FloorTheme {
    Cave,
    Catacomb,
    Garden,
    Library,
    Forge,
    Temple,
    FinalMaw,
    Boss,
}

/// Theme of a depth: 1-4 cave, 5-8 catacomb, 9-12 garden, 13-16 library,
/// 17-20 forge, 21-24 temple, 25-27 final maw, anything else the boss room.
pub open spec fn theme_of(depth: int) -> FloorTheme {
    if 1 <= depth <= 4 {
        FloorTheme::Cave
    } else if 5 <= depth <= 8 {
        FloorTheme::Catacomb
    } else if 9 <= depth <= 12 {
        FloorTheme::Garden
    } else if 13 <= depth <= 16 {
        FloorTheme::Library
    } else if 17 <= depth <= 20 {
        FloorTheme::Forge
    } else if 21 <= depth <= 24 {
        FloorTheme::Temple
    } else if 25 <= depth <= 27 {
        FloorTheme::FinalMaw
    } else {
        FloorTheme::Boss
    }
}

/// Korean display name of a theme.
pub open spec fn theme_label(t: FloorTheme) -> Seq<char> {
    match t {
        FloorTheme::Cave => "동굴"@,
        FloorTheme::Catacomb => "카타콤"@,
        FloorTheme::Garden => "정원"@,
        FloorTheme::Library => "도서관"@,
        FloorTheme::Forge => "대장간"@,
        FloorTheme::Temple => "신전"@,
        FloorTheme::FinalMaw => "심연"@,
        FloorTheme::Boss => "쏠쏠리의 방"@,
    }
}

impl FloorTheme {
    pub fn from_depth(depth: u32) -> (r: Self)
        ensures
            r == theme_of(depth as int),
    {
        if 1 <= depth && depth <= 4 {
            FloorTheme::Cave
        } else if 5 <= depth && depth <= 8 {
            FloorTheme::Catacomb
        } else if 9 <= depth && depth <= 12 {
            FloorTheme::Garden
        } else if 13 <= depth && depth <= 16 {
            FloorTheme::Library
        } else if 17 <= depth && depth <= 20 {
            FloorTheme::Forge
        } else if 21 <= depth && depth <= 24 {
            FloorTheme::Temple
        } else if 25 <= depth && depth <= 27 {
            FloorTheme::FinalMaw
        } else {
            FloorTheme::Boss
        }
    }

    /// Short display name (Korean).
    pub fn label(self) -> (r: &'static str)
        ensures
            r@ == theme_label(self),
    {
        match self {
            FloorTheme::Cave => "동굴",
            FloorTheme::Catacomb => "카타콤",
            FloorTheme::Garden => "정원",
            FloorTheme::Library => "도서관",
            FloorTheme::Forge => "대장간",
            FloorTheme::Temple => "신전",
            FloorTheme::FinalMaw => "심연",
            FloorTheme::Boss => "쏠쏠리의 방",
        }
    }
}

/// Floor number (1-based).
#[derive(Copy, Clone, Debug, Default, PartialEq, Eq, Structural)]
pub struct Floor(pub u32);

} // verus!
