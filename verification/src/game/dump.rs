//! The text picture of a floor printed by the dump mode: one line of glyphs
//! per map row.

use vstd::prelude::*;
use crate::components::TilePos;
use crate::game::app::{App, Entity, is_first_item_at};
use crate::game::world::{MAP_H, MAP_W, is_first_monster_at, item_on, monster_on};
use crate::procgen::dungeon::{Tile, tile_at};
use crate::render::wall_glyph_spec;
use crate::text::push_char;

verus! {

/// The glyph of the entity on `p`, if any: the hero, else the first monster
/// there, else the first item there.
pub open spec fn entity_glyph(app: App, p: TilePos) -> Option<char> {
    let ms = app.world.monsters@;
    let its = app.world.items@;
    if app.world.hero.pos == p {
        Some(app.world.hero.look.glyph)
    } else if monster_on(ms, p) {
        Some(ms[choose|i: int| is_first_monster_at(ms, p, i)].look.glyph)
    } else if item_on(its, p) {
        Some(its[choose|i: int| is_first_item_at(its, p, i)].item.glyph)
    } else {
        None
    }
}

/// What the dump shows at `(x, y)`: the entity there; else, when the hero sees
/// the tile, the tile itself (a wall by its half-block glyph, floor `.`,
/// stairs `▼`, rock blank); else blank for wall and rock and `·` for open
/// ground.
pub open spec fn dump_glyph(app: App, x: int, y: int) -> char {
    let p = TilePos(x as i32, y as i32);
    let t = tile_at(app.dungeon.width as int, app.dungeon.height as int, app.dungeon.tiles@, x, y);
    match entity_glyph(app, p) {
        Some(g) => g,
        None => if app.world.hero.viewshed.visible@.contains(p) {
            match t {
                Tile::Wall => wall_glyph_spec(app.dungeon, x, y),
                Tile::Floor => '.',
                Tile::StairsDown => '▼',
                Tile::Rock => ' ',
            }
        } else if t == Tile::Wall || t == Tile::Rock {
            ' '
        } else {
            '·'
        },
    }
}

proof fn lemma_first_monster_unique(ms: Seq<crate::game::world::Monster>, p: TilePos, i: int)
    requires
        is_first_monster_at(ms, p, i),
    ensures
        (choose|k: int| is_first_monster_at(ms, p, k)) == i,
{
    let k = choose|k: int| is_first_monster_at(ms, p, k);
    assert(is_first_monster_at(ms, p, k));
    if k < i {
        assert(ms[k].pos == p);
    } else if k > i {
        assert(ms[i].pos == p);
    }
}

proof fn lemma_first_item_unique(its: Seq<crate::game::world::GroundItem>, p: TilePos, i: int)
    requires
        is_first_item_at(its, p, i),
    ensures
        (choose|k: int| is_first_item_at(its, p, k)) == i,
{
    let k = choose|k: int| is_first_item_at(its, p, k);
    assert(is_first_item_at(its, p, k));
    if k < i {
        assert(its[k].pos == p);
    } else if k > i {
        assert(its[i].pos == p);
    }
}

impl App {
    /// Whether the hero sees `p` right now.
    fn sees(&self, p: TilePos) -> (r: bool)
        ensures
            r == self.world.hero.viewshed.visible@.contains(p),
    {
        let vis = &self.world.hero.viewshed.visible;
        let n = vis.len();
        let mut i: usize = 0;
        while i < n
            invariant
                n == vis@.len(),
                vis@ == self.world.hero.viewshed.visible@,
                i <= n,
                forall|j: int| 0 <= j < i ==> vis@[j] != p,
            decreases n - i,
        {
            if vis[i] == p {
                assert(vis@[i as int] == p);
                return true;
            }
            i = i + 1;
        }
        false
    }

    /// The glyph the dump shows at `(x, y)` (see `dump_glyph`).
    fn dump_glyph_at(&self, x: i32, y: i32) -> (c: char)
        requires
            self.wf(),
            0 <= x < MAP_W,
            0 <= y < MAP_H,
        ensures
            c == dump_glyph(*self, x as int, y as int),
    {
        let p = TilePos(x, y);
        match self.entity_at(p) {
            Some(Entity::Hero) => {
                return self.world.hero.look.glyph;
            },
            Some(Entity::Monster(i)) => {
                proof { lemma_first_monster_unique(self.world.monsters@, p, i as int); }
                return self.world.monsters[i].look.glyph;
            },
            Some(Entity::Item(i)) => {
                proof { lemma_first_item_unique(self.world.items@, p, i as int); }
                return self.world.items[i].item.glyph;
            },
            None => {},
        }
        let t = self.dungeon.at(x, y);
        if self.sees(p) {
            match t {
                Tile::Wall => crate::render::wall_glyph(&self.dungeon, x, y),
                Tile::Floor => '.',
                Tile::StairsDown => '▼',
                Tile::Rock => ' ',
            }
        } else if t == Tile::Wall || t == Tile::Rock {
            ' '
        } else {
            '·'
        }
    }

    /// Row `y` of the dump: one glyph per column (see `dump_glyph`).
    pub fn dump_line(&self, y: i32) -> (r: String)
        requires
            self.wf(),
            0 <= y < MAP_H,
        ensures
            r@ == Seq::new(MAP_W as nat, |x: int| dump_glyph(*self, x, y as int)),
    {
        let mut line = String::new();
        let mut x: i32 = 0;
        while x < MAP_W
            invariant
                self.wf(),
                0 <= y < MAP_H,
                0 <= x <= MAP_W,
                line@ == Seq::new(x as nat, |k: int| dump_glyph(*self, k, y as int)),
            decreases MAP_W - x,
        {
            let c = self.dump_glyph_at(x, y);
            push_char(&mut line, c);
            x = x + 1;
            assert(line@ =~= Seq::new(x as nat, |k: int| dump_glyph(*self, k, y as int)));
        }
        line
    }
}

} // verus!
