//! The text of the status lines drawn above and below the map.

use vstd::prelude::*;
use crate::components::{Direction, FloorTheme, TilePos, theme_label, theme_of};
use crate::game::items::within_reach;
use crate::game::app::{App, log_of};
use crate::game::world::BOSS_FLOOR;
use crate::i18n::Locale;
use crate::text::{append_str, decimal_text, push_char, push_count, push_decimal, push_u64};

verus! {

/// The arrow drawn for a direction.
pub open spec fn arrow_text(d: Direction) -> Seq<char> {
    match d {
        Direction::Up => "↑"@,
        Direction::Down => "↓"@,
        Direction::Left => "←"@,
        Direction::Right => "→"@,
        Direction::UpLeft => "↖"@,
        Direction::UpRight => "↗"@,
        Direction::DownLeft => "↙"@,
        Direction::DownRight => "↘"@,
        Direction::Stay => "·"@,
    }
}

/// An item glyph as the pickup hint shows it: the known item glyphs as they
/// are, anything else as `·`.
pub open spec fn pickup_label(g: char) -> char {
    if g == '$' || g == '!' || g == '?' || g == ')' || g == '[' { g } else { '·' }
}

/// "pickup: arrow glyph distance", or nothing when no item is near.
pub open spec fn pickup_hint(p: Option<(usize, Direction, char)>) -> Seq<char> {
    match p {
        Some(v) => "pickup: "@ + arrow_text(v.1) + " "@ + seq![pickup_label(v.2)] + " "@ + decimal_text(v.0 as int) + "  "@,
        None => Seq::empty(),
    }
}

/// "stairs: arrow glyph distance", or nothing when the stairs are not found.
pub open spec fn stairs_hint(p: Option<(usize, Direction, char)>) -> Seq<char> {
    match p {
        Some(v) => "stairs: "@ + arrow_text(v.1) + " "@ + seq![v.2] + " "@ + decimal_text(v.0 as int) + "  "@,
        None => Seq::empty(),
    }
}

/// The floor and its theme, such as "3F 동굴".
pub open spec fn floor_text(floor: u32) -> Seq<char> {
    decimal_text(floor as int) + "F "@ + theme_label(theme_of(floor as int))
}

/// The header line: seed, floor, hero position, how many tiles it sees, the
/// stairs and pickup hints, the arrival badge and the hero's pools and gold.
pub open spec fn header_line(app: App, pickup: Option<(usize, Direction, char)>, stairs: Option<(usize, Direction, char)>) -> Seq<char> {
    let h = app.world.hero;
    "asciirogue — seed "@ + decimal_text(app.seed as int) + "  "@ + floor_text(app.floor)
        + "  player ("@ + decimal_text(h.pos.0 as int) + ","@ + decimal_text(h.pos.1 as int)
        + ")  visible "@ + decimal_text(h.viewshed.visible@.len() as int) + "  "@
        + stairs_hint(stairs) + pickup_hint(pickup)
        + (if app.at_stairs { " ▼ 도착! (y/n) "@ } else { Seq::empty() })
        + "HP "@ + decimal_text(h.health.current as int) + "/"@ + decimal_text(h.health.max as int)
        + "  MP "@ + decimal_text(h.mana.current as int) + "/"@ + decimal_text(h.mana.max as int)
        + "  G "@ + decimal_text(app.gold as int)
}

/// The last two messages, newest first, separated by " | ".
pub open spec fn recent_text(log: Seq<Seq<char>>) -> Seq<char> {
    if log.len() == 0 {
        Seq::empty()
    } else if log.len() == 1 {
        log[0]
    } else {
        log[log.len() - 1] + "  |  "@ + log[log.len() - 2]
    }
}

/// The key hint: quitting is not offered once the boss floor is cleared.
pub open spec fn controls_text(app: App) -> Seq<char> {
    if app.boss_defeated && app.floor == BOSS_FLOOR {
        "g pick  i inv  p potion  stairs: y/n  R restart"@
    } else {
        "g pick  i inv  p potion  stairs: y/n  q quit  R restart"@
    }
}

/// The footer: the recent messages, the room count and the floor, then the
/// key hint on a second line.
pub open spec fn footer_line(app: App) -> Seq<char> {
    "["@ + recent_text(log_of(app)) + "]  rooms "@ + decimal_text(app.dungeon.rooms@.len() as int) + "  "@
        + floor_text(app.floor) + "\n"@ + controls_text(app)
}

/// The two answers of the stairs prompt, "yes" first, in `locale`.
pub open spec fn stairs_answers(locale: Locale) -> (Seq<char>, Seq<char>) {
    match locale {
        Locale::Korean => ("[y] 예 — 다음 층으로"@, "[n] 취소 — 머무름"@),
        Locale::English => ("[y] yes — descend"@, "[n] cancel — stay"@),
    }
}

/// On the boss floor the stairs prompt adds a hint naming the boss: the text
/// before and after its glyph, in the app's locale; elsewhere nothing.
pub open spec fn boss_hint_parts(app: App) -> Option<(Seq<char>, Seq<char>)> {
    if app.floor == BOSS_FLOOR {
        match app.locale {
            Locale::Korean => Some(("※ 보스("@, ") 처치 후 이동 가능"@)),
            Locale::English => Some(("※ Defeat boss ("@, ") to descend"@)),
        }
    } else {
        None
    }
}

/// `n` spaces.
pub open spec fn spaces(n: int) -> Seq<char> {
    Seq::new(if n > 0 { n as nat } else { 0 }, |k: int| ' ')
}

/// A signed number as `{:+}` prints it: a `+` before zero and positives.
pub open spec fn signed_text(v: int) -> Seq<char> {
    if v >= 0 { seq!['+'] + decimal_text(v) } else { decimal_text(v) }
}

/// The tag of inventory slot `i` holding an item: `[W]` when worn as the
/// weapon, `[A]` when worn as the armor, else nothing.
pub open spec fn slot_tag(eq: crate::components::Equipment, i: int) -> Seq<char> {
    if eq.weapon == Some(i as usize) { "[W]"@ } else if eq.armor == Some(i as usize) { "[A]"@ } else { Seq::empty() }
}

/// The number of slot `i` (counting from 1) right-aligned in two columns,
/// then ". ".
pub open spec fn slot_head(i: int) -> Seq<char> {
    spaces(2 - decimal_text(i + 1).len()) + decimal_text(i + 1) + ". "@
}

/// An item's part of its slot line: the tag, its glyph and name left-aligned
/// in fourteen columns, and its signed bonus.
pub open spec fn item_text(eq: crate::components::Equipment, i: int, it: crate::components::Item) -> Seq<char> {
    let label = seq![it.glyph] + it.name@;
    slot_tag(eq, i) + " "@ + label + spaces(14 - label.len()) + "  보너스 "@ + signed_text(it.bonus as int)
}

/// The inventory line of slot `i`: its number, then for an item see
/// `item_text`; for an empty (or missing) slot "(비어 있음)".
pub open spec fn slot_line_text(app: App, i: int) -> Seq<char> {
    let s = app.world.hero.inventory.slots@;
    if 0 <= i < s.len() && s[i] is Some {
        slot_head(i) + item_text(app.world.hero.equipment, i, s[i]->Some_0)
    } else {
        slot_head(i) + "(비어 있음)"@
    }
}

fn push_slot_head(s: &mut String, i: usize)
    requires
        i < usize::MAX,
    ensures
        final(s)@ == old(s)@ + slot_head(i as int),
{
    if i + 1 < 10 {
        push_char(s, ' ');
    }
    push_count(s, i + 1);
    proof {
        if i + 1 >= 10 {
            lemma_digits_at_least_two((i + 1) as nat);
        }
    }
    append_str(s, ". ");
    assert(final(s)@ =~= old(s)@ + slot_head(i as int));
}

fn push_item_text(s: &mut String, eq: crate::components::Equipment, i: usize, it: &crate::components::Item)
    ensures
        final(s)@ == old(s)@ + item_text(eq, i as int, *it),
{
    if eq.weapon == Some(i) {
        append_str(s, "[W]");
    } else if eq.armor == Some(i) {
        append_str(s, "[A]");
    }
    append_str(s, " ");
    push_char(s, it.glyph);
    append_str(s, it.name.as_str());
    let name_len = it.name.as_str().unicode_len();
    if name_len < 13 {
        pad_to(s, name_len + 1, 14);
    }
    append_str(s, "  보너스 ");
    if it.bonus >= 0 {
        push_char(s, '+');
    }
    push_decimal(s, it.bonus as i64);
    assert(final(s)@ =~= old(s)@ + item_text(eq, i as int, *it));
}

/// Appends spaces to bring a piece `used` characters long to `w` characters.
fn pad_to(s: &mut String, used: usize, w: usize)
    ensures
        final(s)@ == old(s)@ + spaces(w - used),
{
    let mut k = used;
    let ghost start = s@;
    while k < w
        invariant
            k == used || (used <= k && k <= w),
            s@ == start + spaces(k - used),
        decreases w - k,
    {
        push_char(s, ' ');
        assert(s@ =~= start + spaces(k + 1 - used));
        k = k + 1;
    }
    assert(s@ =~= start + spaces(w - used));
}

fn arrow_str(d: Direction) -> (r: &'static str)
    ensures
        r@ == arrow_text(d),
{
    match d {
        Direction::Up => "↑",
        Direction::Down => "↓",
        Direction::Left => "←",
        Direction::Right => "→",
        Direction::UpLeft => "↖",
        Direction::UpRight => "↗",
        Direction::DownLeft => "↙",
        Direction::DownRight => "↘",
        Direction::Stay => "·",
    }
}

/// Appends a hint: its prefix, the arrow, the glyph and the distance.
fn push_hint(s: &mut String, prefix: &str, v: (usize, Direction, char), glyph: char)
    ensures
        final(s)@ == old(s)@ + prefix@ + arrow_text(v.1) + " "@ + seq![glyph] + " "@ + decimal_text(v.0 as int) + "  "@,
{
    append_str(s, prefix);
    append_str(s, arrow_str(v.1));
    append_str(s, " ");
    push_char(s, glyph);
    append_str(s, " ");
    push_count(s, v.0);
    append_str(s, "  ");
    assert(final(s)@ =~= old(s)@ + prefix@ + arrow_text(v.1) + " "@ + seq![glyph] + " "@ + decimal_text(v.0 as int) + "  "@);
}

fn push_floor(s: &mut String, floor: u32)
    ensures
        final(s)@ == old(s)@ + floor_text(floor),
{
    push_decimal(s, floor as i64);
    append_str(s, "F ");
    append_str(s, FloorTheme::from_depth(floor).label());
    assert(final(s)@ =~= old(s)@ + floor_text(floor));
}

impl App {
    /// The header line for the given pickup and stairs hints (see
    /// `header_line`); the hints come from `nearest_pickup_info` and
    /// `nearest_stairs_info`.
    pub fn header_text(&self, pickup: Option<(usize, Direction, char)>, stairs: Option<(usize, Direction, char)>) -> (r: String)
        ensures
            r@ == header_line(*self, pickup, stairs),
    {
        let h = &self.world.hero;
        let mut s = String::from_str("asciirogue — seed ");
        push_u64(&mut s, self.seed);
        append_str(&mut s, "  ");
        push_floor(&mut s, self.floor);
        append_str(&mut s, "  player (");
        push_decimal(&mut s, h.pos.0 as i64);
        append_str(&mut s, ",");
        push_decimal(&mut s, h.pos.1 as i64);
        append_str(&mut s, ")  visible ");
        push_count(&mut s, h.viewshed.visible.len());
        append_str(&mut s, "  ");
        let ghost a = s@;
        match stairs {
            Some(v) => push_hint(&mut s, "stairs: ", v, v.2),
            None => {},
        }
        assert(s@ =~= a + stairs_hint(stairs));
        let ghost b = s@;
        match pickup {
            Some(v) => {
                let g = if v.2 == '$' || v.2 == '!' || v.2 == '?' || v.2 == ')' || v.2 == '[' { v.2 } else { '·' };
                push_hint(&mut s, "pickup: ", v, g);
            },
            None => {},
        }
        assert(s@ =~= b + pickup_hint(pickup));
        let ghost c = s@;
        if self.at_stairs {
            append_str(&mut s, " ▼ 도착! (y/n) ");
        }
        assert(s@ =~= c + (if self.at_stairs { " ▼ 도착! (y/n) "@ } else { Seq::empty() }));
        append_str(&mut s, "HP ");
        push_decimal(&mut s, h.health.current as i64);
        append_str(&mut s, "/");
        push_decimal(&mut s, h.health.max as i64);
        append_str(&mut s, "  MP ");
        push_decimal(&mut s, h.mana.current as i64);
        append_str(&mut s, "/");
        push_decimal(&mut s, h.mana.max as i64);
        append_str(&mut s, "  G ");
        push_decimal(&mut s, self.gold as i64);
        assert(s@ =~= header_line(*self, pickup, stairs));
        s
    }

    /// Whether `p` is within the hero's pickup reach: its own tile or one of
    /// the four next to it (such items are drawn bold).
    pub fn in_pickup_reach(&self, p: TilePos) -> (r: bool)
        requires
            self.wf(),
        ensures
            r == (within_reach(self.world.hero.pos, p, true) || within_reach(self.world.hero.pos, p, false)),
    {
        let c = self.world.hero.pos;
        (p.0 == c.0 && p.1 == c.1)
            || (p.1 == c.1 && (p.0 == c.0 - 1 || p.0 == c.0 + 1))
            || (p.0 == c.0 && (p.1 == c.1 - 1 || p.1 == c.1 + 1))
    }

    /// The answers of the stairs prompt, "yes" first (see `stairs_answers`).
    pub fn stairs_answer_labels(&self) -> (r: (&'static str, &'static str))
        ensures
            r.0@ == stairs_answers(self.locale).0,
            r.1@ == stairs_answers(self.locale).1,
    {
        match self.locale {
            Locale::Korean => ("[y] 예 — 다음 층으로", "[n] 취소 — 머무름"),
            Locale::English => ("[y] yes — descend", "[n] cancel — stay"),
        }
    }

    /// The boss hint of the stairs prompt (see `boss_hint_parts`).
    pub fn boss_hint(&self) -> (r: Option<(&'static str, &'static str)>)
        ensures
            match r {
                Some(v) => boss_hint_parts(*self) == Some((v.0@, v.1@)),
                None => boss_hint_parts(*self) is None,
            },
    {
        if self.floor != BOSS_FLOOR {
            return None;
        }
        match self.locale {
            Locale::Korean => Some(("※ 보스(", ") 처치 후 이동 가능")),
            Locale::English => Some(("※ Defeat boss (", ") to descend")),
        }
    }

    /// The inventory line of slot `i` (see `slot_line_text`).
    pub fn slot_line(&self, i: usize) -> (r: String)
        requires
            i < usize::MAX,
        ensures
            r@ == slot_line_text(*self, i as int),
    {
        let mut s = String::new();
        push_slot_head(&mut s, i);
        if i < self.world.hero.inventory.slots.len() {
            match &self.world.hero.inventory.slots[i] {
                Some(it) => {
                    push_item_text(&mut s, self.world.hero.equipment, i, it);
                    assert(s@ =~= slot_line_text(*self, i as int));
                    return s;
                },
                None => {},
            }
        }
        append_str(&mut s, "(비어 있음)");
        assert(s@ =~= slot_line_text(*self, i as int));
        s
    }

    /// The footer (see `footer_line`).
    pub fn footer_text(&self) -> (r: String)
        ensures
            r@ == footer_line(*self),
    {
        let mut s = String::from_str("[");
        let n = self.messages.len();
        if n == 1 {
            append_str(&mut s, self.messages[0].as_str());
        } else if n >= 2 {
            append_str(&mut s, self.messages[n - 1].as_str());
            append_str(&mut s, "  |  ");
            append_str(&mut s, self.messages[n - 2].as_str());
        }
        assert(s@ =~= "["@ + recent_text(log_of(*self)));
        append_str(&mut s, "]  rooms ");
        push_count(&mut s, self.dungeon.rooms.len());
        append_str(&mut s, "  ");
        push_floor(&mut s, self.floor);
        append_str(&mut s, "\n");
        if self.boss_defeated && self.floor == BOSS_FLOOR {
            append_str(&mut s, "g pick  i inv  p potion  stairs: y/n  R restart");
        } else {
            append_str(&mut s, "g pick  i inv  p potion  stairs: y/n  q quit  R restart");
        }
        assert(s@ =~= footer_line(*self));
        s
    }
}

/// Numbers of ten or more have at least two digits.
proof fn lemma_digits_at_least_two(n: nat)
    requires
        n >= 10,
    ensures
        decimal_text(n as int).len() >= 2,
    decreases n,
{
    assert(crate::text::digits_of(n) == crate::text::digits_of(n / 10).push(crate::text::digit_char(n % 10)));
    assert(crate::text::digits_of(n / 10).len() >= 1) by {
        if n / 10 >= 10 {
            lemma_digits_at_least_two(n / 10);
        }
    }
}

} // verus!
