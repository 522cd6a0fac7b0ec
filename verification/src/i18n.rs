//! Built-in Korean and English strings for the game's UI and messages.

use vstd::prelude::*;
use crate::text::{append_str, push_char};

verus! {

/// Supported locales.
#[derive(Copy, Clone, Debug, PartialEq, Eq, Structural)]
pub enum Locale {
    Korean,
    English,
}

/// ASCII lowercase of one character; other characters are unchanged.
pub open spec fn ascii_lower(c: char) -> char {
    if 'A' <= c && c <= 'Z' {
        ((c as int) + 32) as char
    } else {
        c
    }
}

/// The locale a code names: `en` or `english` in any ASCII case is English,
/// everything else (unknown codes included) is Korean.
pub open spec fn locale_of_code(code: Seq<char>) -> Locale {
    let lower = code.map_values(|c: char| ascii_lower(c));
    if lower == "en"@ || lower == "english"@ {
        Locale::English
    } else {
        Locale::Korean
    }
}

/// Does `c` lowercase to the lowercase ASCII letter `t`?
fn lowers_to(c: char, t: char) -> (r: bool)
    requires
        'a' <= t <= 'z',
    ensures
        r == (ascii_lower(c) == t),
{
    let cu = c as u32;
    let tu = t as u32;
    let r = cu == tu || cu + 32 == tu;
    proof {
        if 'A' <= c && c <= 'Z' {
            assert(ascii_lower(c) as int == c as int + 32);
        }
    }
    r
}

/// Does `s` lowercase to the lowercase ASCII word `w`?
fn lowers_to_word(s: &str, w: &str) -> (r: bool)
    requires
        forall|i: int| 0 <= i < w@.len() ==> 'a' <= #[trigger] w@[i] <= 'z',
    ensures
        r == (s@.map_values(|c: char| ascii_lower(c)) == w@),
{
    let n = s.unicode_len();
    let m = w.unicode_len();
    let ghost lower = s@.map_values(|c: char| ascii_lower(c));
    if n != m {
        assert(lower.len() != w@.len());
        return false;
    }
    let mut i: usize = 0;
    while i < n
        invariant
            n == s@.len(),
            m == w@.len(),
            n == m,
            i <= n,
            lower == s@.map_values(|c: char| ascii_lower(c)),
            forall|k: int| 0 <= k < w@.len() ==> 'a' <= #[trigger] w@[k] <= 'z',
            forall|k: int| 0 <= k < i ==> #[trigger] lower[k] == w@[k],
        decreases n - i,
    {
        let c = s.get_char(i);
        let t = w.get_char(i);
        if !lowers_to(c, t) {
            assert(lower[i as int] != w@[i as int]);
            return false;
        }
        i = i + 1;
    }
    assert(lower =~= w@);
    true
}

impl Locale {
    /// Locale from a code such as `ko` or `en` (ASCII case-insensitive);
    /// unknown codes fall back to Korean.
    pub fn from_code(s: &str) -> (r: Self)
        ensures
            r == locale_of_code(s@),
    {
        proof {
            reveal_strlit("en");
            reveal_strlit("english");
        }
        if lowers_to_word(s, "en") || lowers_to_word(s, "english") {
            Locale::English
        } else {
            Locale::Korean
        }
    }
}

/// String keys used throughout the game; each maps to a (ko, en) pair.
#[derive(Copy, Clone, Debug, PartialEq, Eq, Structural)]
pub enum Key {
    UiGameTitle,
    UiPickUp,
    UiUsePotion,
    UiDescend,
    UiFloor,
    MsgFloorEntered,
    MsgBossDown,
    MsgNoItem,
    MsgNoPotion,
    MsgPickupOk,
    MsgPotionHp,
    MsgPotionMp,
    MsgAlreadyAtBottom,
    MsgBossFirst,
    MsgMenuNewGame,
    MsgMenuLoad,
    MsgMenuHelp,
    MsgStairs,
    MsgDeath,
    MsgStairCancel,
    MsgStairConfirm,
    MsgStairDescendOk,
}

/// Korean text of a key.
pub open spec fn ko_text(k: Key) -> Seq<char> {
    match k {
        Key::UiGameTitle => "asciirogue — 한국어 우선 로그라이크"@,
        Key::UiPickUp => "줍기"@,
        Key::UiUsePotion => "포션 사용"@,
        Key::UiDescend => "내려가기"@,
        Key::UiFloor => "층"@,
        Key::MsgFloorEntered => "{}층 {} 진입"@,
        Key::MsgBossDown => "{}층 보스 격파! '>' 내려가기."@,
        Key::MsgNoItem => "주울 아이템이 없습니다."@,
        Key::MsgNoPotion => "사용할 물약이 없습니다."@,
        Key::MsgPickupOk => "아이템을 주웠습니다."@,
        Key::MsgPotionHp => "치유 물약 사용! HP +{}"@,
        Key::MsgPotionMp => "마나 물약 사용! MP +{}"@,
        Key::MsgAlreadyAtBottom => "이미 던전 끝에 도달했습니다."@,
        Key::MsgBossFirst => "보스를 먼저 처치하세요."@,
        Key::MsgMenuNewGame => "새 게임"@,
        Key::MsgMenuLoad => "이어하기"@,
        Key::MsgMenuHelp => "도움말"@,
        Key::MsgStairs => "주위에 계단이 없습니다."@,
        Key::MsgDeath => "쓰러졌습니다…"@,
        Key::MsgStairCancel => "내려가기를 취소했습니다."@,
        Key::MsgStairConfirm => "▼ 다음 층으로 내려갈까?"@,
        Key::MsgStairDescendOk => "{}층으로 내려갑니다."@,
    }
}

/// English text of a key.
pub open spec fn en_text(k: Key) -> Seq<char> {
    match k {
        Key::UiGameTitle => "asciirogue — Korean-first roguelike"@,
        Key::UiPickUp => "Pick up"@,
        Key::UiUsePotion => "Use potion"@,
        Key::UiDescend => "Descend"@,
        Key::UiFloor => "F"@,
        Key::MsgFloorEntered => "Entering {}F {}"@,
        Key::MsgBossDown => "Boss defeated on F{}! Press '>' to descend."@,
        Key::MsgNoItem => "Nothing to pick up."@,
        Key::MsgNoPotion => "No potions available."@,
        Key::MsgPickupOk => "Items picked up."@,
        Key::MsgPotionHp => "Healing potion! +{} HP"@,
        Key::MsgPotionMp => "Mana potion! +{} MP"@,
        Key::MsgAlreadyAtBottom => "Already at the bottom of the dungeon."@,
        Key::MsgBossFirst => "Defeat the boss first."@,
        Key::MsgMenuNewGame => "New game"@,
        Key::MsgMenuLoad => "Continue"@,
        Key::MsgMenuHelp => "Help"@,
        Key::MsgStairs => "There are no stairs here."@,
        Key::MsgDeath => "You died…"@,
        Key::MsgStairCancel => "You stay on this floor."@,
        Key::MsgStairConfirm => "▼ Descend to the next floor?"@,
        Key::MsgStairDescendOk => "Descending to {}F."@,
    }
}

/// Text of a key in a locale.
pub open spec fn text_of(k: Key, locale: Locale) -> Seq<char> {
    match locale {
        Locale::Korean => ko_text(k),
        Locale::English => en_text(k),
    }
}

/// Every key, in table order.
pub open spec fn all_keys() -> Seq<Key> {
    seq![
        Key::UiGameTitle,
        Key::UiPickUp,
        Key::UiUsePotion,
        Key::UiDescend,
        Key::UiFloor,
        Key::MsgFloorEntered,
        Key::MsgBossDown,
        Key::MsgNoItem,
        Key::MsgNoPotion,
        Key::MsgPickupOk,
        Key::MsgPotionHp,
        Key::MsgPotionMp,
        Key::MsgAlreadyAtBottom,
        Key::MsgBossFirst,
        Key::MsgMenuNewGame,
        Key::MsgMenuLoad,
        Key::MsgMenuHelp,
        Key::MsgStairs,
        Key::MsgDeath,
        Key::MsgStairCancel,
        Key::MsgStairConfirm,
        Key::MsgStairDescendOk
    ]
}

fn ko_exec(key: Key) -> (r: &'static str)
    ensures
        r@ == ko_text(key),
{
    match key {
        Key::UiGameTitle => "asciirogue — 한국어 우선 로그라이크",
        Key::UiPickUp => "줍기",
        Key::UiUsePotion => "포션 사용",
        Key::UiDescend => "내려가기",
        Key::UiFloor => "층",
        Key::MsgFloorEntered => "{}층 {} 진입",
        Key::MsgBossDown => "{}층 보스 격파! '>' 내려가기.",
        Key::MsgNoItem => "주울 아이템이 없습니다.",
        Key::MsgNoPotion => "사용할 물약이 없습니다.",
        Key::MsgPickupOk => "아이템을 주웠습니다.",
        Key::MsgPotionHp => "치유 물약 사용! HP +{}",
        Key::MsgPotionMp => "마나 물약 사용! MP +{}",
        Key::MsgAlreadyAtBottom => "이미 던전 끝에 도달했습니다.",
        Key::MsgBossFirst => "보스를 먼저 처치하세요.",
        Key::MsgMenuNewGame => "새 게임",
        Key::MsgMenuLoad => "이어하기",
        Key::MsgMenuHelp => "도움말",
        Key::MsgStairs => "주위에 계단이 없습니다.",
        Key::MsgDeath => "쓰러졌습니다…",
        Key::MsgStairCancel => "내려가기를 취소했습니다.",
        Key::MsgStairConfirm => "▼ 다음 층으로 내려갈까?",
        Key::MsgStairDescendOk => "{}층으로 내려갑니다.",
    }
}

fn en_exec(key: Key) -> (r: &'static str)
    ensures
        r@ == en_text(key),
{
    match key {
        Key::UiGameTitle => "asciirogue — Korean-first roguelike",
        Key::UiPickUp => "Pick up",
        Key::UiUsePotion => "Use potion",
        Key::UiDescend => "Descend",
        Key::UiFloor => "F",
        Key::MsgFloorEntered => "Entering {}F {}",
        Key::MsgBossDown => "Boss defeated on F{}! Press '>' to descend.",
        Key::MsgNoItem => "Nothing to pick up.",
        Key::MsgNoPotion => "No potions available.",
        Key::MsgPickupOk => "Items picked up.",
        Key::MsgPotionHp => "Healing potion! +{} HP",
        Key::MsgPotionMp => "Mana potion! +{} MP",
        Key::MsgAlreadyAtBottom => "Already at the bottom of the dungeon.",
        Key::MsgBossFirst => "Defeat the boss first.",
        Key::MsgMenuNewGame => "New game",
        Key::MsgMenuLoad => "Continue",
        Key::MsgMenuHelp => "Help",
        Key::MsgStairs => "There are no stairs here.",
        Key::MsgDeath => "You died…",
        Key::MsgStairCancel => "You stay on this floor.",
        Key::MsgStairConfirm => "▼ Descend to the next floor?",
        Key::MsgStairDescendOk => "Descending to {}F.",
    }
}

/// Translate a key into the given locale.
pub fn t_for(key: Key, locale: Locale) -> (r: &'static str)
    ensures
        r@ == text_of(key, locale),
{
    match locale {
        Locale::Korean => ko_exec(key),
        Locale::English => en_exec(key),
    }
}

/// `raw` with each `{}` replaced, in order, by the next argument; a `{}` left
/// without an argument stays as it is.
pub open spec fn fill_slots(raw: Seq<char>, args: Seq<Seq<char>>) -> Seq<char>
    decreases raw.len(),
{
    if raw.len() == 0 {
        Seq::empty()
    } else if raw.len() >= 2 && raw[0] == '{' && raw[1] == '}' {
        if args.len() > 0 {
            args[0] + fill_slots(raw.skip(2), args.skip(1))
        } else {
            seq!['{', '}'] + fill_slots(raw.skip(2), args)
        }
    } else {
        seq![raw[0]] + fill_slots(raw.skip(1), args)
    }
}

/// The views of a list of strings.
pub open spec fn texts_of(args: Seq<String>) -> Seq<Seq<char>> {
    args.map_values(|a: String| a@)
}

/// The text of `key` in `locale` with its `{}` slots filled from `args`.
pub fn t_format_with_locale(key: Key, locale: Locale, args: &[String]) -> (r: String)
    ensures
        r@ == fill_slots(text_of(key, locale), texts_of(args@)),
{
    let raw = t_for(key, locale);
    let n = raw.unicode_len();
    let ghost all = texts_of(args@);
    let mut out = String::new();
    let mut i: usize = 0;
    let mut k: usize = 0;
    assert(raw@.skip(0) =~= raw@);
    assert(all.skip(0) =~= all);
    assert(out@ + fill_slots(raw@, all) =~= fill_slots(raw@, all));
    while i < n
        invariant
            n == raw@.len(),
            i <= n,
            k <= args@.len(),
            all == texts_of(args@),
            out@ + fill_slots(raw@.skip(i as int), all.skip(k as int)) == fill_slots(raw@, all),
        decreases n - i,
    {
        let ghost rest = raw@.skip(i as int);
        let c = raw.get_char(i);
        let is_slot = c == '{' && i + 1 < n && raw.get_char(i + 1) == '}';
        if is_slot {
            assert(rest.skip(2) =~= raw@.skip(i + 2));
            if k < args.len() {
                assert(all.skip(k as int)[0] == args@[k as int]@);
                assert(all.skip(k as int).skip(1) =~= all.skip(k + 1));
                append_str(&mut out, args[k].as_str());
                k = k + 1;
            } else {
                push_char(&mut out, '{');
                push_char(&mut out, '}');
            }
            i = i + 2;
        } else {
            assert(rest.skip(1) =~= raw@.skip(i + 1));
            push_char(&mut out, c);
            i = i + 1;
        }
        assert(out@ + fill_slots(raw@.skip(i as int), all.skip(k as int)) =~= fill_slots(raw@, all));
    }
    assert(raw@.skip(n as int) =~= Seq::<char>::empty());
    assert(out@ =~= fill_slots(raw@, all));
    out
}

/// The whole translation table: one `(key, ko, en)` row per key.
pub fn translation_table() -> (t: Vec<(Key, &'static str, &'static str)>)
    ensures
        t@.len() == all_keys().len(),
        forall|i: int| 0 <= i < t@.len() ==> {
            &&& (#[trigger] t@[i]).0 == all_keys()[i]
            &&& t@[i].1@ == ko_text(all_keys()[i])
            &&& t@[i].2@ == en_text(all_keys()[i])
        },
{
    let mut t: Vec<(Key, &'static str, &'static str)> = Vec::new();
    t.push((Key::UiGameTitle, "asciirogue — 한국어 우선 로그라이크", "asciirogue — Korean-first roguelike"));
    t.push((Key::UiPickUp, "줍기", "Pick up"));
    t.push((Key::UiUsePotion, "포션 사용", "Use potion"));
    t.push((Key::UiDescend, "내려가기", "Descend"));
    t.push((Key::UiFloor, "층", "F"));
    t.push((Key::MsgFloorEntered, "{}층 {} 진입", "Entering {}F {}"));
    t.push((Key::MsgBossDown, "{}층 보스 격파! '>' 내려가기.", "Boss defeated on F{}! Press '>' to descend."));
    t.push((Key::MsgNoItem, "주울 아이템이 없습니다.", "Nothing to pick up."));
    t.push((Key::MsgNoPotion, "사용할 물약이 없습니다.", "No potions available."));
    t.push((Key::MsgPickupOk, "아이템을 주웠습니다.", "Items picked up."));
    t.push((Key::MsgPotionHp, "치유 물약 사용! HP +{}", "Healing potion! +{} HP"));
    t.push((Key::MsgPotionMp, "마나 물약 사용! MP +{}", "Mana potion! +{} MP"));
    t.push((Key::MsgAlreadyAtBottom, "이미 던전 끝에 도달했습니다.", "Already at the bottom of the dungeon."));
    t.push((Key::MsgBossFirst, "보스를 먼저 처치하세요.", "Defeat the boss first."));
    t.push((Key::MsgMenuNewGame, "새 게임", "New game"));
    t.push((Key::MsgMenuLoad, "이어하기", "Continue"));
    t.push((Key::MsgMenuHelp, "도움말", "Help"));
    t.push((Key::MsgStairs, "주위에 계단이 없습니다.", "There are no stairs here."));
    t.push((Key::MsgDeath, "쓰러졌습니다…", "You died…"));
    t.push((Key::MsgStairCancel, "내려가기를 취소했습니다.", "You stay on this floor."));
    t.push((Key::MsgStairConfirm, "▼ 다음 층으로 내려갈까?", "▼ Descend to the next floor?"));
    t.push((Key::MsgStairDescendOk, "{}층으로 내려갑니다.", "Descending to {}F."));
    t
}

} // verus!
