//! The tool's configuration: settings, and the names that commands use for
//! flags, indicators and log levels.

use vstd::prelude::*;
use crate::memedit::Bitflag;
use crate::numfmt::push_str;
use crate::pointers::Pointers;
use tracing::metadata::LevelFilter;

verus! {

/// A flag that a configuration command can name.
#[derive(Clone, Copy, Debug, PartialEq, Eq)]
pub enum FlagField {
    OneShot,
    NoDamage,
    NoDead,
    NoHit,
    NoGoodsConsume,
    NoStaminaConsume,
    NoFpConsume,
    NoAshesOfWarFpConsume,
    NoArrowsConsume,
    NoAttack,
    NoMove,
    NoUpdateAi,
    Gravity,
    TorrentGravity,
    Collision,
    TorrentCollision,
    DisplayStablePos,
    WeaponHitbox1,
    WeaponHitbox2,
    WeaponHitbox3,
    HitboxHigh,
    HitboxLow,
    HitboxF,
    HitboxCharacter,
    FieldAreaDirection,
    FieldAreaAltimeter,
    FieldAreaCompass,
    ShowChr,
}

impl FlagField {
    /// The name a configuration file uses for the flag.
    pub open spec fn name_spec(self) -> Seq<char> {
        match self {
            FlagField::OneShot => "one_shot"@,
            FlagField::NoDamage => "no_damage"@,
            FlagField::NoDead => "no_dead"@,
            FlagField::NoHit => "no_hit"@,
            FlagField::NoGoodsConsume => "no_goods_consume"@,
            FlagField::NoStaminaConsume => "no_stamina_consume"@,
            FlagField::NoFpConsume => "no_fp_consume"@,
            FlagField::NoAshesOfWarFpConsume => "no_ashes_of_war_fp_consume"@,
            FlagField::NoArrowsConsume => "no_arrows_consume"@,
            FlagField::NoAttack => "no_attack"@,
            FlagField::NoMove => "no_move"@,
            FlagField::NoUpdateAi => "no_update_ai"@,
            FlagField::Gravity => "gravity"@,
            FlagField::TorrentGravity => "torrent_gravity"@,
            FlagField::Collision => "collision"@,
            FlagField::TorrentCollision => "torrent_collision"@,
            FlagField::DisplayStablePos => "display_stable_pos"@,
            FlagField::WeaponHitbox1 => "weapon_hitbox1"@,
            FlagField::WeaponHitbox2 => "weapon_hitbox2"@,
            FlagField::WeaponHitbox3 => "weapon_hitbox3"@,
            FlagField::HitboxHigh => "hitbox_high"@,
            FlagField::HitboxLow => "hitbox_low"@,
            FlagField::HitboxF => "hitbox_f"@,
            FlagField::HitboxCharacter => "hitbox_character"@,
            FlagField::FieldAreaDirection => "field_area_direction"@,
            FlagField::FieldAreaAltimeter => "field_area_altimeter"@,
            FlagField::FieldAreaCompass => "field_area_compass"@,
            FlagField::ShowChr => "show_chr"@,
        }
    }

    /// The label the tool shows for the flag.
    pub open spec fn label_spec(self) -> Seq<char> {
        match self {
            FlagField::OneShot => "One shot"@,
            FlagField::NoDamage => "All no damage"@,
            FlagField::NoDead => "No death"@,
            FlagField::NoHit => "No hit"@,
            FlagField::NoGoodsConsume => "Inf Consumables"@,
            FlagField::NoStaminaConsume => "Inf Stamina"@,
            FlagField::NoFpConsume => "Inf Focus"@,
            FlagField::NoAshesOfWarFpConsume => "Inf Focus (AoW)"@,
            FlagField::NoArrowsConsume => "Inf arrows"@,
            FlagField::NoAttack => "No attack"@,
            FlagField::NoMove => "No move"@,
            FlagField::NoUpdateAi => "No update AI"@,
            FlagField::Gravity => "No Gravity"@,
            FlagField::TorrentGravity => "No Gravity (Torrent)"@,
            FlagField::Collision => "No Collision"@,
            FlagField::TorrentCollision => "No Collision (Torrent)"@,
            FlagField::DisplayStablePos => "Show stable pos"@,
            FlagField::WeaponHitbox1 => "Weapon hitbox #1"@,
            FlagField::WeaponHitbox2 => "Weapon hitbox #2"@,
            FlagField::WeaponHitbox3 => "Weapon hitbox #3"@,
            FlagField::HitboxHigh => "High world hitbox"@,
            FlagField::HitboxLow => "Low world hitbox"@,
            FlagField::HitboxF => "Walls hitbox"@,
            FlagField::HitboxCharacter => "Character hitbox"@,
            FlagField::FieldAreaDirection => "Direction HUD"@,
            FlagField::FieldAreaAltimeter => "Altimeter HUD"@,
            FlagField::FieldAreaCompass => "Compass HUD"@,
            FlagField::ShowChr => "Show/hide character"@,
        }
    }

    pub fn name(self) -> (r: &'static str)
        ensures
            r@ == self.name_spec(),
    {
        match self {
            FlagField::OneShot => "one_shot",
            FlagField::NoDamage => "no_damage",
            FlagField::NoDead => "no_dead",
            FlagField::NoHit => "no_hit",
            FlagField::NoGoodsConsume => "no_goods_consume",
            FlagField::NoStaminaConsume => "no_stamina_consume",
            FlagField::NoFpConsume => "no_fp_consume",
            FlagField::NoAshesOfWarFpConsume => "no_ashes_of_war_fp_consume",
            FlagField::NoArrowsConsume => "no_arrows_consume",
            FlagField::NoAttack => "no_attack",
            FlagField::NoMove => "no_move",
            FlagField::NoUpdateAi => "no_update_ai",
            FlagField::Gravity => "gravity",
            FlagField::TorrentGravity => "torrent_gravity",
            FlagField::Collision => "collision",
            FlagField::TorrentCollision => "torrent_collision",
            FlagField::DisplayStablePos => "display_stable_pos",
            FlagField::WeaponHitbox1 => "weapon_hitbox1",
            FlagField::WeaponHitbox2 => "weapon_hitbox2",
            FlagField::WeaponHitbox3 => "weapon_hitbox3",
            FlagField::HitboxHigh => "hitbox_high",
            FlagField::HitboxLow => "hitbox_low",
            FlagField::HitboxF => "hitbox_f",
            FlagField::HitboxCharacter => "hitbox_character",
            FlagField::FieldAreaDirection => "field_area_direction",
            FlagField::FieldAreaAltimeter => "field_area_altimeter",
            FlagField::FieldAreaCompass => "field_area_compass",
            FlagField::ShowChr => "show_chr",
        }
    }

    pub fn label(self) -> (r: &'static str)
        ensures
            r@ == self.label_spec(),
    {
        match self {
            FlagField::OneShot => "One shot",
            FlagField::NoDamage => "All no damage",
            FlagField::NoDead => "No death",
            FlagField::NoHit => "No hit",
            FlagField::NoGoodsConsume => "Inf Consumables",
            FlagField::NoStaminaConsume => "Inf Stamina",
            FlagField::NoFpConsume => "Inf Focus",
            FlagField::NoAshesOfWarFpConsume => "Inf Focus (AoW)",
            FlagField::NoArrowsConsume => "Inf arrows",
            FlagField::NoAttack => "No attack",
            FlagField::NoMove => "No move",
            FlagField::NoUpdateAi => "No update AI",
            FlagField::Gravity => "No Gravity",
            FlagField::TorrentGravity => "No Gravity (Torrent)",
            FlagField::Collision => "No Collision",
            FlagField::TorrentCollision => "No Collision (Torrent)",
            FlagField::DisplayStablePos => "Show stable pos",
            FlagField::WeaponHitbox1 => "Weapon hitbox #1",
            FlagField::WeaponHitbox2 => "Weapon hitbox #2",
            FlagField::WeaponHitbox3 => "Weapon hitbox #3",
            FlagField::HitboxHigh => "High world hitbox",
            FlagField::HitboxLow => "Low world hitbox",
            FlagField::HitboxF => "Walls hitbox",
            FlagField::HitboxCharacter => "Character hitbox",
            FlagField::FieldAreaDirection => "Direction HUD",
            FlagField::FieldAreaAltimeter => "Altimeter HUD",
            FlagField::FieldAreaCompass => "Compass HUD",
            FlagField::ShowChr => "Show/hide character",
        }
    }

    /// The flag within the pointers.
    pub open spec fn of_spec(self, p: Pointers) -> Bitflag {
        match self {
            FlagField::OneShot => p.one_shot,
            FlagField::NoDamage => p.no_damage,
            FlagField::NoDead => p.no_dead,
            FlagField::NoHit => p.no_hit,
            FlagField::NoGoodsConsume => p.no_goods_consume,
            FlagField::NoStaminaConsume => p.no_stamina_consume,
            FlagField::NoFpConsume => p.no_fp_consume,
            FlagField::NoAshesOfWarFpConsume => p.no_ashes_of_war_fp_consume,
            FlagField::NoArrowsConsume => p.no_arrows_consume,
            FlagField::NoAttack => p.no_attack,
            FlagField::NoMove => p.no_move,
            FlagField::NoUpdateAi => p.no_update_ai,
            FlagField::Gravity => p.gravity,
            FlagField::TorrentGravity => p.torrent_gravity,
            FlagField::Collision => p.collision,
            FlagField::TorrentCollision => p.torrent_collision,
            FlagField::DisplayStablePos => p.display_stable_pos,
            FlagField::WeaponHitbox1 => p.weapon_hitbox1,
            FlagField::WeaponHitbox2 => p.weapon_hitbox2,
            FlagField::WeaponHitbox3 => p.weapon_hitbox3,
            FlagField::HitboxHigh => p.hitbox_high,
            FlagField::HitboxLow => p.hitbox_low,
            FlagField::HitboxF => p.hitbox_f,
            FlagField::HitboxCharacter => p.hitbox_character,
            FlagField::FieldAreaDirection => p.field_area_direction,
            FlagField::FieldAreaAltimeter => p.field_area_altimeter,
            FlagField::FieldAreaCompass => p.field_area_compass,
            FlagField::ShowChr => p.show_chr,
        }
    }

    /// The flag within the pointers.
    pub fn of<'a>(self, p: &'a Pointers) -> (r: &'a Bitflag)
        ensures
            *r == self.of_spec(*p),
    {
        match self {
            FlagField::OneShot => &p.one_shot,
            FlagField::NoDamage => &p.no_damage,
            FlagField::NoDead => &p.no_dead,
            FlagField::NoHit => &p.no_hit,
            FlagField::NoGoodsConsume => &p.no_goods_consume,
            FlagField::NoStaminaConsume => &p.no_stamina_consume,
            FlagField::NoFpConsume => &p.no_fp_consume,
            FlagField::NoAshesOfWarFpConsume => &p.no_ashes_of_war_fp_consume,
            FlagField::NoArrowsConsume => &p.no_arrows_consume,
            FlagField::NoAttack => &p.no_attack,
            FlagField::NoMove => &p.no_move,
            FlagField::NoUpdateAi => &p.no_update_ai,
            FlagField::Gravity => &p.gravity,
            FlagField::TorrentGravity => &p.torrent_gravity,
            FlagField::Collision => &p.collision,
            FlagField::TorrentCollision => &p.torrent_collision,
            FlagField::DisplayStablePos => &p.display_stable_pos,
            FlagField::WeaponHitbox1 => &p.weapon_hitbox1,
            FlagField::WeaponHitbox2 => &p.weapon_hitbox2,
            FlagField::WeaponHitbox3 => &p.weapon_hitbox3,
            FlagField::HitboxHigh => &p.hitbox_high,
            FlagField::HitboxLow => &p.hitbox_low,
            FlagField::HitboxF => &p.hitbox_f,
            FlagField::HitboxCharacter => &p.hitbox_character,
            FlagField::FieldAreaDirection => &p.field_area_direction,
            FlagField::FieldAreaAltimeter => &p.field_area_altimeter,
            FlagField::FieldAreaCompass => &p.field_area_compass,
            FlagField::ShowChr => &p.show_chr,
        }
    }
}

/// Every flag a command can name.
pub open spec fn all_flag_fields() -> Seq<FlagField> {
    seq![FlagField::OneShot, FlagField::NoDamage, FlagField::NoDead, FlagField::NoHit, FlagField::NoGoodsConsume, FlagField::NoStaminaConsume, FlagField::NoFpConsume, FlagField::NoAshesOfWarFpConsume, FlagField::NoArrowsConsume, FlagField::NoAttack, FlagField::NoMove, FlagField::NoUpdateAi, FlagField::Gravity, FlagField::TorrentGravity, FlagField::Collision, FlagField::TorrentCollision, FlagField::DisplayStablePos, FlagField::WeaponHitbox1, FlagField::WeaponHitbox2, FlagField::WeaponHitbox3, FlagField::HitboxHigh, FlagField::HitboxLow, FlagField::HitboxF, FlagField::HitboxCharacter, FlagField::FieldAreaDirection, FlagField::FieldAreaAltimeter, FlagField::FieldAreaCompass, FlagField::ShowChr]
}

/// Every flag a command can name.
pub fn flag_fields() -> (v: Vec<FlagField>)
    ensures
        v@ == all_flag_fields(),
{
    let mut v: Vec<FlagField> = Vec::new();
    v.push(FlagField::OneShot);
    v.push(FlagField::NoDamage);
    v.push(FlagField::NoDead);
    v.push(FlagField::NoHit);
    v.push(FlagField::NoGoodsConsume);
    v.push(FlagField::NoStaminaConsume);
    v.push(FlagField::NoFpConsume);
    v.push(FlagField::NoAshesOfWarFpConsume);
    v.push(FlagField::NoArrowsConsume);
    v.push(FlagField::NoAttack);
    v.push(FlagField::NoMove);
    v.push(FlagField::NoUpdateAi);
    v.push(FlagField::Gravity);
    v.push(FlagField::TorrentGravity);
    v.push(FlagField::Collision);
    v.push(FlagField::TorrentCollision);
    v.push(FlagField::DisplayStablePos);
    v.push(FlagField::WeaponHitbox1);
    v.push(FlagField::WeaponHitbox2);
    v.push(FlagField::WeaponHitbox3);
    v.push(FlagField::HitboxHigh);
    v.push(FlagField::HitboxLow);
    v.push(FlagField::HitboxF);
    v.push(FlagField::HitboxCharacter);
    v.push(FlagField::FieldAreaDirection);
    v.push(FlagField::FieldAreaAltimeter);
    v.push(FlagField::FieldAreaCompass);
    v.push(FlagField::ShowChr);
    assert(v@ =~= all_flag_fields());
    v
}

/// Equality of two strings.
pub fn str_eq(a: &str, b: &str) -> (r: bool)
    ensures
        r == (a@ == b@),
{
    let n = a.unicode_len();
    let m = b.unicode_len();
    if n != m {
        return false;
    }
    let mut i: usize = 0;
    while i < n
        invariant
            n == a@.len(),
            m == b@.len(),
            n == m,
            0 <= i <= n,
            forall|k: int| 0 <= k < i ==> a@[k] == b@[k],
        decreases n - i,
    {
        if a.get_char(i) != b.get_char(i) {
            return false;
        }
        i = i + 1;
    }
    assert(a@ =~= b@);
    true
}

/// A flag command's flag: its label and the flag it switches.
#[derive(Debug)]
pub struct FlagSpec {
    pub label: String,
    pub field: FlagField,
}

impl FlagSpec {
    /// The flag named `value`, or the message `"<value>" is not a valid flag
    /// specifier`.
    pub fn try_from(value: &str) -> (r: Result<FlagSpec, String>)
        ensures
            match r {
                Ok(f) => f.field.name_spec() == value@ && f.label@ == f.field.label_spec(),
                Err(e) => (forall|f: FlagField| #[trigger] f.name_spec() != value@)
                    && e@ == seq!['"'] + value@ + "\" is not a valid flag specifier"@,
            },
    {
        let fields = flag_fields();
        let mut i: usize = 0;
        while i < fields.len()
            invariant
                fields@ == all_flag_fields(),
                0 <= i <= fields@.len(),
                forall|k: int| 0 <= k < i ==> (#[trigger] fields@[k]).name_spec() != value@,
            decreases fields@.len() - i,
        {
            let f = fields[i];
            if str_eq(value, f.name()) {
                let mut label = String::new();
                push_str(&mut label, f.label());
                return Ok(FlagSpec { label, field: f });
            }
            i = i + 1;
        }
        proof {
            assert forall|f: FlagField| #[trigger] f.name_spec() != value@ by {
                assert(all_flag_fields().contains(f)) by {
                    match f {
                        FlagField::OneShot => assert(all_flag_fields()[0] == f),
                        FlagField::NoDamage => assert(all_flag_fields()[1] == f),
                        FlagField::NoDead => assert(all_flag_fields()[2] == f),
                        FlagField::NoHit => assert(all_flag_fields()[3] == f),
                        FlagField::NoGoodsConsume => assert(all_flag_fields()[4] == f),
                        FlagField::NoStaminaConsume => assert(all_flag_fields()[5] == f),
                        FlagField::NoFpConsume => assert(all_flag_fields()[6] == f),
                        FlagField::NoAshesOfWarFpConsume => assert(all_flag_fields()[7] == f),
                        FlagField::NoArrowsConsume => assert(all_flag_fields()[8] == f),
                        FlagField::NoAttack => assert(all_flag_fields()[9] == f),
                        FlagField::NoMove => assert(all_flag_fields()[10] == f),
                        FlagField::NoUpdateAi => assert(all_flag_fields()[11] == f),
                        FlagField::Gravity => assert(all_flag_fields()[12] == f),
                        FlagField::TorrentGravity => assert(all_flag_fields()[13] == f),
                        FlagField::Collision => assert(all_flag_fields()[14] == f),
                        FlagField::TorrentCollision => assert(all_flag_fields()[15] == f),
                        FlagField::DisplayStablePos => assert(all_flag_fields()[16] == f),
                        FlagField::WeaponHitbox1 => assert(all_flag_fields()[17] == f),
                        FlagField::WeaponHitbox2 => assert(all_flag_fields()[18] == f),
                        FlagField::WeaponHitbox3 => assert(all_flag_fields()[19] == f),
                        FlagField::HitboxHigh => assert(all_flag_fields()[20] == f),
                        FlagField::HitboxLow => assert(all_flag_fields()[21] == f),
                        FlagField::HitboxF => assert(all_flag_fields()[22] == f),
                        FlagField::HitboxCharacter => assert(all_flag_fields()[23] == f),
                        FlagField::FieldAreaDirection => assert(all_flag_fields()[24] == f),
                        FlagField::FieldAreaAltimeter => assert(all_flag_fields()[25] == f),
                        FlagField::FieldAreaCompass => assert(all_flag_fields()[26] == f),
                        FlagField::ShowChr => assert(all_flag_fields()[27] == f),
                    }
                }
            }
        }
        let mut e = String::new();
        crate::numfmt::push_char(&mut e, '"');
        push_str(&mut e, value);
        push_str(&mut e, "\" is not a valid flag specifier");
        Err(e)
    }
}

/// Which map-geometry flag a multi-flag item switches, for a list of `len`
/// geometry flags: items past the thirteenth fall back to the thirteenth when
/// the list is that short.
pub open spec fn geom_pick(item: usize, len: usize) -> usize {
    if item >= 13 && len <= 13 {
        12
    } else {
        item
    }
}

/// Each multi-flag item switches its own geometry flag when there are at
/// least sixteen of them, and whenever the item is one of the first thirteen;
/// only with thirteen flags do the items past the thirteenth all fall back to
/// the thirteenth. The flag picked is always one of the list's.
pub proof fn lemma_geom_pick(item: usize, len: usize)
    requires
        item < 16,
        len == 13 || len >= 16,
    ensures
        len >= 16 ==> geom_pick(item, len) == item,
        item < 13 ==> geom_pick(item, len) == item,
        len == 13 && item >= 13 ==> geom_pick(item, len) == 12,
        geom_pick(item, len) < len,
{
}

/// A multi-flag command's flags: its label and the geometry items it switches.
#[derive(Debug)]
pub struct MultiFlagSpec {
    pub label: String,
    pub items: Vec<usize>,
}

impl MultiFlagSpec {
    /// The multi-flag named `value` (only `show_map`: the sixteen geometry
    /// items), or the message `"<value>" is not a valid multiflag specifier`.
    pub fn try_from(value: &str) -> (r: Result<MultiFlagSpec, String>)
        ensures
            value@ == "show_map"@ ==> (r matches Ok(m) && m.label@ == "Show/hide map"@
                && m.items@ == Seq::new(16, |i: int| i as usize)),
            value@ != "show_map"@ ==> (r matches Err(e)
                && e@ == seq!['"'] + value@ + "\" is not a valid multiflag specifier"@),
    {
        if str_eq(value, "show_map") {
            let mut items: Vec<usize> = Vec::new();
            let mut i: usize = 0;
            while i < 16
                invariant
                    0 <= i <= 16,
                    items@ =~= Seq::new(i as nat, |k: int| k as usize),
                decreases 16 - i,
            {
                items.push(i);
                i = i + 1;
            }
            let mut label = String::new();
            push_str(&mut label, "Show/hide map");
            Ok(MultiFlagSpec { label, items })
        } else {
            let mut e = String::new();
            crate::numfmt::push_char(&mut e, '"');
            push_str(&mut e, value);
            push_str(&mut e, "\" is not a valid multiflag specifier");
            Err(e)
        }
    }

    /// The geometry flags the items switch, within the pointers.
    pub fn flags<'a>(&self, p: &'a Pointers) -> (r: Vec<&'a Bitflag>)
        requires
            p.show_geom@.len() == 13 || p.show_geom@.len() >= 16,
            forall|i: int| 0 <= i < self.items@.len() ==> #[trigger] self.items@[i] < 16,
        ensures
            r@.len() == self.items@.len(),
            forall|i: int| 0 <= i < r@.len() ==> *(#[trigger] r@[i]) == p.show_geom@[geom_pick(self.items@[i], p.show_geom@.len() as usize) as int],
            p.show_geom@.len() >= 16 ==> forall|i: int| 0 <= i < r@.len() ==> *(#[trigger] r@[i]) == p.show_geom@[self.items@[i] as int],
    {
        let len = p.show_geom.len();
        let mut r: Vec<&'a Bitflag> = Vec::new();
        let mut i: usize = 0;
        while i < self.items.len()
            invariant
                len == p.show_geom@.len(),
                len == 13 || len >= 16,
                forall|k: int| 0 <= k < self.items@.len() ==> #[trigger] self.items@[k] < 16,
                0 <= i <= self.items@.len(),
                r@.len() == i,
                forall|k: int| 0 <= k < i ==> *(#[trigger] r@[k]) == p.show_geom@[geom_pick(self.items@[k], len) as int],
            decreases self.items@.len() - i,
        {
            let item = self.items[i];
            proof {
                lemma_geom_pick(item, len);
            }
            let pick = if item >= 13 && len <= 13 { 12 } else { item };
            r.push(&p.show_geom[pick]);
            i = i + 1;
        }
        r
    }
}

/// An indicator shown while the menu is closed.
#[derive(Clone, Copy, Debug, PartialEq, Eq)]
pub enum Indicator {
    Igt,
    Position,
    GameVersion,
    ImguiDebug,
}

impl Indicator {
    /// Game version, position and in-game time.
    pub fn default_set() -> (v: Vec<Indicator>)
        ensures
            v@ == seq![Indicator::GameVersion, Indicator::Position, Indicator::Igt],
    {
        let mut v: Vec<Indicator> = Vec::new();
        v.push(Indicator::GameVersion);
        v.push(Indicator::Position);
        v.push(Indicator::Igt);
        assert(v@ =~= seq![Indicator::GameVersion, Indicator::Position, Indicator::Igt]);
        v
    }

    /// The indicator named `value` (`igt`, `position`, `game_version`,
    /// `imgui_debug`), or the message `Unrecognized indicator: <value>`.
    pub fn try_from(value: &str) -> (r: Result<Indicator, String>)
        ensures
            value@ == "igt"@ ==> r == Ok::<Indicator, String>(Indicator::Igt),
            value@ == "position"@ ==> r == Ok::<Indicator, String>(Indicator::Position),
            value@ == "game_version"@ ==> r == Ok::<Indicator, String>(Indicator::GameVersion),
            value@ == "imgui_debug"@ ==> r == Ok::<Indicator, String>(Indicator::ImguiDebug),
            (value@ != "igt"@ && value@ != "position"@ && value@ != "game_version"@ && value@ != "imgui_debug"@)
                ==> (r matches Err(e) && e@ == "Unrecognized indicator: "@ + value@),
    {
        proof {
            reveal_strlit("igt");
            reveal_strlit("position");
            reveal_strlit("game_version");
            reveal_strlit("imgui_debug");
            assert("igt"@.len() == 3 && "position"@.len() == 8 && "game_version"@.len() == 12
                && "imgui_debug"@.len() == 11);
        }
        if str_eq(value, "igt") {
            Ok(Indicator::Igt)
        } else if str_eq(value, "position") {
            Ok(Indicator::Position)
        } else if str_eq(value, "game_version") {
            Ok(Indicator::GameVersion)
        } else if str_eq(value, "imgui_debug") {
            Ok(Indicator::ImguiDebug)
        } else {
            let mut e = String::new();
            push_str(&mut e, "Unrecognized indicator: ");
            push_str(&mut e, value);
            Err(e)
        }
    }
}

/// A value that a command may hold, or a placeholder (`true`/`false`) that
/// stands for no value.
#[derive(Debug)]
pub enum PlaceholderOption<T> {
    Data(T),
    Placeholder(bool),
}

impl<T> PlaceholderOption<T> {
    pub fn into_option(self) -> (r: Option<T>)
        ensures
            r == match self {
                PlaceholderOption::Data(d) => Some(d),
                PlaceholderOption::Placeholder(_) => None::<T>,
            },
    {
        match self {
            PlaceholderOption::Data(d) => Some(d),
            PlaceholderOption::Placeholder(_) => None,
        }
    }
}

/// A special flag command: the death camera or the action freeze.
#[derive(Clone, Copy, Debug, PartialEq, Eq)]
pub enum SpecialFlag {
    Deathcam,
    ActionFreeze,
}

impl SpecialFlag {
    /// The special flag named `name`, if any (otherwise the command is skipped).
    pub fn from_name(name: &str) -> (r: Option<SpecialFlag>)
        ensures
            r == if name@ == "deathcam"@ {
                Some(SpecialFlag::Deathcam)
            } else if name@ == "action_freeze"@ {
                Some(SpecialFlag::ActionFreeze)
            } else {
                None::<SpecialFlag>
            },
    {
        proof {
            reveal_strlit("deathcam");
            reveal_strlit("action_freeze");
            assert("deathcam"@.len() != "action_freeze"@.len());
        }
        if str_eq(name, "deathcam") {
            Some(SpecialFlag::Deathcam)
        } else if str_eq(name, "action_freeze") {
            Some(SpecialFlag::ActionFreeze)
        } else {
            None
        }
    }
}

/// A log level filter, from the most to the least restrictive.
#[derive(Clone, Copy, Debug, PartialEq, Eq)]
pub enum LogLevel {
    Off,
    Error,
    Warn,
    Info,
    Debug,
    Trace,
}

impl LogLevel {
    /// Position in the order `Off < Error < Warn < Info < Debug < Trace`.
    pub open spec fn rank(self) -> nat {
        match self {
            LogLevel::Off => 0,
            LogLevel::Error => 1,
            LogLevel::Warn => 2,
            LogLevel::Info => 3,
            LogLevel::Debug => 4,
            LogLevel::Trace => 5,
        }
    }

    /// Whether this filter lets fewer messages through than `other`.
    pub fn less_than(self, other: LogLevel) -> (r: bool)
        ensures
            r == (self.rank() < other.rank()),
    {
        let a: u8 = match self {
            LogLevel::Off => 0,
            LogLevel::Error => 1,
            LogLevel::Warn => 2,
            LogLevel::Info => 3,
            LogLevel::Debug => 4,
            LogLevel::Trace => 5,
        };
        let b: u8 = match other {
            LogLevel::Off => 0,
            LogLevel::Error => 1,
            LogLevel::Warn => 2,
            LogLevel::Info => 3,
            LogLevel::Debug => 4,
            LogLevel::Trace => 5,
        };
        a < b
    }
}

/// The value of a string of decimal digits.
pub open spec fn digits_value(s: Seq<char>) -> int
    decreases s.len(),
{
    if s.len() == 0 {
        0
    } else {
        digits_value(s.drop_last()) * 10 + (s.last() as int - 48)
    }
}

/// What `usize::from_str` gives: an optional `+`, then one or more decimal
/// digits whose value fits.
pub open spec fn parse_usize_spec(s: Seq<char>) -> Option<int> {
    let d = if s.len() > 0 && s[0] == '+' {
        s.drop_first()
    } else {
        s
    };
    if d.len() > 0 && (forall|i: int| 0 <= i < d.len() ==> '0' <= #[trigger] d[i] && d[i] <= '9')
        && digits_value(d) <= usize::MAX {
        Some(digits_value(d))
    } else {
        None
    }
}

/// `c` with ASCII uppercase letters lowered.
pub open spec fn ascii_lower(c: char) -> char {
    if 'A' <= c && c <= 'Z' {
        ((c as u32) + 32) as char
    } else {
        c
    }
}

/// Equality ignoring ASCII case.
pub open spec fn eq_ignore_ascii_case(a: Seq<char>, b: Seq<char>) -> bool {
    a.len() == b.len() && forall|i: int| 0 <= i < a.len() ==> #[trigger] ascii_lower(a[i]) == ascii_lower(b[i])
}

/// What `LevelFilter::from_str` gives: a number from 0 (off) to 5 (trace),
/// the empty string (error), or a level name in any ASCII case.
pub open spec fn level_filter_spec(s: Seq<char>) -> Option<LogLevel> {
    let n = parse_usize_spec(s);
    if n == Some(0int) {
        Some(LogLevel::Off)
    } else if n == Some(1int) {
        Some(LogLevel::Error)
    } else if n == Some(2int) {
        Some(LogLevel::Warn)
    } else if n == Some(3int) {
        Some(LogLevel::Info)
    } else if n == Some(4int) {
        Some(LogLevel::Debug)
    } else if n == Some(5int) {
        Some(LogLevel::Trace)
    } else if s.len() == 0 {
        Some(LogLevel::Error)
    } else if eq_ignore_ascii_case(s, "error"@) {
        Some(LogLevel::Error)
    } else if eq_ignore_ascii_case(s, "warn"@) {
        Some(LogLevel::Warn)
    } else if eq_ignore_ascii_case(s, "info"@) {
        Some(LogLevel::Info)
    } else if eq_ignore_ascii_case(s, "debug"@) {
        Some(LogLevel::Debug)
    } else if eq_ignore_ascii_case(s, "trace"@) {
        Some(LogLevel::Trace)
    } else if eq_ignore_ascii_case(s, "off"@) {
        Some(LogLevel::Off)
    } else {
        None
    }
}

/// `tracing::metadata::LevelFilter::from_str`, with the filter told apart by
/// its six values. Claimed: the result is what `level_filter_spec` states,
/// which is what the function's source does.
#[verifier::external_body]
fn parse_level_filter(s: &str) -> (r: Option<LogLevel>)
    ensures
        r == level_filter_spec(s@),
{
    match s.parse::<LevelFilter>() {
        Ok(l) if l == LevelFilter::OFF => Some(LogLevel::Off),
        Ok(l) if l == LevelFilter::ERROR => Some(LogLevel::Error),
        Ok(l) if l == LevelFilter::WARN => Some(LogLevel::Warn),
        Ok(l) if l == LevelFilter::INFO => Some(LogLevel::Info),
        Ok(l) if l == LevelFilter::DEBUG => Some(LogLevel::Debug),
        Ok(_) => Some(LogLevel::Trace),
        Err(_) => None,
    }
}

/// The message of a failed log level parse.
pub open spec fn level_error_text() -> Seq<char> {
    "Couldn't parse log level filter: error parsing level filter: expected one of \"off\", \"error\", \"warn\", \"info\", \"debug\", \"trace\", or a number 0-5"@
}

/// The configured log level.
#[derive(Clone, Copy, Debug, PartialEq, Eq)]
pub struct LevelFilterSerde(pub LogLevel);

impl LevelFilterSerde {
    pub fn inner(&self) -> (r: LogLevel)
        ensures
            r == self.0,
    {
        self.0
    }

    /// The level that `value` names, or the parse error message.
    pub fn try_from(value: &str) -> (r: Result<LevelFilterSerde, String>)
        ensures
            match level_filter_spec(value@) {
                Some(l) => r == Ok::<LevelFilterSerde, String>(LevelFilterSerde(l)),
                None => r matches Err(e) && e@ == level_error_text(),
            },
    {
        match parse_level_filter(value) {
            Some(l) => Ok(LevelFilterSerde(l)),
            None => {
                let mut e = String::new();
                push_str(&mut e, "Couldn't parse log level filter: error parsing level filter: expected one of \"off\", \"error\", \"warn\", \"info\", \"debug\", \"trace\", or a number 0-5");
                Err(e)
            },
        }
    }
}

/// The tool's settings. Keys are kept as the text that names them.
#[derive(Debug)]
pub struct Settings {
    pub log_level: LevelFilterSerde,
    pub display: String,
    pub hide: Option<String>,
    pub dxgi_debug: bool,
    pub show_console: bool,
    pub disable_update_prompt: bool,
    pub indicators: Vec<Indicator>,
}

impl Settings {
    /// The settings used when the configuration cannot be read: debug logging,
    /// `0` to open the menu, `rshift+0` to hide, the default indicators.
    pub fn default_settings() -> (s: Settings)
        ensures
            s.log_level == LevelFilterSerde(LogLevel::Debug),
            s.display@ == "0"@,
            s.hide matches Some(h) && h@ == "rshift+0"@,
            !s.dxgi_debug,
            !s.show_console,
            !s.disable_update_prompt,
            s.indicators@ == seq![Indicator::GameVersion, Indicator::Position, Indicator::Igt],
    {
        let mut display = String::new();
        push_str(&mut display, "0");
        let mut hide = String::new();
        push_str(&mut hide, "rshift+0");
        Settings {
            log_level: LevelFilterSerde(LogLevel::Debug),
            display,
            hide: Some(hide),
            dxgi_debug: false,
            show_console: false,
            indicators: Indicator::default_set(),
            disable_update_prompt: false,
        }
    }

    /// The console stays only with a log level of at least debug and the
    /// console enabled.
    pub fn keeps_console(&self) -> (r: bool)
        ensures
            r == (!(self.log_level.0.rank() < LogLevel::Debug.rank()) && self.show_console),
    {
        !(self.log_level.0.less_than(LogLevel::Debug) || !self.show_console)
    }

    /// Updates are checked unless the prompt is disabled.
    pub fn checks_updates(&self) -> (r: bool)
        ensures
            r == !self.disable_update_prompt,
    {
        !self.disable_update_prompt
    }
}

/// The message shown in the menu when the configuration could not be loaded
/// (the defaults are used instead).
pub fn config_error_message(e: &str) -> (r: String)
    ensures
        r@ == "Configuration error, please review your jdsd_er_practice_tool.toml file.\n\n"@ + e@,
{
    let mut r = String::new();
    push_str(&mut r, "Configuration error, please review your jdsd_er_practice_tool.toml file.\n\n");
    push_str(&mut r, e);
    r
}

/// The entries that were made, in order: a group keeps those of its commands
/// that became entries and drops the rest.
pub open spec fn made_entries(s: Seq<Option<String>>) -> Seq<Seq<char>>
    decreases s.len(),
{
    if s.len() == 0 {
        Seq::empty()
    } else {
        match s.last() {
            Some(t) => made_entries(s.drop_last()).push(t@),
            None => made_entries(s.drop_last()),
        }
    }
}

/// The entries of a group's commands, leaving out each command that was
/// skipped (`None`, such as an unknown special flag).
pub fn kept_entries(entries: &Vec<Option<String>>) -> (r: Vec<String>)
    ensures
        r@.len() == made_entries(entries@).len(),
        forall|i: int| 0 <= i < r@.len() ==> #[trigger] r@[i]@ == made_entries(entries@)[i],
{
    let mut r: Vec<String> = Vec::new();
    let mut i: usize = 0;
    while i < entries.len()
        invariant
            0 <= i <= entries@.len(),
            r@.len() == made_entries(entries@.subrange(0, i as int)).len(),
            forall|k: int| 0 <= k < r@.len() ==> #[trigger] r@[k]@ == made_entries(entries@.subrange(0, i as int))[k],
        decreases entries@.len() - i,
    {
        proof {
            assert(entries@.subrange(0, i + 1).drop_last() =~= entries@.subrange(0, i as int));
            assert(entries@.subrange(0, i + 1).last() == entries@[i as int]);
        }
        match &entries[i] {
            Some(t) => {
                r.push(t.clone());
            },
            None => {},
        }
        i = i + 1;
    }
    assert(entries@.subrange(0, entries@.len() as int) =~= entries@);
    r
}

} // verus!