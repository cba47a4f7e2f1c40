//! The item spawner: which item it spawns, how it reports what it did.

use vstd::prelude::*;
use crate::numfmt::{push_char, push_decimal, push_radix, push_str, radix_digits, radix_text};

verus! {

/// Number of affinities offered.
pub const AFFINITY_COUNT: usize = 13;

/// Number of upgrade levels offered.
pub const UPGRADE_COUNT: usize = 26;

/// The item id offset of affinity `i`.
pub open spec fn affinity_value_spec(i: usize) -> u32 {
    match i {
        0 => 0,
        1 => 100,
        2 => 200,
        3 => 300,
        4 => 400,
        5 => 500,
        6 => 600,
        7 => 700,
        8 => 800,
        9 => 900,
        10 => 1000,
        11 => 1100,
        _ => 1200,
    }
}

/// The name of affinity `i`.
pub open spec fn affinity_label_spec(i: usize) -> Seq<char> {
    match i {
        0 => "No affinity"@,
        1 => "Heavy"@,
        2 => "Keen"@,
        3 => "Quality"@,
        4 => "Fire"@,
        5 => "Flame Art"@,
        6 => "Lightning"@,
        7 => "Sacred"@,
        8 => "Magic"@,
        9 => "Cold"@,
        10 => "Poison"@,
        11 => "Blood"@,
        _ => "Occult"@,
    }
}

/// Affinity `i`: its item id offset and its name.
pub fn affinity(i: usize) -> (r: (u32, &'static str))
    requires
        i < AFFINITY_COUNT,
    ensures
        r.0 == affinity_value_spec(i),
        r.1@ == affinity_label_spec(i),
{
    match i {
        0 => (0, "No affinity"),
        1 => (100, "Heavy"),
        2 => (200, "Keen"),
        3 => (300, "Quality"),
        4 => (400, "Fire"),
        5 => (500, "Flame Art"),
        6 => (600, "Lightning"),
        7 => (700, "Sacred"),
        8 => (800, "Magic"),
        9 => (900, "Cold"),
        10 => (1000, "Poison"),
        11 => (1100, "Blood"),
        _ => (1200, "Occult"),
    }
}

/// Each affinity adds a further hundred to the item id: affinity `i` adds
/// `100 * i`, so a spawned item's id is the selected id, plus the upgrade
/// level, plus a hundred per affinity step.
pub proof fn lemma_affinity_steps(i: usize)
    requires
        i < AFFINITY_COUNT,
    ensures
        affinity_value_spec(i) == 100 * i,
{
}

/// The name of upgrade level `i`: `+i`.
pub open spec fn upgrade_label_spec(i: int) -> Seq<char> {
    seq!['+'] + radix_digits(i as nat, 10)
}

/// Upgrade level `i`: its item id offset (`i` itself) and its name.
pub fn upgrade(i: usize) -> (r: (u32, String))
    requires
        i < UPGRADE_COUNT,
    ensures
        r.0 == i,
        r.1@ == upgrade_label_spec(i as int),
{
    let mut s = String::new();
    push_char(&mut s, '+');
    push_decimal(&mut s, i as u64);
    (i as u32, s)
}

/// A request to the game's item-spawning function.
#[derive(Clone, Copy, Debug, PartialEq, Eq)]
pub struct ItemSpawnInstance {
    pub spawn_item_func_ptr: u64,
    pub map_item_man: u64,
    pub qty: u32,
    pub item_id: u32,
}

impl ItemSpawnInstance {
    /// `{item_id:08x} (qty={qty})`.
    pub fn describe(&self) -> (s: String)
        ensures
            s@ == radix_text(self.item_id as nat, 16, 8) + seq![' '] + "(qty="@ + radix_digits(self.qty as nat, 10)
                + seq![')'],
    {
        let mut s = String::new();
        push_radix(&mut s, self.item_id as u64, 16, 8);
        push_char(&mut s, ' ');
        push_str(&mut s, "(qty=");
        push_decimal(&mut s, self.qty as u64);
        push_char(&mut s, ')');
        s
    }
}

/// State of the item spawner.
#[derive(Debug)]
pub struct ItemSpawner {
    pub func_ptr: usize,
    pub map_item_man: usize,
    pub qty: u32,
    pub item_id: u32,
    pub upgrade: usize,
    pub affinity: usize,
    pub log: Option<Vec<String>>,
}

/// The log after appending `msg`.
pub open spec fn logged(log: Option<Vec<String>>, msg: Seq<char>) -> Seq<Seq<char>> {
    match log {
        None => seq![msg],
        Some(v) => v@.map_values(|s: String| s@).push(msg),
    }
}

/// The message logged when an item is spawned.
pub open spec fn spawn_message(qty: u32, item_id: u32, upgrade: int, affinity: usize) -> Seq<char> {
    "Spawning "@ + radix_digits(qty as nat, 10) + seq![' ', '#'] + radix_digits(item_id as nat, 10) + seq![' ']
        + upgrade_label_spec(upgrade) + seq![' '] + affinity_label_spec(affinity)
}

impl ItemSpawner {
    /// Selections are within the offered lists.
    pub open spec fn wf(self) -> bool {
        self.upgrade < UPGRADE_COUNT && self.affinity < AFFINITY_COUNT
    }

    /// One of the goods, no upgrade, no affinity, nothing logged.
    pub fn new(func_ptr: usize, map_item_man: usize) -> (s: ItemSpawner)
        ensures
            s.wf(),
            s.func_ptr == func_ptr,
            s.map_item_man == map_item_man,
            s.qty == 1,
            s.item_id == 0x40000000 + 2919,
            s.upgrade == 0,
            s.affinity == 0,
            s.log is None,
    {
        ItemSpawner { func_ptr, map_item_man, qty: 1, item_id: 0x40000000 + 2919, upgrade: 0, affinity: 0, log: None }
    }

    /// Appends `msg` to the log.
    pub fn write_log(&mut self, msg: String)
        ensures
            final(self).log matches Some(v) && v@.map_values(|s: String| s@) == logged(old(self).log, msg@),
            final(self).qty == old(self).qty,
            final(self).item_id == old(self).item_id,
            final(self).upgrade == old(self).upgrade,
            final(self).affinity == old(self).affinity,
            final(self).func_ptr == old(self).func_ptr,
            final(self).map_item_man == old(self).map_item_man,
    {
        let logs = self.log.take();
        self.log = match logs {
            Some(mut v) => {
                let ghost before = v@;
                v.push(msg);
                proof {
                    assert(v@.map_values(|s: String| s@) =~= before.map_values(|s: String| s@).push(msg@));
                }
                Some(v)
            },
            None => {
                let mut v: Vec<String> = Vec::new();
                v.push(msg);
                proof {
                    assert(v@.map_values(|s: String| s@) =~= seq![msg@]);
                }
                Some(v)
            },
        };
    }

    /// Hands the log out and empties it.
    pub fn take_log(&mut self) -> (r: Option<Vec<String>>)
        ensures
            r == old(self).log,
            final(self).log is None,
            final(self).qty == old(self).qty,
            final(self).item_id == old(self).item_id,
            final(self).upgrade == old(self).upgrade,
            final(self).affinity == old(self).affinity,
            final(self).func_ptr == old(self).func_ptr,
            final(self).map_item_man == old(self).map_item_man,
    {
        self.log.take()
    }

    /// Spawns the selected item: outside the game (`in_game` false) only logs
    /// that it does not; otherwise logs what it spawns and returns the request,
    /// whose item id is the selected id plus the upgrade and affinity offsets.
    pub fn spawn(&mut self, in_game: bool) -> (r: Option<ItemSpawnInstance>)
        requires
            old(self).wf(),
            old(self).item_id + old(self).upgrade + affinity_value_spec(old(self).affinity) <= u32::MAX,
        ensures
            final(self).wf(),
            final(self).qty == old(self).qty,
            final(self).item_id == old(self).item_id,
            final(self).upgrade == old(self).upgrade,
            final(self).affinity == old(self).affinity,
            !in_game ==> r is None && (final(self).log matches Some(v)
                && v@.map_values(|s: String| s@) == logged(old(self).log, "Not spawning item when not in game"@)),
            in_game ==> r == Some(ItemSpawnInstance {
                spawn_item_func_ptr: old(self).func_ptr as u64,
                map_item_man: old(self).map_item_man as u64,
                qty: old(self).qty,
                item_id: (old(self).item_id + old(self).upgrade + affinity_value_spec(old(self).affinity)) as u32,
            }) && (final(self).log matches Some(v) && v@.map_values(|s: String| s@) == logged(old(self).log,
                spawn_message(old(self).qty, old(self).item_id, old(self).upgrade as int, old(self).affinity))),
    {
        if !in_game {
            self.write_log(String::from_str("Not spawning item when not in game"));
            return None;
        }
        let (up, up_label) = upgrade(self.upgrade);
        let (aff, aff_label) = affinity(self.affinity);
        let i = ItemSpawnInstance {
            spawn_item_func_ptr: self.func_ptr as u64,
            map_item_man: self.map_item_man as u64,
            qty: self.qty,
            item_id: self.item_id + up + aff,
        };
        let mut msg = String::new();
        push_str(&mut msg, "Spawning ");
        push_decimal(&mut msg, i.qty as u64);
        push_char(&mut msg, ' ');
        push_char(&mut msg, '#');
        push_decimal(&mut msg, self.item_id as u64);
        push_char(&mut msg, ' ');
        push_str(&mut msg, up_label.as_str());
        push_char(&mut msg, ' ');
        push_str(&mut msg, aff_label);
        proof {
            assert(msg@ =~= spawn_message(self.qty, self.item_id, self.upgrade as int, self.affinity));
        }
        self.write_log(msg);
        Some(i)
    }
}

} // verus!
