//! Where the tool's flags and values live in the game's memory, for each
//! supported game version.

use vstd::prelude::*;
use crate::memedit::{Bitflag, BytesPatch, PointerChain};
use crate::version::Version;

verus! {

/// Addresses found by scanning the game executable, relative to the module
/// base until `with_module_base_addr` adds it.
#[derive(Clone, Copy, Debug, PartialEq, Eq)]
pub struct BaseAddresses {
    pub chr_dbg_flags: usize,
    pub cs_menu_man_imp: usize,
    pub damage_ctrl: usize,
    pub field_area: usize,
    pub game_data_man: usize,
    pub group_mask: usize,
    pub hit_ins_hitbox_offset: usize,
    pub world_chr_man: usize,
    pub func_item_spawn: usize,
    pub func_item_inject: usize,
    pub lua_warp: usize,
    pub func_check_graces: usize,
    pub cs_lua_event_manager: usize,
    pub current_target: usize,
    pub base_fps: usize,
    pub base_anim: usize,
    pub dbg_event_man_off: usize,
    pub world_chr_man_dbg: usize,
    pub func_dbg_action_force: usize,
    pub sound_draw_patch: usize,
    pub targeting_debug_draw: usize,
    pub map_item_man: usize,
    pub cs_regulation_manager: usize,
    pub func_remove_intro_screens: usize,
}

impl BaseAddresses {
    /// Every address leaves room for the offsets the tool adds to it.
    pub open spec fn fits(self) -> bool {
        &&& self.chr_dbg_flags <= usize::MAX - 0x10000
        &&& self.cs_menu_man_imp <= usize::MAX - 0x10000
        &&& self.damage_ctrl <= usize::MAX - 0x10000
        &&& self.field_area <= usize::MAX - 0x10000
        &&& self.game_data_man <= usize::MAX - 0x10000
        &&& self.group_mask <= usize::MAX - 0x10000
        &&& self.hit_ins_hitbox_offset <= usize::MAX - 0x10000
        &&& self.world_chr_man <= usize::MAX - 0x10000
        &&& self.func_item_spawn <= usize::MAX - 0x10000
        &&& self.func_item_inject <= usize::MAX - 0x10000
        &&& self.lua_warp <= usize::MAX - 0x10000
        &&& self.func_check_graces <= usize::MAX - 0x10000
        &&& self.cs_lua_event_manager <= usize::MAX - 0x10000
        &&& self.current_target <= usize::MAX - 0x10000
        &&& self.base_fps <= usize::MAX - 0x10000
        &&& self.base_anim <= usize::MAX - 0x10000
        &&& self.dbg_event_man_off <= usize::MAX - 0x10000
        &&& self.world_chr_man_dbg <= usize::MAX - 0x10000
        &&& self.func_dbg_action_force <= usize::MAX - 0x10000
        &&& self.sound_draw_patch <= usize::MAX - 0x10000
        &&& self.targeting_debug_draw <= usize::MAX - 0x10000
        &&& self.map_item_man <= usize::MAX - 0x10000
        &&& self.cs_regulation_manager <= usize::MAX - 0x10000
        &&& self.func_remove_intro_screens <= usize::MAX - 0x10000
    }

    /// Every address, moved by `module_base`, still leaves that room.
    pub open spec fn fits_moved(self, module_base: usize) -> bool {
        &&& self.chr_dbg_flags + module_base <= usize::MAX - 0x10000
        &&& self.cs_menu_man_imp + module_base <= usize::MAX - 0x10000
        &&& self.damage_ctrl + module_base <= usize::MAX - 0x10000
        &&& self.field_area + module_base <= usize::MAX - 0x10000
        &&& self.game_data_man + module_base <= usize::MAX - 0x10000
        &&& self.group_mask + module_base <= usize::MAX - 0x10000
        &&& self.hit_ins_hitbox_offset + module_base <= usize::MAX - 0x10000
        &&& self.world_chr_man + module_base <= usize::MAX - 0x10000
        &&& self.func_item_spawn + module_base <= usize::MAX - 0x10000
        &&& self.func_item_inject + module_base <= usize::MAX - 0x10000
        &&& self.lua_warp + module_base <= usize::MAX - 0x10000
        &&& self.func_check_graces + module_base <= usize::MAX - 0x10000
        &&& self.cs_lua_event_manager + module_base <= usize::MAX - 0x10000
        &&& self.current_target + module_base <= usize::MAX - 0x10000
        &&& self.base_fps + module_base <= usize::MAX - 0x10000
        &&& self.base_anim + module_base <= usize::MAX - 0x10000
        &&& self.dbg_event_man_off + module_base <= usize::MAX - 0x10000
        &&& self.world_chr_man_dbg + module_base <= usize::MAX - 0x10000
        &&& self.func_dbg_action_force + module_base <= usize::MAX - 0x10000
        &&& self.sound_draw_patch + module_base <= usize::MAX - 0x10000
        &&& self.targeting_debug_draw + module_base <= usize::MAX - 0x10000
        &&& self.map_item_man + module_base <= usize::MAX - 0x10000
        &&& self.cs_regulation_manager + module_base <= usize::MAX - 0x10000
        &&& self.func_remove_intro_screens + module_base <= usize::MAX - 0x10000
    }

    /// The same addresses, moved by the module's base address.
    pub fn with_module_base_addr(self, module_base: usize) -> (r: BaseAddresses)
        requires
            self.fits_moved(module_base),
        ensures
            r.fits(),
            ({
            &&& r.chr_dbg_flags == self.chr_dbg_flags + module_base
            &&& r.cs_menu_man_imp == self.cs_menu_man_imp + module_base
            &&& r.damage_ctrl == self.damage_ctrl + module_base
            &&& r.field_area == self.field_area + module_base
            &&& r.game_data_man == self.game_data_man + module_base
            &&& r.group_mask == self.group_mask + module_base
            &&& r.hit_ins_hitbox_offset == self.hit_ins_hitbox_offset + module_base
            &&& r.world_chr_man == self.world_chr_man + module_base
            &&& r.func_item_spawn == self.func_item_spawn + module_base
            &&& r.func_item_inject == self.func_item_inject + module_base
            &&& r.lua_warp == self.lua_warp + module_base
            &&& r.func_check_graces == self.func_check_graces + module_base
            &&& r.cs_lua_event_manager == self.cs_lua_event_manager + module_base
            &&& r.current_target == self.current_target + module_base
            &&& r.base_fps == self.base_fps + module_base
            &&& r.base_anim == self.base_anim + module_base
            &&& r.dbg_event_man_off == self.dbg_event_man_off + module_base
            &&& r.world_chr_man_dbg == self.world_chr_man_dbg + module_base
            &&& r.func_dbg_action_force == self.func_dbg_action_force + module_base
            &&& r.sound_draw_patch == self.sound_draw_patch + module_base
            &&& r.targeting_debug_draw == self.targeting_debug_draw + module_base
            &&& r.map_item_man == self.map_item_man + module_base
            &&& r.cs_regulation_manager == self.cs_regulation_manager + module_base
            &&& r.func_remove_intro_screens == self.func_remove_intro_screens + module_base
            }),
    {
        BaseAddresses {
            chr_dbg_flags: self.chr_dbg_flags + module_base,
            cs_menu_man_imp: self.cs_menu_man_imp + module_base,
            damage_ctrl: self.damage_ctrl + module_base,
            field_area: self.field_area + module_base,
            game_data_man: self.game_data_man + module_base,
            group_mask: self.group_mask + module_base,
            hit_ins_hitbox_offset: self.hit_ins_hitbox_offset + module_base,
            world_chr_man: self.world_chr_man + module_base,
            func_item_spawn: self.func_item_spawn + module_base,
            func_item_inject: self.func_item_inject + module_base,
            lua_warp: self.lua_warp + module_base,
            func_check_graces: self.func_check_graces + module_base,
            cs_lua_event_manager: self.cs_lua_event_manager + module_base,
            current_target: self.current_target + module_base,
            base_fps: self.base_fps + module_base,
            base_anim: self.base_anim + module_base,
            dbg_event_man_off: self.dbg_event_man_off + module_base,
            world_chr_man_dbg: self.world_chr_man_dbg + module_base,
            func_dbg_action_force: self.func_dbg_action_force + module_base,
            sound_draw_patch: self.sound_draw_patch + module_base,
            targeting_debug_draw: self.targeting_debug_draw + module_base,
            map_item_man: self.map_item_man + module_base,
            cs_regulation_manager: self.cs_regulation_manager + module_base,
            func_remove_intro_screens: self.func_remove_intro_screens + module_base,
        }
    }
}

/// Offset of the map id in the player instance.
pub open spec fn map_id_offset_spec(v: Version) -> usize {
    match v {
        Version::V1_02_0 | Version::V1_02_1 | Version::V1_02_2 | Version::V1_02_3 | Version::V1_03_0 | Version::V1_03_1 | Version::V1_03_2 => 0x6c8,
        Version::V1_04_0 | Version::V1_04_1 | Version::V1_05_0 | Version::V1_06_0 | Version::V1_07_0 => 0x6c0,
        Version::V1_08_0 | Version::V1_08_1 | Version::V1_09_0 | Version::V1_09_1 | Version::V2_00_0 | Version::V2_00_1 | Version::V2_02_0 | Version::V2_02_3 | Version::V2_03_0 | Version::V2_04_0 | Version::V2_05_0 | Version::V2_06_0 => 0x6d0,
    }
}

/// Offset of the map id in the player instance.
pub fn map_id_offset(v: Version) -> (r: usize)
    ensures
        r == map_id_offset_spec(v),
{
    match v {
        Version::V1_02_0 | Version::V1_02_1 | Version::V1_02_2 | Version::V1_02_3 | Version::V1_03_0 | Version::V1_03_1 | Version::V1_03_2 => 0x6c8,
        Version::V1_04_0 | Version::V1_04_1 | Version::V1_05_0 | Version::V1_06_0 | Version::V1_07_0 => 0x6c0,
        Version::V1_08_0 | Version::V1_08_1 | Version::V1_09_0 | Version::V1_09_1 | Version::V2_00_0 | Version::V2_00_1 | Version::V2_02_0 | Version::V2_02_3 | Version::V2_03_0 | Version::V2_04_0 | Version::V2_05_0 | Version::V2_06_0 => 0x6d0,
    }
}

/// Offset of the global position in the player instance.
pub open spec fn global_position_offset_spec(v: Version) -> usize {
    match v {
        Version::V1_02_0 | Version::V1_02_1 | Version::V1_02_2 | Version::V1_02_3 | Version::V1_03_0 | Version::V1_03_1 | Version::V1_03_2 => 0x6b8,
        Version::V1_04_0 | Version::V1_04_1 | Version::V1_05_0 | Version::V1_06_0 | Version::V1_07_0 => 0x6b0,
        Version::V1_08_0 | Version::V1_08_1 | Version::V1_09_0 | Version::V1_09_1 | Version::V2_00_0 | Version::V2_00_1 | Version::V2_02_0 | Version::V2_02_3 | Version::V2_03_0 | Version::V2_04_0 | Version::V2_05_0 | Version::V2_06_0 => 0x6c0,
    }
}

/// Offset of the global position in the player instance.
pub fn global_position_offset(v: Version) -> (r: usize)
    ensures
        r == global_position_offset_spec(v),
{
    match v {
        Version::V1_02_0 | Version::V1_02_1 | Version::V1_02_2 | Version::V1_02_3 | Version::V1_03_0 | Version::V1_03_1 | Version::V1_03_2 => 0x6b8,
        Version::V1_04_0 | Version::V1_04_1 | Version::V1_05_0 | Version::V1_06_0 | Version::V1_07_0 => 0x6b0,
        Version::V1_08_0 | Version::V1_08_1 | Version::V1_09_0 | Version::V1_09_1 | Version::V2_00_0 | Version::V2_00_1 | Version::V2_02_0 | Version::V2_02_3 | Version::V2_03_0 | Version::V2_04_0 | Version::V2_05_0 | Version::V2_06_0 => 0x6c0,
    }
}

/// How far before the scanned address the group mask lies.
pub open spec fn group_mask_shift_spec(v: Version) -> usize {
    match v {
        Version::V1_02_0 | Version::V1_02_1 | Version::V1_02_2 | Version::V1_02_3 | Version::V1_03_0 | Version::V1_03_1 | Version::V1_03_2 | Version::V1_04_0 | Version::V1_04_1 => 0,
        Version::V1_05_0 => 8,
        Version::V1_06_0 | Version::V1_07_0 | Version::V1_08_0 | Version::V1_08_1 | Version::V1_09_0 | Version::V1_09_1 | Version::V2_00_0 | Version::V2_00_1 | Version::V2_02_0 | Version::V2_02_3 | Version::V2_03_0 | Version::V2_04_0 | Version::V2_05_0 | Version::V2_06_0 => 0,
    }
}

/// How far before the scanned address the group mask lies.
pub fn group_mask_shift(v: Version) -> (r: usize)
    ensures
        r == group_mask_shift_spec(v),
{
    match v {
        Version::V1_02_0 | Version::V1_02_1 | Version::V1_02_2 | Version::V1_02_3 | Version::V1_03_0 | Version::V1_03_1 | Version::V1_03_2 | Version::V1_04_0 | Version::V1_04_1 => 0,
        Version::V1_05_0 => 8,
        Version::V1_06_0 | Version::V1_07_0 | Version::V1_08_0 | Version::V1_08_1 | Version::V1_09_0 | Version::V1_09_1 | Version::V2_00_0 | Version::V2_00_1 | Version::V2_02_0 | Version::V2_02_3 | Version::V2_03_0 | Version::V2_04_0 | Version::V2_05_0 | Version::V2_06_0 => 0,
    }
}

/// Offset of the character-visibility flag in the group mask.
pub open spec fn show_chr_offset_spec(v: Version) -> usize {
    match v {
        Version::V1_02_0 | Version::V1_02_1 | Version::V1_02_2 | Version::V1_02_3 | Version::V1_03_0 | Version::V1_03_1 | Version::V1_03_2 | Version::V1_04_0 | Version::V1_04_1 | Version::V1_06_0 | Version::V1_07_0 | Version::V1_08_0 | Version::V1_08_1 | Version::V1_09_0 | Version::V1_09_1 | Version::V2_00_0 | Version::V2_00_1 | Version::V2_02_0 | Version::V2_02_3 | Version::V2_03_0 | Version::V2_04_0 | Version::V2_05_0 | Version::V2_06_0 => 0xe,
        Version::V1_05_0 => 4,
    }
}

/// Offset of the character-visibility flag in the group mask.
pub fn show_chr_offset(v: Version) -> (r: usize)
    ensures
        r == show_chr_offset_spec(v),
{
    match v {
        Version::V1_02_0 | Version::V1_02_1 | Version::V1_02_2 | Version::V1_02_3 | Version::V1_03_0 | Version::V1_03_1 | Version::V1_03_2 | Version::V1_04_0 | Version::V1_04_1 | Version::V1_06_0 | Version::V1_07_0 | Version::V1_08_0 | Version::V1_08_1 | Version::V1_09_0 | Version::V1_09_1 | Version::V2_00_0 | Version::V2_00_1 | Version::V2_02_0 | Version::V2_02_3 | Version::V2_03_0 | Version::V2_04_0 | Version::V2_05_0 | Version::V2_06_0 => 0xe,
        Version::V1_05_0 => 4,
    }
}

/// Offset of the network players in WorldChrMan.
pub open spec fn net_players_ins_spec(v: Version) -> usize {
    match v {
        Version::V1_02_0 | Version::V1_02_1 | Version::V1_02_2 | Version::V1_02_3 | Version::V1_03_0 | Version::V1_03_1 | Version::V1_03_2 | Version::V1_04_0 | Version::V1_04_1 | Version::V1_05_0 | Version::V1_06_0 => 0xB658,
        Version::V1_07_0 | Version::V1_08_0 | Version::V1_08_1 | Version::V1_09_0 | Version::V1_09_1 | Version::V2_00_0 | Version::V2_00_1 | Version::V2_02_0 | Version::V2_02_3 | Version::V2_03_0 | Version::V2_04_0 | Version::V2_05_0 | Version::V2_06_0 => 0x10EF8,
    }
}

/// Offset of the network players in WorldChrMan.
pub fn net_players_ins(v: Version) -> (r: usize)
    ensures
        r == net_players_ins_spec(v),
{
    match v {
        Version::V1_02_0 | Version::V1_02_1 | Version::V1_02_2 | Version::V1_02_3 | Version::V1_03_0 | Version::V1_03_1 | Version::V1_03_2 | Version::V1_04_0 | Version::V1_04_1 | Version::V1_05_0 | Version::V1_06_0 => 0xB658,
        Version::V1_07_0 | Version::V1_08_0 | Version::V1_08_1 | Version::V1_09_0 | Version::V1_09_1 | Version::V2_00_0 | Version::V2_00_1 | Version::V2_02_0 | Version::V2_02_3 | Version::V2_03_0 | Version::V2_04_0 | Version::V2_05_0 | Version::V2_06_0 => 0x10EF8,
    }
}

/// Offset of the player instance in WorldChrMan.
pub open spec fn player_ins_spec(v: Version) -> usize {
    match v {
        Version::V1_02_0 | Version::V1_02_1 | Version::V1_02_2 | Version::V1_02_3 | Version::V1_03_0 | Version::V1_03_1 | Version::V1_03_2 | Version::V1_04_0 | Version::V1_04_1 | Version::V1_05_0 | Version::V1_06_0 => 0x18468,
        Version::V1_07_0 | Version::V1_08_0 | Version::V1_08_1 | Version::V1_09_0 | Version::V1_09_1 | Version::V2_00_0 | Version::V2_00_1 | Version::V2_02_0 | Version::V2_02_3 | Version::V2_03_0 | Version::V2_04_0 | Version::V2_05_0 | Version::V2_06_0 => 0x1E508,
    }
}

/// Offset of the player instance in WorldChrMan.
pub fn player_ins(v: Version) -> (r: usize)
    ensures
        r == player_ins_spec(v),
{
    match v {
        Version::V1_02_0 | Version::V1_02_1 | Version::V1_02_2 | Version::V1_02_3 | Version::V1_03_0 | Version::V1_03_1 | Version::V1_03_2 | Version::V1_04_0 | Version::V1_04_1 | Version::V1_05_0 | Version::V1_06_0 => 0x18468,
        Version::V1_07_0 | Version::V1_08_0 | Version::V1_08_1 | Version::V1_09_0 | Version::V1_09_1 | Version::V2_00_0 | Version::V2_00_1 | Version::V2_02_0 | Version::V2_02_3 | Version::V2_03_0 | Version::V2_04_0 | Version::V2_05_0 | Version::V2_06_0 => 0x1E508,
    }
}

/// Offset of the mount's instance in WorldChrMan.
pub open spec fn torrent_enemy_ins_spec(v: Version) -> usize {
    match v {
        Version::V1_02_0 | Version::V1_02_1 | Version::V1_02_2 | Version::V1_02_3 | Version::V1_03_0 | Version::V1_03_1 | Version::V1_03_2 | Version::V1_04_0 | Version::V1_04_1 | Version::V1_05_0 => 0x18390,
        Version::V1_06_0 => 0x18378,
        Version::V1_07_0 => 0x1E1A0,
        Version::V1_08_0 | Version::V1_08_1 | Version::V1_09_0 | Version::V1_09_1 | Version::V2_00_0 | Version::V2_00_1 => 0x1e1b8,
        Version::V2_02_0 | Version::V2_02_3 | Version::V2_03_0 | Version::V2_04_0 | Version::V2_05_0 | Version::V2_06_0 => 0x1cc90,
    }
}

/// Offset of the mount's instance in WorldChrMan.
pub fn torrent_enemy_ins(v: Version) -> (r: usize)
    ensures
        r == torrent_enemy_ins_spec(v),
{
    match v {
        Version::V1_02_0 | Version::V1_02_1 | Version::V1_02_2 | Version::V1_02_3 | Version::V1_03_0 | Version::V1_03_1 | Version::V1_03_2 | Version::V1_04_0 | Version::V1_04_1 | Version::V1_05_0 => 0x18390,
        Version::V1_06_0 => 0x18378,
        Version::V1_07_0 => 0x1E1A0,
        Version::V1_08_0 | Version::V1_08_1 | Version::V1_09_0 | Version::V1_09_1 | Version::V2_00_0 | Version::V2_00_1 => 0x1e1b8,
        Version::V2_02_0 | Version::V2_02_3 | Version::V2_03_0 | Version::V2_04_0 | Version::V2_05_0 | Version::V2_06_0 => 0x1cc90,
    }
}

/// Offset of the menu timer in CSMenuManImp.
pub open spec fn menu_timer_offset_spec(v: Version) -> usize {
    match v {
        Version::V1_02_0 | Version::V1_02_1 | Version::V1_02_2 | Version::V1_02_3 => 0x72c,
        Version::V1_03_0 | Version::V1_03_1 | Version::V1_03_2 | Version::V1_04_0 | Version::V1_04_1 | Version::V1_05_0 | Version::V1_06_0 | Version::V1_07_0 | Version::V1_08_0 | Version::V1_08_1 | Version::V1_09_0 | Version::V1_09_1 | Version::V2_00_0 | Version::V2_00_1 => 0x73c,
        Version::V2_02_0 | Version::V2_02_3 | Version::V2_03_0 | Version::V2_04_0 | Version::V2_05_0 | Version::V2_06_0 => 0x744,
    }
}

/// Offset of the menu timer in CSMenuManImp.
pub fn menu_timer_offset(v: Version) -> (r: usize)
    ensures
        r == menu_timer_offset_spec(v),
{
    match v {
        Version::V1_02_0 | Version::V1_02_1 | Version::V1_02_2 | Version::V1_02_3 => 0x72c,
        Version::V1_03_0 | Version::V1_03_1 | Version::V1_03_2 | Version::V1_04_0 | Version::V1_04_1 | Version::V1_05_0 | Version::V1_06_0 | Version::V1_07_0 | Version::V1_08_0 | Version::V1_08_1 | Version::V1_09_0 | Version::V1_09_1 | Version::V2_00_0 | Version::V2_00_1 => 0x73c,
        Version::V2_02_0 | Version::V2_02_3 | Version::V2_03_0 | Version::V2_04_0 | Version::V2_05_0 | Version::V2_06_0 => 0x744,
    }
}

/// Offset of the stable-position display flag in the player instance.
pub open spec fn stable_pos_flag_offset_spec(v: Version) -> usize {
    match v {
        Version::V1_02_0 | Version::V1_02_1 | Version::V1_02_2 | Version::V1_02_3 | Version::V1_03_0 | Version::V1_03_1 | Version::V1_03_2 => 0x6FD,
        Version::V1_04_0 | Version::V1_04_1 | Version::V1_05_0 | Version::V1_06_0 | Version::V1_07_0 => 0x6F5,
        Version::V1_08_0 | Version::V1_08_1 | Version::V1_09_0 | Version::V1_09_1 | Version::V2_00_0 | Version::V2_00_1 | Version::V2_02_0 | Version::V2_02_3 | Version::V2_03_0 | Version::V2_04_0 | Version::V2_05_0 | Version::V2_06_0 => 0x735,
    }
}

/// Offset of the stable-position display flag in the player instance.
pub fn stable_pos_flag_offset(v: Version) -> (r: usize)
    ensures
        r == stable_pos_flag_offset_spec(v),
{
    match v {
        Version::V1_02_0 | Version::V1_02_1 | Version::V1_02_2 | Version::V1_02_3 | Version::V1_03_0 | Version::V1_03_1 | Version::V1_03_2 => 0x6FD,
        Version::V1_04_0 | Version::V1_04_1 | Version::V1_05_0 | Version::V1_06_0 | Version::V1_07_0 => 0x6F5,
        Version::V1_08_0 | Version::V1_08_1 | Version::V1_09_0 | Version::V1_09_1 | Version::V2_00_0 | Version::V2_00_1 | Version::V2_02_0 | Version::V2_02_3 | Version::V2_03_0 | Version::V2_04_0 | Version::V2_05_0 | Version::V2_06_0 => 0x735,
    }
}

/// The byte that freezes actions when patched in.
pub open spec fn action_freeze_byte_spec(v: Version) -> u8 {
    match v {
        Version::V1_02_0 | Version::V1_02_1 | Version::V1_02_2 | Version::V1_02_3 | Version::V1_03_0 | Version::V1_03_1 | Version::V1_03_2 | Version::V1_04_0 | Version::V1_04_1 | Version::V1_05_0 | Version::V1_06_0 | Version::V1_07_0 => 0xB2,
        Version::V1_08_0 | Version::V1_08_1 | Version::V1_09_0 | Version::V1_09_1 | Version::V2_00_0 | Version::V2_00_1 | Version::V2_02_0 | Version::V2_02_3 | Version::V2_03_0 | Version::V2_04_0 | Version::V2_05_0 | Version::V2_06_0 => 0xC2,
    }
}

/// The byte that freezes actions when patched in.
pub fn action_freeze_byte(v: Version) -> (r: u8)
    ensures
        r == action_freeze_byte_spec(v),
{
    match v {
        Version::V1_02_0 | Version::V1_02_1 | Version::V1_02_2 | Version::V1_02_3 | Version::V1_03_0 | Version::V1_03_1 | Version::V1_03_2 | Version::V1_04_0 | Version::V1_04_1 | Version::V1_05_0 | Version::V1_06_0 | Version::V1_07_0 => 0xB2,
        Version::V1_08_0 | Version::V1_08_1 | Version::V1_09_0 | Version::V1_09_1 | Version::V2_00_0 | Version::V2_00_1 | Version::V2_02_0 | Version::V2_02_3 | Version::V2_03_0 | Version::V2_04_0 | Version::V2_05_0 | Version::V2_06_0 => 0xC2,
    }
}

/// Whether the version has the Shadow of the Erdtree blessings.
pub open spec fn has_blessings_spec(v: Version) -> bool {
    match v {
        Version::V1_02_0 | Version::V1_02_1 | Version::V1_02_2 | Version::V1_02_3 | Version::V1_03_0 | Version::V1_03_1 | Version::V1_03_2 | Version::V1_04_0 | Version::V1_04_1 | Version::V1_05_0 | Version::V1_06_0 | Version::V1_07_0 | Version::V1_08_0 | Version::V1_08_1 | Version::V1_09_0 | Version::V1_09_1 | Version::V2_00_0 | Version::V2_00_1 => false,
        Version::V2_02_0 | Version::V2_02_3 | Version::V2_03_0 | Version::V2_04_0 | Version::V2_05_0 | Version::V2_06_0 => true,
    }
}

/// Whether the version has the Shadow of the Erdtree blessings.
pub fn has_blessings(v: Version) -> (r: bool)
    ensures
        r == has_blessings_spec(v),
{
    match v {
        Version::V1_02_0 | Version::V1_02_1 | Version::V1_02_2 | Version::V1_02_3 | Version::V1_03_0 | Version::V1_03_1 | Version::V1_03_2 | Version::V1_04_0 | Version::V1_04_1 | Version::V1_05_0 | Version::V1_06_0 | Version::V1_07_0 | Version::V1_08_0 | Version::V1_08_1 | Version::V1_09_0 | Version::V1_09_1 | Version::V2_00_0 | Version::V2_00_1 => false,
        Version::V2_02_0 | Version::V2_02_3 | Version::V2_03_0 | Version::V2_04_0 | Version::V2_05_0 | Version::V2_06_0 => true,
    }
}

/// Offsets, from the group mask, of the map-geometry visibility flags.
pub open spec fn show_geom_offsets_spec(v: Version) -> Seq<usize> {
    match v {
        Version::V1_05_0 => seq![0, 1, 2, 3, 5, 6, 8, 0xa, 0xb, 0xc, 0xd, 0xe, 0xf],
        _ => seq![2, 3, 4, 5, 6, 7, 8, 0, 0xa, 0xb, 0xc, 0xd, 0xf, 0x10, 0x11, 0x12],
    }
}

/// Offsets, from the group mask, of the map-geometry visibility flags.
pub fn show_geom_offsets(v: Version) -> (r: Vec<usize>)
    ensures
        r@ == show_geom_offsets_spec(v),
{
    let r: Vec<usize> = match v {
        Version::V1_05_0 => vec![0, 1, 2, 3, 5, 6, 8, 0xa, 0xb, 0xc, 0xd, 0xe, 0xf],
        _ => vec![2, 3, 4, 5, 6, 7, 8, 0, 0xa, 0xb, 0xc, 0xd, 0xf, 0x10, 0x11, 0x12],
    };
    proof {
        assert(r@ =~= show_geom_offsets_spec(v));
    }
    r
}


/// Whether `v` is release `major.minor.patch` or a later one.
pub open spec fn from_release(v: Version, major: u32, minor: u32, patch: u32) -> bool {
    let (a, b, c) = v.triple();
    a > major || (a == major && (b > minor || (b == minor && c >= patch)))
}

/// The player and the network players moved within WorldChrMan in 1.07.0.
pub proof fn lemma_world_chr_man_offsets(v: Version)
    ensures
        player_ins_spec(v) == if from_release(v, 1, 7, 0) { 0x1E508usize } else { 0x18468usize },
        net_players_ins_spec(v) == if from_release(v, 1, 7, 0) { 0x10EF8usize } else { 0xB658usize },
{
}

/// The mount's instance: 0x18390 up to 1.05, 0x18378 in 1.06, 0x1E1A0 in
/// 1.07, 0x1e1b8 from 1.08 and 0x1cc90 from 2.02.
pub proof fn lemma_torrent_offset(v: Version)
    ensures
        torrent_enemy_ins_spec(v) == if from_release(v, 2, 2, 0) {
            0x1cc90usize
        } else if from_release(v, 1, 8, 0) {
            0x1e1b8usize
        } else if from_release(v, 1, 7, 0) {
            0x1E1A0usize
        } else if from_release(v, 1, 6, 0) {
            0x18378usize
        } else {
            0x18390usize
        },
{
}

/// The player instance's fields moved in 1.04 and again in 1.08: the map id,
/// the global position and the stable-position flag.
pub proof fn lemma_player_field_offsets(v: Version)
    ensures
        map_id_offset_spec(v) == if from_release(v, 1, 8, 0) {
            0x6d0usize
        } else if from_release(v, 1, 4, 0) {
            0x6c0usize
        } else {
            0x6c8usize
        },
        global_position_offset_spec(v) == if from_release(v, 1, 8, 0) {
            0x6c0usize
        } else if from_release(v, 1, 4, 0) {
            0x6b0usize
        } else {
            0x6b8usize
        },
        stable_pos_flag_offset_spec(v) == if from_release(v, 1, 8, 0) {
            0x735usize
        } else if from_release(v, 1, 4, 0) {
            0x6F5usize
        } else {
            0x6FDusize
        },
        action_freeze_byte_spec(v) == if from_release(v, 1, 8, 0) { 0xC2u8 } else { 0xB2u8 },
{
}

/// The menu timer moved in 1.03 and 2.02; the blessings exist from 2.02.
pub proof fn lemma_menu_and_blessings(v: Version)
    ensures
        menu_timer_offset_spec(v) == if from_release(v, 2, 2, 0) {
            0x744usize
        } else if from_release(v, 1, 3, 0) {
            0x73cusize
        } else {
            0x72cusize
        },
        has_blessings_spec(v) == from_release(v, 2, 2, 0),
{
}

/// Release 1.05.0 lays out the group mask differently: it lies 8 bytes
/// before the scanned address, the character flag is at 4, and it has
/// thirteen geometry flags; every other release has sixteen, the character
/// flag at 0xe and no shift.
pub proof fn lemma_group_mask_layout(v: Version)
    ensures
        group_mask_shift_spec(v) == if v.triple() == (1u32, 5u32, 0u32) { 8usize } else { 0usize },
        show_chr_offset_spec(v) == if v.triple() == (1u32, 5u32, 0u32) { 4usize } else { 0xeusize },
        show_geom_offsets_spec(v).len() == if v.triple() == (1u32, 5u32, 0u32) { 13nat } else { 16nat },
        v.triple() != (1u32, 5u32, 0u32) ==> show_geom_offsets_spec(v) == seq![2usize, 3, 4, 5, 6, 7, 8, 0, 0xa, 0xb, 0xc, 0xd, 0xf, 0x10, 0x11, 0x12],
        v.triple() == (1u32, 5u32, 0u32) ==> show_geom_offsets_spec(v) == seq![0usize, 1, 2, 3, 5, 6, 8, 0xa, 0xb, 0xc, 0xd, 0xe, 0xf],
{
}

/// The chain `c` is the address list `s`.
pub open spec fn chain_is(c: PointerChain, s: Seq<usize>) -> bool {
    &&& s.len() >= 1
    &&& c.base == s[0]
    &&& c.offsets@ == s.drop_first()
}

/// The flag `f` is mask `mask` at the address list `s`.
pub open spec fn flag_is(f: Bitflag, mask: u8, s: Seq<usize>) -> bool {
    &&& f.mask == mask
    &&& chain_is(f.chain, s)
}

/// The bytes a read gave, if any.
pub open spec fn read_view(r: Option<&[u8]>) -> Option<Seq<u8>> {
    match r {
        None => None,
        Some(b) => Some(b@),
    }
}

/// The patch `p` writes `on` at the address list `s`, and restores what `read`
/// gave there (zeros when the read failed).
pub open spec fn patch_is(p: BytesPatch, on: Seq<u8>, s: Seq<usize>, read: Option<Seq<u8>>) -> bool {
    &&& chain_is(p.chain, s)
    &&& p.on@ == on
    &&& p.off@ == match read {
        Some(c) => c,
        None => Seq::new(on.len(), |i: int| 0u8),
    }
}

/// The chain `[a0]`.
pub fn chain1(a0: usize) -> (c: PointerChain)
    ensures
        chain_is(c, seq![a0]),
{
    let mut offsets: Vec<usize> = Vec::new();

    proof {
        assert(offsets@ =~= seq![a0].drop_first());
    }
    PointerChain { base: a0, offsets }
}

/// The chain `[a0, a1]`.
pub fn chain2(a0: usize, a1: usize) -> (c: PointerChain)
    ensures
        chain_is(c, seq![a0, a1]),
{
    let mut offsets: Vec<usize> = Vec::new();
    offsets.push(a1);
    proof {
        assert(offsets@ =~= seq![a0, a1].drop_first());
    }
    PointerChain { base: a0, offsets }
}

/// The chain `[a0, a1, a2]`.
pub fn chain3(a0: usize, a1: usize, a2: usize) -> (c: PointerChain)
    ensures
        chain_is(c, seq![a0, a1, a2]),
{
    let mut offsets: Vec<usize> = Vec::new();
    offsets.push(a1);
    offsets.push(a2);
    proof {
        assert(offsets@ =~= seq![a0, a1, a2].drop_first());
    }
    PointerChain { base: a0, offsets }
}

/// The chain `[a0, a1, a2, a3]`.
pub fn chain4(a0: usize, a1: usize, a2: usize, a3: usize) -> (c: PointerChain)
    ensures
        chain_is(c, seq![a0, a1, a2, a3]),
{
    let mut offsets: Vec<usize> = Vec::new();
    offsets.push(a1);
    offsets.push(a2);
    offsets.push(a3);
    proof {
        assert(offsets@ =~= seq![a0, a1, a2, a3].drop_first());
    }
    PointerChain { base: a0, offsets }
}

/// The chain `[a0, a1, a2, a3, a4]`.
pub fn chain5(a0: usize, a1: usize, a2: usize, a3: usize, a4: usize) -> (c: PointerChain)
    ensures
        chain_is(c, seq![a0, a1, a2, a3, a4]),
{
    let mut offsets: Vec<usize> = Vec::new();
    offsets.push(a1);
    offsets.push(a2);
    offsets.push(a3);
    offsets.push(a4);
    proof {
        assert(offsets@ =~= seq![a0, a1, a2, a3, a4].drop_first());
    }
    PointerChain { base: a0, offsets }
}

/// The chain `[a0, a1, a2, a3, a4, a5]`.
pub fn chain6(a0: usize, a1: usize, a2: usize, a3: usize, a4: usize, a5: usize) -> (c: PointerChain)
    ensures
        chain_is(c, seq![a0, a1, a2, a3, a4, a5]),
{
    let mut offsets: Vec<usize> = Vec::new();
    offsets.push(a1);
    offsets.push(a2);
    offsets.push(a3);
    offsets.push(a4);
    offsets.push(a5);
    proof {
        assert(offsets@ =~= seq![a0, a1, a2, a3, a4, a5].drop_first());
    }
    PointerChain { base: a0, offsets }
}

/// The chain `[a0, a1, a2, a3, a4, a5, a6]`.
pub fn chain7(a0: usize, a1: usize, a2: usize, a3: usize, a4: usize, a5: usize, a6: usize) -> (c: PointerChain)
    ensures
        chain_is(c, seq![a0, a1, a2, a3, a4, a5, a6]),
{
    let mut offsets: Vec<usize> = Vec::new();
    offsets.push(a1);
    offsets.push(a2);
    offsets.push(a3);
    offsets.push(a4);
    offsets.push(a5);
    offsets.push(a6);
    proof {
        assert(offsets@ =~= seq![a0, a1, a2, a3, a4, a5, a6].drop_first());
    }
    PointerChain { base: a0, offsets }
}

/// The byte string `[a]`.
pub fn bytes1(a: u8) -> (v: Vec<u8>)
    ensures
        v@ == seq![a],
{
    let mut v: Vec<u8> = Vec::new();
    v.push(a);
    proof {
        assert(v@ =~= seq![a]);
    }
    v
}

/// The byte string `[a, b]`.
pub fn bytes2(a: u8, b: u8) -> (v: Vec<u8>)
    ensures
        v@ == seq![a, b],
{
    let mut v: Vec<u8> = Vec::new();
    v.push(a);
    v.push(b);
    proof {
        assert(v@ =~= seq![a, b]);
    }
    v
}

/// Position and rotation of a character, and the map it is on.
#[derive(Clone, Debug)]
pub struct Position {
    pub x: PointerChain,
    pub y: PointerChain,
    pub z: PointerChain,
    pub angle1: PointerChain,
    pub angle2: PointerChain,
    pub map_id: Option<PointerChain>,
}

/// The character's attributes.
#[derive(Clone, Copy, Debug)]
pub struct CharacterStats {
    pub vigor: i32,
    pub mind: i32,
    pub endurance: i32,
    pub strength: i32,
    pub dexterity: i32,
    pub intelligence: i32,
    pub faith: i32,
    pub arcane: i32,
    pub pad1: [u32; 3],
    pub level: i32,
    pub runes: i32,
    pub runes_tot: i32,
}

/// The character's hit, focus and stamina points.
#[derive(Clone, Copy, Debug)]
pub struct CharacterPoints {
    pub hp: i32,
    pub max_hp_ro: [i32; 2],
    pub max_hp: i32,
    pub fp: i32,
    pub max_fp_ro: i32,
    pub max_fp: i32,
    pub stamina: i32,
    pub max_stamina_ro: i32,
    pub max_stamina: i32,
}

/// The character's blessing levels.
#[derive(Clone, Copy, Debug)]
pub struct CharacterBlessings {
    pub scadutree: i8,
    pub revered_spirit_ash: i8,
}

/// Every flag and value the tool reads or writes.
#[derive(Debug)]
pub struct Pointers {
    pub one_shot: Bitflag,
    pub no_damage: Bitflag,
    pub no_dead: Bitflag,
    pub no_hit: Bitflag,
    pub no_goods_consume: Bitflag,
    pub no_stamina_consume: Bitflag,
    pub no_fp_consume: Bitflag,
    pub no_arrows_consume: Bitflag,
    pub no_attack: Bitflag,
    pub no_move: Bitflag,
    pub no_update_ai: Bitflag,
    pub no_trigger_event: Bitflag,
    pub no_ashes_of_war_fp_consume: Bitflag,
    pub collision: Bitflag,
    pub torrent_no_dead: Bitflag,
    pub torrent_gravity: Bitflag,
    pub torrent_collision: Bitflag,
    pub all_no_dead: Bitflag,
    pub current_target: PointerChain,
    pub character_stats: PointerChain,
    pub character_points: PointerChain,
    pub character_blessings: Option<PointerChain>,
    pub runes: PointerChain,
    pub igt: PointerChain,
    pub fps: PointerChain,
    pub runearc: Bitflag,
    pub cur_anim: PointerChain,
    pub cur_anim_time: PointerChain,
    pub cur_anim_length: PointerChain,
    pub weapon_hitbox1: Bitflag,
    pub weapon_hitbox2: Bitflag,
    pub weapon_hitbox3: Bitflag,
    pub quitout: PointerChain,
    pub cursor_show: Bitflag,
    pub menu_timer: PointerChain,
    pub gravity: Bitflag,
    pub display_stable_pos: Bitflag,
    pub global_position: Position,
    pub stable_position: Position,
    pub chunk_position: Position,
    pub torrent_chunk_position: Position,
    pub animation_speed: PointerChain,
    pub torrent_animation_speed: PointerChain,
    pub func_warp: usize,
    pub warp1: PointerChain,
    pub warp2: PointerChain,
    pub deathcam: (Bitflag, Bitflag, BytesPatch),
    pub hitbox_high: Bitflag,
    pub hitbox_low: Bitflag,
    pub hitbox_f: Bitflag,
    pub hitbox_character: Bitflag,
    pub hitbox_event: Bitflag,
    pub poise_view: Bitflag,
    pub sound_view: BytesPatch,
    pub all_targeting_view: Bitflag,
    pub mesh_color: PointerChain,
    pub field_area_direction: Bitflag,
    pub field_area_altimeter: Bitflag,
    pub field_area_compass: Bitflag,
    pub show_geom: Vec<Bitflag>,
    pub show_chr: Bitflag,
    pub func_item_spawn: usize,
    pub func_item_inject: usize,
    pub action_freeze: BytesPatch,
    pub show_all_map_layers: Bitflag,
    pub show_all_graces: Bitflag,
    pub base_addresses: BaseAddresses,
}

/// What `Pointers::new` builds for version `v` and (already moved) addresses
/// `b`, given what was read where the three byte patches go.
pub open spec fn pointers_spec(
    p: Pointers,
    v: Version,
    b: BaseAddresses,
    seven_read: Option<Seq<u8>>,
    sound_read: Option<Seq<u8>>,
    freeze_read: Option<Seq<u8>>,
) -> bool {
    &&& flag_is(p.one_shot, 1, seq![(b.chr_dbg_flags + 3) as usize])
    &&& flag_is(p.no_damage, 1, seq![(b.chr_dbg_flags + 0xC) as usize])
    &&& flag_is(p.no_dead, 1, seq![(b.chr_dbg_flags + 1) as usize])
    &&& flag_is(p.no_hit, 1, seq![(b.chr_dbg_flags + 0xD) as usize])
    &&& flag_is(p.no_goods_consume, 1, seq![(b.chr_dbg_flags + 4) as usize])
    &&& flag_is(p.no_stamina_consume, 1, seq![(b.chr_dbg_flags + 5) as usize])
    &&& flag_is(p.no_fp_consume, 1, seq![(b.chr_dbg_flags + 6) as usize])
    &&& flag_is(p.no_arrows_consume, 1, seq![(b.chr_dbg_flags + 7) as usize])
    &&& flag_is(p.no_attack, 1, seq![(b.chr_dbg_flags + 0xE) as usize])
    &&& flag_is(p.no_move, 1, seq![(b.chr_dbg_flags + 0xF) as usize])
    &&& flag_is(p.no_update_ai, 1, seq![(b.chr_dbg_flags + 0x10) as usize])
    &&& flag_is(p.no_trigger_event, 1, seq![b.dbg_event_man_off, 0x28])
    &&& flag_is(p.no_ashes_of_war_fp_consume, 1, seq![(b.chr_dbg_flags + 0x12) as usize])
    &&& flag_is(p.collision, 8, seq![b.world_chr_man, player_ins_spec(v), 0x58, 0xf0])
    &&& flag_is(p.torrent_no_dead, 1, seq![(b.chr_dbg_flags + 2) as usize])
    &&& flag_is(p.torrent_gravity, 1, seq![b.world_chr_man, torrent_enemy_ins_spec(v), 0x18, 0, 0x190, 0x68, 0x1d3])
    &&& flag_is(p.torrent_collision, 8, seq![b.world_chr_man, torrent_enemy_ins_spec(v), 0x18, 0, 0x58, 0xf0])
    &&& flag_is(p.all_no_dead, 1, seq![(b.chr_dbg_flags + 0xB) as usize])
    &&& chain_is(p.current_target, seq![b.current_target])
    &&& chain_is(p.character_stats, seq![b.game_data_man, 0x8, 0x3c])
    &&& chain_is(p.character_points, seq![b.world_chr_man, net_players_ins_spec(v), 0, 0x190, 0, 0x138])
    &&& (p.character_blessings is Some <==> has_blessings_spec(v))
    &&& (p.character_blessings matches Some(c) ==> chain_is(c, seq![b.game_data_man, 0x8, 0xfc]))
    &&& chain_is(p.runes, seq![b.game_data_man, 0x8, 0x6C])
    &&& chain_is(p.igt, seq![b.game_data_man, 0xA0])
    &&& chain_is(p.fps, seq![b.base_fps, 0x98, 0x8, 0x770])
    &&& flag_is(p.runearc, 1, seq![b.game_data_man, 0x8, 0xFF])
    &&& chain_is(p.cur_anim, seq![b.base_anim, 0x0, 0x190, 0x18, 0x20])
    &&& chain_is(p.cur_anim_time, seq![b.base_anim, 0x0, 0x190, 0x18, 0x24])
    &&& chain_is(p.cur_anim_length, seq![b.base_anim, 0x0, 0x190, 0x18, 0x2C])
    &&& flag_is(p.weapon_hitbox1, 1, seq![b.damage_ctrl, 0xA0])
    &&& flag_is(p.weapon_hitbox2, 1, seq![b.damage_ctrl, 0xA1])
    &&& flag_is(p.weapon_hitbox3, 1, seq![b.damage_ctrl, 0xA4])
    &&& chain_is(p.quitout, seq![b.cs_menu_man_imp, 0x8, 0x5d])
    &&& flag_is(p.cursor_show, 1, seq![b.cs_menu_man_imp, 0xAC])
    &&& chain_is(p.menu_timer, seq![b.cs_menu_man_imp, menu_timer_offset_spec(v)])
    &&& flag_is(p.gravity, 1, seq![b.world_chr_man, player_ins_spec(v), 0x190, 0x68, 0x1d3])
    &&& flag_is(p.display_stable_pos, 1, seq![b.world_chr_man, player_ins_spec(v), stable_pos_flag_offset_spec(v)])
    &&& chain_is(p.global_position.x, seq![b.world_chr_man, player_ins_spec(v), global_position_offset_spec(v)])
    &&& chain_is(p.global_position.y, seq![b.world_chr_man, player_ins_spec(v), (global_position_offset_spec(v) + 0x4) as usize])
    &&& chain_is(p.global_position.z, seq![b.world_chr_man, player_ins_spec(v), (global_position_offset_spec(v) + 0x8) as usize])
    &&& chain_is(p.global_position.angle1, seq![b.world_chr_man, player_ins_spec(v), 0x6bc])
    &&& chain_is(p.global_position.angle2, seq![b.world_chr_man, player_ins_spec(v), 0x6cc])
    &&& (p.global_position.map_id matches Some(c) && chain_is(c, seq![b.world_chr_man, player_ins_spec(v), map_id_offset_spec(v)]))
    &&& chain_is(p.stable_position.x, seq![b.world_chr_man, player_ins_spec(v), (global_position_offset_spec(v) + 0x14) as usize])
    &&& chain_is(p.stable_position.y, seq![b.world_chr_man, player_ins_spec(v), (global_position_offset_spec(v) + 0x18) as usize])
    &&& chain_is(p.stable_position.z, seq![b.world_chr_man, player_ins_spec(v), (global_position_offset_spec(v) + 0x1C) as usize])
    &&& chain_is(p.stable_position.angle1, seq![b.world_chr_man, player_ins_spec(v), 0x6d8])
    &&& chain_is(p.stable_position.angle2, seq![b.world_chr_man, player_ins_spec(v), 0x6e8])
    &&& p.stable_position.map_id is None
    &&& chain_is(p.chunk_position.x, seq![b.world_chr_man, player_ins_spec(v), 0x190, 0x68, 0x70])
    &&& chain_is(p.chunk_position.y, seq![b.world_chr_man, player_ins_spec(v), 0x190, 0x68, 0x74])
    &&& chain_is(p.chunk_position.z, seq![b.world_chr_man, player_ins_spec(v), 0x190, 0x68, 0x78])
    &&& chain_is(p.chunk_position.angle1, seq![b.world_chr_man, player_ins_spec(v), 0x190, 0x68, 0x54])
    &&& chain_is(p.chunk_position.angle2, seq![b.world_chr_man, player_ins_spec(v), 0x190, 0x68, 0x64])
    &&& (p.chunk_position.map_id matches Some(c) && chain_is(c, seq![b.world_chr_man, player_ins_spec(v), map_id_offset_spec(v)]))
    &&& chain_is(p.torrent_chunk_position.x, seq![b.world_chr_man, torrent_enemy_ins_spec(v), 0x18, 0x0, 0x190, 0x68, 0x70])
    &&& chain_is(p.torrent_chunk_position.y, seq![b.world_chr_man, torrent_enemy_ins_spec(v), 0x18, 0x0, 0x190, 0x68, 0x74])
    &&& chain_is(p.torrent_chunk_position.z, seq![b.world_chr_man, torrent_enemy_ins_spec(v), 0x18, 0x0, 0x190, 0x68, 0x78])
    &&& chain_is(p.torrent_chunk_position.angle1, seq![b.world_chr_man, torrent_enemy_ins_spec(v), 0x18, 0x0, 0x190, 0x68, 0x54])
    &&& chain_is(p.torrent_chunk_position.angle2, seq![b.world_chr_man, torrent_enemy_ins_spec(v), 0x18, 0x0, 0x190, 0x68, 0x64])
    &&& (p.torrent_chunk_position.map_id matches Some(c) && chain_is(c, seq![b.world_chr_man, torrent_enemy_ins_spec(v), 0x18, 0x0, map_id_offset_spec(v)]))
    &&& chain_is(p.animation_speed, seq![b.world_chr_man, player_ins_spec(v), 0x190, 0x28, 0x17C8])
    &&& chain_is(p.torrent_animation_speed, seq![b.world_chr_man, torrent_enemy_ins_spec(v), 0x18, 0, 0x190, 0x28, 0x17C8])
    &&& p.func_warp == b.lua_warp + 2
    &&& chain_is(p.warp1, seq![b.cs_lua_event_manager, 0x18])
    &&& chain_is(p.warp2, seq![b.cs_lua_event_manager, 0x08])
    &&& flag_is(p.deathcam.0, 4, seq![b.world_chr_man, player_ins_spec(v), 0x1c8])
    &&& flag_is(p.deathcam.1, 4, seq![b.world_chr_man, torrent_enemy_ins_spec(v), 0x18, 0, 0x1c8])
    &&& patch_is(p.deathcam.2, seq![0x07u8], seq![b.field_area, 0x98, 0x7c], seven_read)
    &&& flag_is(p.hitbox_high, 1, seq![b.hit_ins_hitbox_offset])
    &&& flag_is(p.hitbox_low, 1, seq![(b.hit_ins_hitbox_offset + 0x1) as usize])
    &&& flag_is(p.hitbox_f, 1, seq![(b.hit_ins_hitbox_offset + 0x4) as usize])
    &&& flag_is(p.hitbox_character, 1, seq![(b.hit_ins_hitbox_offset + 0x3) as usize])
    &&& flag_is(p.hitbox_event, 1, seq![b.dbg_event_man_off, 0x4])
    &&& flag_is(p.poise_view, 1, seq![b.world_chr_man_dbg, 0x69])
    &&& patch_is(p.sound_view, seq![0x90u8, 0x90u8], seq![b.sound_draw_patch], sound_read)
    &&& flag_is(p.all_targeting_view, 1, seq![b.targeting_debug_draw])
    &&& chain_is(p.mesh_color, seq![(b.hit_ins_hitbox_offset + 0x8) as usize])
    &&& flag_is(p.field_area_direction, 1, seq![(b.field_area + 0x9) as usize])
    &&& flag_is(p.field_area_altimeter, 1, seq![(b.field_area + 0xA) as usize])
    &&& flag_is(p.field_area_compass, 1, seq![(b.field_area + 0xB) as usize])
    &&& p.show_geom@.len() == show_geom_offsets_spec(v).len()
    &&& forall|i: int| 0 <= i < p.show_geom@.len() ==> flag_is(#[trigger] p.show_geom@[i], 1, seq![(((b.group_mask - group_mask_shift_spec(v)) as usize) + show_geom_offsets_spec(v)[i]) as usize])
    &&& flag_is(p.show_chr, 1, seq![((b.group_mask - group_mask_shift_spec(v)) as usize + show_chr_offset_spec(v)) as usize])
    &&& p.func_item_spawn == b.func_item_spawn
    &&& p.func_item_inject == b.func_item_inject
    &&& patch_is(p.action_freeze, seq![action_freeze_byte_spec(v)], seq![(b.func_dbg_action_force + 7) as usize], freeze_read)
    &&& flag_is(p.show_all_map_layers, 1, seq![b.func_check_graces])
    &&& flag_is(p.show_all_graces, 1, seq![(b.func_check_graces + 0x1) as usize])
    &&& p.base_addresses == b
}

/// Where the three byte patches go (death camera, sound view, action freeze):
/// the caller reads their current bytes before building the pointers.
pub fn patch_sites(v: Version, b: BaseAddresses) -> (r: (PointerChain, PointerChain, PointerChain))
    requires
        b.fits(),
    ensures
        chain_is(r.0, seq![b.field_area, 0x98, 0x7c]),
        chain_is(r.1, seq![b.sound_draw_patch]),
        chain_is(r.2, seq![(b.func_dbg_action_force + 7) as usize]),
{
    (
        chain3(b.field_area, 0x98, 0x7c),
        chain1(b.sound_draw_patch),
        chain1(b.func_dbg_action_force + 7),
    )
}

impl Pointers {
    /// All the flags and values for version `v` at the (already moved)
    /// addresses `b`. `seven_read`, `sound_read` and `freeze_read` are what was
    /// read at the three patch sites (see `patch_sites`).
    #[verifier::rlimit(40)]
    pub fn new(
        v: Version,
        b: BaseAddresses,
        seven_read: Option<&[u8]>,
        sound_read: Option<&[u8]>,
        freeze_read: Option<&[u8]>,
    ) -> (p: Pointers)
        requires
            b.fits(),
            b.group_mask >= group_mask_shift_spec(v),
            seven_read matches Some(c) ==> c@.len() == 1,
            sound_read matches Some(c) ==> c@.len() == 2,
            freeze_read matches Some(c) ==> c@.len() == 1,
        ensures
            pointers_spec(p, v, b, read_view(seven_read), read_view(sound_read), read_view(freeze_read)),
    {
        let player_ins = player_ins(v);
        let net_players_ins = net_players_ins(v);
        let torrent_enemy_ins = torrent_enemy_ins(v);
        let gpo = global_position_offset(v);
        let mio = map_id_offset(v);
        let group_mask = b.group_mask - group_mask_shift(v);
        let menu_timer = menu_timer_offset(v);
        let stable_flag = stable_pos_flag_offset(v);
        let show_chr = show_chr_offset(v);
        let freeze_byte = action_freeze_byte(v);
        let offs = show_geom_offsets(v);
        let mut show_geom: Vec<Bitflag> = Vec::new();
        let mut i: usize = 0;
        while i < offs.len()
            invariant
                offs@ == show_geom_offsets_spec(v),
                b.group_mask >= group_mask_shift_spec(v),
                group_mask_shift_spec(v) <= 8,
                group_mask == (b.group_mask - group_mask_shift_spec(v)) as usize,
                group_mask <= usize::MAX - 0x10000,
                0 <= i <= offs@.len(),
                show_geom@.len() == i,
                forall|k: int| 0 <= k < i ==> flag_is(#[trigger] show_geom@[k], 1, seq![(group_mask + offs@[k]) as usize]),
            decreases offs@.len() - i,
        {
            show_geom.push(Bitflag::new(chain1(group_mask + offs[i]), 1));
            i = i + 1;
        }
        Pointers {
            one_shot: Bitflag::new(chain1(b.chr_dbg_flags + 3), 1),
            no_damage: Bitflag::new(chain1(b.chr_dbg_flags + 0xC), 1),
            no_dead: Bitflag::new(chain1(b.chr_dbg_flags + 1), 1),
            no_hit: Bitflag::new(chain1(b.chr_dbg_flags + 0xD), 1),
            no_goods_consume: Bitflag::new(chain1(b.chr_dbg_flags + 4), 1),
            no_stamina_consume: Bitflag::new(chain1(b.chr_dbg_flags + 5), 1),
            no_fp_consume: Bitflag::new(chain1(b.chr_dbg_flags + 6), 1),
            no_arrows_consume: Bitflag::new(chain1(b.chr_dbg_flags + 7), 1),
            no_attack: Bitflag::new(chain1(b.chr_dbg_flags + 0xE), 1),
            no_move: Bitflag::new(chain1(b.chr_dbg_flags + 0xF), 1),
            no_update_ai: Bitflag::new(chain1(b.chr_dbg_flags + 0x10), 1),
            no_trigger_event: Bitflag::new(chain2(b.dbg_event_man_off, 0x28), 1),
            no_ashes_of_war_fp_consume: Bitflag::new(chain1(b.chr_dbg_flags + 0x12), 1),
            collision: Bitflag::new(chain4(b.world_chr_man, player_ins, 0x58, 0xf0), 8),
            torrent_no_dead: Bitflag::new(chain1(b.chr_dbg_flags + 2), 1),
            torrent_gravity: Bitflag::new(chain7(b.world_chr_man, torrent_enemy_ins, 0x18, 0, 0x190, 0x68, 0x1d3), 1),
            torrent_collision: Bitflag::new(chain6(b.world_chr_man, torrent_enemy_ins, 0x18, 0, 0x58, 0xf0), 8),
            all_no_dead: Bitflag::new(chain1(b.chr_dbg_flags + 0xB), 1),
            current_target: (chain1(b.current_target)),
            character_stats: (chain3(b.game_data_man, 0x8, 0x3c)),
            character_points: (chain6(b.world_chr_man, net_players_ins, 0, 0x190, 0, 0x138)),
            character_blessings: if has_blessings(v) { Some((chain3(b.game_data_man, 0x8, 0xfc))) } else { None },
            runes: (chain3(b.game_data_man, 0x8, 0x6C)),
            igt: (chain2(b.game_data_man, 0xA0)),
            fps: (chain4(b.base_fps, 0x98, 0x8, 0x770)),
            runearc: Bitflag::new(chain3(b.game_data_man, 0x8, 0xFF), 1),
            cur_anim: (chain5(b.base_anim, 0x0, 0x190, 0x18, 0x20)),
            cur_anim_time: (chain5(b.base_anim, 0x0, 0x190, 0x18, 0x24)),
            cur_anim_length: (chain5(b.base_anim, 0x0, 0x190, 0x18, 0x2C)),
            weapon_hitbox1: Bitflag::new(chain2(b.damage_ctrl, 0xA0), 1),
            weapon_hitbox2: Bitflag::new(chain2(b.damage_ctrl, 0xA1), 1),
            weapon_hitbox3: Bitflag::new(chain2(b.damage_ctrl, 0xA4), 1),
            quitout: (chain3(b.cs_menu_man_imp, 0x8, 0x5d)),
            cursor_show: Bitflag::new(chain2(b.cs_menu_man_imp, 0xAC), 1),
            menu_timer: (chain2(b.cs_menu_man_imp, menu_timer)),
            gravity: Bitflag::new(chain5(b.world_chr_man, player_ins, 0x190, 0x68, 0x1d3), 1),
            display_stable_pos: Bitflag::new(chain3(b.world_chr_man, player_ins, stable_flag), 1),
            global_position: Position { x: (chain3(b.world_chr_man, player_ins, gpo)), y: (chain3(b.world_chr_man, player_ins, gpo + 0x4)), z: (chain3(b.world_chr_man, player_ins, gpo + 0x8)), angle1: (chain3(b.world_chr_man, player_ins, 0x6bc)), angle2: (chain3(b.world_chr_man, player_ins, 0x6cc)), map_id: Some((chain3(b.world_chr_man, player_ins, mio))) },
            stable_position: Position { x: (chain3(b.world_chr_man, player_ins, gpo + 0x14)), y: (chain3(b.world_chr_man, player_ins, gpo + 0x18)), z: (chain3(b.world_chr_man, player_ins, gpo + 0x1C)), angle1: (chain3(b.world_chr_man, player_ins, 0x6d8)), angle2: (chain3(b.world_chr_man, player_ins, 0x6e8)), map_id: None },
            chunk_position: Position { x: (chain5(b.world_chr_man, player_ins, 0x190, 0x68, 0x70)), y: (chain5(b.world_chr_man, player_ins, 0x190, 0x68, 0x74)), z: (chain5(b.world_chr_man, player_ins, 0x190, 0x68, 0x78)), angle1: (chain5(b.world_chr_man, player_ins, 0x190, 0x68, 0x54)), angle2: (chain5(b.world_chr_man, player_ins, 0x190, 0x68, 0x64)), map_id: Some((chain3(b.world_chr_man, player_ins, mio))) },
            torrent_chunk_position: Position { x: (chain7(b.world_chr_man, torrent_enemy_ins, 0x18, 0x0, 0x190, 0x68, 0x70)), y: (chain7(b.world_chr_man, torrent_enemy_ins, 0x18, 0x0, 0x190, 0x68, 0x74)), z: (chain7(b.world_chr_man, torrent_enemy_ins, 0x18, 0x0, 0x190, 0x68, 0x78)), angle1: (chain7(b.world_chr_man, torrent_enemy_ins, 0x18, 0x0, 0x190, 0x68, 0x54)), angle2: (chain7(b.world_chr_man, torrent_enemy_ins, 0x18, 0x0, 0x190, 0x68, 0x64)), map_id: Some((chain5(b.world_chr_man, torrent_enemy_ins, 0x18, 0x0, mio))) },
            animation_speed: (chain5(b.world_chr_man, player_ins, 0x190, 0x28, 0x17C8)),
            torrent_animation_speed: (chain7(b.world_chr_man, torrent_enemy_ins, 0x18, 0, 0x190, 0x28, 0x17C8)),
            func_warp: b.lua_warp + 2,
            warp1: (chain2(b.cs_lua_event_manager, 0x18)),
            warp2: (chain2(b.cs_lua_event_manager, 0x08)),
            deathcam: (Bitflag::new(chain3(b.world_chr_man, player_ins, 0x1c8), 4), Bitflag::new(chain5(b.world_chr_man, torrent_enemy_ins, 0x18, 0, 0x1c8), 4), BytesPatch::new((chain3(b.field_area, 0x98, 0x7c)), bytes1(0x07u8), seven_read)),
            hitbox_high: Bitflag::new(chain1(b.hit_ins_hitbox_offset), 1),
            hitbox_low: Bitflag::new(chain1(b.hit_ins_hitbox_offset + 0x1), 1),
            hitbox_f: Bitflag::new(chain1(b.hit_ins_hitbox_offset + 0x4), 1),
            hitbox_character: Bitflag::new(chain1(b.hit_ins_hitbox_offset + 0x3), 1),
            hitbox_event: Bitflag::new(chain2(b.dbg_event_man_off, 0x4), 1),
            poise_view: Bitflag::new(chain2(b.world_chr_man_dbg, 0x69), 1),
            sound_view: BytesPatch::new((chain1(b.sound_draw_patch)), bytes2(0x90u8, 0x90u8), sound_read),
            all_targeting_view: Bitflag::new(chain1(b.targeting_debug_draw), 1),
            mesh_color: (chain1(b.hit_ins_hitbox_offset + 0x8)),
            field_area_direction: Bitflag::new(chain1(b.field_area + 0x9), 1),
            field_area_altimeter: Bitflag::new(chain1(b.field_area + 0xA), 1),
            field_area_compass: Bitflag::new(chain1(b.field_area + 0xB), 1),
            show_geom,
            show_chr: Bitflag::new(chain1(group_mask + show_chr), 1),
            func_item_spawn: b.func_item_spawn,
            func_item_inject: b.func_item_inject,
            action_freeze: BytesPatch::new((chain1(b.func_dbg_action_force + 7)), bytes1(freeze_byte), freeze_read),
            show_all_map_layers: Bitflag::new(chain1(b.func_check_graces), 1),
            show_all_graces: Bitflag::new(chain1(b.func_check_graces + 0x1), 1),
            base_addresses: b,
        }
    }
}

} // verus!
