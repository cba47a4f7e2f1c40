use eldenring_practice_tool::flags::{ActionFreeze, Deathcam, MultiFlag, Toggler};
use eldenring_practice_tool::memedit::{Bitflag, BytesPatch, FlagToggler, PointerChain, WalkStep};
use eldenring_practice_tool::pointers::{
    action_freeze_byte, has_blessings, map_id_offset, patch_sites, show_geom_offsets,
    BaseAddresses, Pointers,
};
use eldenring_practice_tool::target::{
    current_and_max, jump_displacement, u32_to_array, u64_to_array, Target, TargetAction,
};
use eldenring_practice_tool::version::{
    file_version_triple, get_version, unsupported_version_message, version_label, Version,
    VersionSlot,
};

fn chain(addrs: &[usize]) -> PointerChain {
    PointerChain::new(addrs)
}

#[test]
fn pointer_chain_walks_each_offset() {
    let c = chain(&[0x1000, 0x10, 0x20]);
    assert_eq!(c.base, 0x1000);
    assert_eq!(c.offsets, vec![0x10, 0x20]);
    let w = c.start();
    assert_eq!(c.step(&w), WalkStep::Read(0x1000));
    let w = c.advance(&w, 0x5000);
    assert_eq!(c.step(&w), WalkStep::Read(0x5010));
    let w = c.advance(&w, 0x9000);
    assert_eq!(c.step(&w), WalkStep::Done(0x9020));
    let wrapped = c.advance(&c.start(), usize::MAX);
    assert_eq!(wrapped.addr, 0x0f);
    let copy = c.cast();
    assert_eq!(copy.base, c.base);
    assert_eq!(copy.offsets, c.offsets);
}

#[test]
fn bitflag_reads_toggles_and_sets() {
    let f = Bitflag::new(chain(&[0x10]), 0b100);
    assert_eq!(f.width(), 1);
    assert_eq!(f.get(None), None);
    assert_eq!(f.get(Some(&[0b110])), Some(true));
    assert_eq!(f.get(Some(&[0b010])), Some(false));
    assert_eq!(f.toggle(Some(&[0b100])), Some((true, vec![0])));
    assert_eq!(f.toggle(Some(&[0b110])), Some((false, vec![0b010])));
    assert_eq!(f.toggle(None), None);
    assert_eq!(f.set(Some(&[0b001]), true), Some(vec![0b101]));
    assert_eq!(f.set(Some(&[0b101]), false), Some(vec![0b001]));
    assert_eq!(f.set(None, true), None);
}

#[test]
fn bitflag_set_then_get_gives_the_flag() {
    let f = Bitflag::new(chain(&[0x10]), 0b11);
    for x in [0u8, 0b01, 0b10, 0xff] {
        for flag in [false, true] {
            let w = f.set(Some(&[x]), flag).unwrap();
            assert_eq!(f.get(Some(w.as_slice())), Some(flag));
            let once = f.toggle(Some(&[x])).unwrap().1;
            let twice = f.toggle(Some(once.as_slice())).unwrap().1;
            assert_eq!(twice, vec![x]);
        }
    }
}

#[test]
fn bytes_patch_remembers_original_bytes() {
    let p = BytesPatch::new(chain(&[0x20]), vec![0x90, 0x90], Some(&[0x74, 0x05]));
    assert_eq!(p.off, vec![0x74, 0x05]);
    assert_eq!(p.width(), 2);
    assert_eq!(p.get(Some(&[0x90, 0x90])), Some(true));
    assert_eq!(p.get(Some(&[0x74, 0x05])), Some(false));
    assert_eq!(p.toggle(Some(&[0x74, 0x05])), Some((true, vec![0x90, 0x90])));
    assert_eq!(p.toggle(Some(&[0x90, 0x90])), Some((false, vec![0x74, 0x05])));
    assert_eq!(p.set(Some(&[0x90, 0x90]), true), None);
    assert_eq!(p.set(Some(&[0x74, 0x05]), true), Some(vec![0x90, 0x90]));
    assert_eq!(p.set(Some(&[0x90, 0x90]), false), Some(vec![0x74, 0x05]));
    let unread = BytesPatch::new(chain(&[0x20]), vec![1, 2, 3], None);
    assert_eq!(unread.off, vec![0, 0, 0]);
}

#[test]
fn multi_flag_sets_every_flag() {
    let m = MultiFlag::new(vec![
        Toggler::Bit(Bitflag::new(chain(&[1]), 1)),
        Toggler::Bit(Bitflag::new(chain(&[2]), 2)),
    ]);
    assert_eq!(m.get(Some(&[1])), Some(true));
    assert_eq!(m.get(None), None);
    let writes = m.set(&vec![Some(vec![0]), None], true);
    assert_eq!(writes, vec![Some(vec![1]), None]);
    assert_eq!(MultiFlag::new(vec![]).get(Some(&[1])), None);
}

#[test]
fn deathcam_and_action_freeze() {
    let d = Deathcam::new(
        Bitflag::new(chain(&[1]), 0x1),
        Bitflag::new(chain(&[2]), 0x1),
        BytesPatch::new(chain(&[3]), vec![7], Some(&[0])),
    );
    assert_eq!(d.get(Some(1)), Some(true));
    assert_eq!(d.get(Some(2)), Some(false));
    let (a, b, c) = d.set(Some(&[0]), Some(&[0x10]), None, true);
    assert_eq!(a, Some(vec![7]));
    assert_eq!(b, Some(vec![0x11]));
    assert_eq!(c, None);

    let mut f = ActionFreeze::new(chain(&[4]), (0, 2), Some(2));
    assert!(f.state);
    assert_eq!(f.get(Some(2)), Some(true));
    assert_eq!(f.get(Some(0)), Some(false));
    assert_eq!(f.get(Some(9)), None);
    let w = f.set(false);
    assert_eq!(w, 0);
    assert!(!f.state);
    let on = f.set(true);
    assert_eq!(f.get(Some(on)), Some(true));
}

#[test]
fn versions_round_trip() {
    assert_eq!(Version::V1_02_0.to_triple(), (1, 2, 0));
    assert_eq!(Version::try_from_triple((2, 6, 0)), Ok(Version::V2_06_0));
    assert_eq!(Version::try_from_triple((9, 9, 9)), Err(()));
    for v in [Version::V1_03_2, Version::V1_09_1, Version::V2_02_3] {
        assert_eq!(Version::try_from_triple(v.to_triple()), Ok(v));
    }
    assert_eq!(file_version_triple(0x0002_0006, 0x0000_0001), (2, 6, 0));
    assert_eq!(version_label(Version::V1_02_3), "Game Ver 1.02.3");
    assert_eq!(version_label(Version::V2_00_1), "Game Ver 2.00.1");
}

#[test]
fn version_check_keeps_the_first_result() {
    let mut slot = VersionSlot::new();
    assert_eq!(slot.cached(), None);
    assert_eq!(slot.check_version(0x0007_0007, 0), Err((7, 7, 0)));
    assert_eq!(slot.cached(), None);
    assert_eq!(slot.check_version(0x0001_0009, 0x0001_0000), Ok(Version::V1_09_1));
    assert_eq!(slot.check_version(0x0002_0006, 0), Ok(Version::V1_09_1));
    assert_eq!(get_version(&slot), Version::V1_09_1);
}

#[test]
fn target_bytes_and_jumps() {
    assert_eq!(u32_to_array(0x1234_5678), [0x78, 0x56, 0x34, 0x12]);
    assert_eq!(u64_to_array(0x0102_0304_0506_0708), [8, 7, 6, 5, 4, 3, 2, 1]);
    assert_eq!(jump_displacement(0x2000, 0x1000, 5), 0xffb);
    assert_eq!(jump_displacement(0x1000, 0x2000, 11), 0xffff_eff5);
    assert_eq!(current_and_max(Some([10, 20, 30])), (10, 30));
    assert_eq!(current_and_max(None), (0, 0));
}

#[test]
fn target_enable_and_disable() {
    let mut t = Target::new();
    assert_eq!(t.interact(false), TargetAction::Nothing);
    assert_eq!(t.interact(true), TargetAction::Enable);
    let orig = [1, 2, 3, 4, 5, 6, 7, 8, 9, 10, 11];
    let (patch, detour) = t.enable(orig, 0x1000, 0x2000, 0x1122_3344_5566_7788);
    assert!(t.is_enabled);
    assert_eq!(detour, vec![0xE9, 0xfb, 0x0f, 0, 0, 0x90, 0x90, 0x90, 0x90, 0x90, 0x90]);
    assert_eq!(&patch[0..2], &[0x48, 0xa3]);
    assert_eq!(&patch[2..10], &[0x88, 0x77, 0x66, 0x55, 0x44, 0x33, 0x22, 0x11]);
    assert_eq!(&patch[10..17], &[5, 6, 7, 8, 9, 10, 11]);
    assert_eq!(patch[17], 0xe9);
    assert_eq!(&patch[18..22], &[0xf5, 0xef, 0xff, 0xff]);
    assert_eq!(t.interact(true), TargetAction::Disable);
    assert!(t.entity_chains().is_none());
    t.entity_addr = 0x4000;
    let c = t.entity_chains().unwrap();
    assert_eq!(c.hp.base, 0x4190);
    assert_eq!(c.hp.offsets, vec![0, 0x138]);
    assert_eq!(t.disable(), orig);
    assert!(!t.is_enabled);
}

fn zero_bases() -> BaseAddresses {
    BaseAddresses {
        chr_dbg_flags: 0x100,
        cs_menu_man_imp: 0x200,
        damage_ctrl: 0,
        field_area: 0x300,
        game_data_man: 0x400,
        group_mask: 0x500,
        hit_ins_hitbox_offset: 0,
        world_chr_man: 0,
        func_item_spawn: 0,
        func_item_inject: 0,
        lua_warp: 0,
        func_check_graces: 0,
        cs_lua_event_manager: 0,
        current_target: 0,
        base_fps: 0,
        base_anim: 0,
        dbg_event_man_off: 0,
        world_chr_man_dbg: 0,
        func_dbg_action_force: 0x600,
        sound_draw_patch: 0x700,
        targeting_debug_draw: 0,
        map_item_man: 0,
        cs_regulation_manager: 0,
        func_remove_intro_screens: 0,
    }
}

#[test]
fn pointers_follow_the_version_tables() {
    assert_eq!(map_id_offset(Version::V1_02_0), 0x6c8);
    assert_eq!(map_id_offset(Version::V2_06_0), 0x6d0);
    assert!(!has_blessings(Version::V1_02_0));
    assert!(has_blessings(Version::V2_06_0));
    let b = zero_bases().with_module_base_addr(0x1_0000);
    assert_eq!(b.chr_dbg_flags, 0x1_0100);
    let (seven, sound, freeze) = patch_sites(Version::V2_06_0, b);
    assert_eq!(seven.base, b.field_area);
    assert_eq!(seven.offsets, vec![0x98, 0x7c]);
    assert_eq!(sound.base, b.sound_draw_patch);
    assert_eq!(freeze.base, b.func_dbg_action_force + 7);
    let p = Pointers::new(Version::V2_06_0, b, Some(&[0]), None, Some(&[action_freeze_byte(Version::V2_06_0)]));
    assert_eq!(p.one_shot.chain.base, b.chr_dbg_flags + 3);
    assert_eq!(p.one_shot.mask, 1);
    assert_eq!(p.igt.base, b.game_data_man);
    assert_eq!(p.igt.offsets, vec![0xA0]);
    assert_eq!(p.quitout.offsets, vec![0x8, 0x5d]);
    assert_eq!(p.show_geom.len(), show_geom_offsets(Version::V2_06_0).len());
}

#[test]
fn unsupported_version_box() {
    let (caption, text) = unsupported_version_message((1, 10, 2));
    assert_eq!(caption, "Elden Ring Practice Tool - Unsupported version");
    assert_eq!(
        text,
        "The current game version, 1.10.2, is not supported yet.\n\nAn update will be released \
         soon, please stay tuned!"
    );
}
