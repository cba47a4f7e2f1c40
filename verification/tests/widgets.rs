use eldenring_practice_tool::keys::{key_names, KeyState};
use eldenring_practice_tool::bitfields::{flag_get, flag_set, member_visit, write_back_flags, MemberVisit};
use eldenring_practice_tool::launch::{
    action_for_button, err_to_string, intro_skip_patch, waits_for_key, Action, HoldStep, HoldWait,
};
use eldenring_practice_tool::widgets::{
    editor_rows, find_save_dir, warp_grace_id, runes_after, runes_label, sort_values, CycleColor, StatField,
    StatRow,
};

#[test]
fn bitflag_accessors() {
    assert!(flag_get(0b1010, 1));
    assert!(!flag_get(0b1010, 2));
    assert_eq!(flag_set(0b1010, 2, true), 0b1110);
    assert_eq!(flag_set(0b1010, 1, false), 0b1000);
    assert_eq!(flag_set(0b1010, 1, true), 0b1010);
    for v in [0u32, 0xff, 0x1234_5678, u32::MAX] {
        for i in 0..32 {
            for state in [false, true] {
                let w = flag_set(v, i, state);
                assert_eq!(flag_get(w, i), state);
                for j in 0..32 {
                    if j != i {
                        assert_eq!(flag_get(w, j), flag_get(v, j));
                    }
                }
            }
            assert_eq!(flag_set(v, i, flag_get(v, i)), v);
        }
    }
}

#[test]
fn member_visits() {
    assert_eq!(member_visit("u8", false, true), MemberVisit::Flags);
    assert_eq!(member_visit("u8", false, false), MemberVisit::Scalar);
    assert_eq!(member_visit("u16", false, true), MemberVisit::Scalar);
    assert_eq!(member_visit("f32", false, false), MemberVisit::Scalar);
    assert_eq!(member_visit("[u8; 4]", true, false), MemberVisit::Skip);
    assert_eq!(member_visit("u64", false, false), MemberVisit::Unrecognized);
}

#[test]
fn mesh_colors_cycle_in_order() {
    assert_eq!(sort_values(&[3, -1, 2, 3]), vec![-1, 2, 3, 3]);
    let c = CycleColor::new(&[20, -5, 10]);
    assert_eq!(c.next(None), -5);
    assert_eq!(c.next(Some(-5)), 10);
    assert_eq!(c.next(Some(12)), 20);
    assert_eq!(c.next(Some(20)), -5);
    assert_eq!(CycleColor::new(&[]).next(Some(4)), 0);
    assert_eq!(CycleColor::label(Some(-3)), "Mesh Color [-3]");
    assert_eq!(CycleColor::label(Some(i32::MIN)), format!("Mesh Color [{}]", i32::MIN));
    assert_eq!(CycleColor::label(None), "Mesh Color");
}

#[test]
fn rune_gift() {
    assert_eq!(runes_label(10000), "Add 10000 runes");
    assert_eq!(runes_after(5, 10), 15);
}

#[test]
fn save_directory_is_the_first_hex_directory() {
    let names = vec![
        "GraphicsConfig.xml".to_string(),
        "abc123".to_string(),
        "0123abcd".to_string(),
        "ABCDEF".to_string(),
    ];
    assert_eq!(find_save_dir(&names, &vec![false, false, true, true]), Ok(2));
    assert_eq!(find_save_dir(&names, &vec![false, true, true, true]), Ok(1));
    assert_eq!(
        find_save_dir(&names, &vec![true, false, false, true]),
        Err("Couldn't find savefile path".to_string())
    );
    assert_eq!(
        find_save_dir(&vec!["".to_string()], &vec![true]),
        Err("Couldn't find savefile path".to_string())
    );
}

#[test]
fn stats_editor_rows() {
    let rows = editor_rows(false, false);
    assert_eq!(rows.len(), 10);
    assert_eq!(rows[0], StatRow::Int { label: "Level", field: StatField::Level, min: 1, max: 713 });
    assert_eq!(rows[9], StatRow::Int { label: "Souls", field: StatField::Runes, min: 0, max: i32::MAX });
    let rows = editor_rows(true, true);
    assert_eq!(rows.len(), 20);
    assert_eq!(rows[10], StatRow::Separator);
    assert_eq!(rows[16], StatRow::Int { label: "Max SP", field: StatField::MaxStamina, min: 0, max: i32::MAX });
    assert_eq!(rows[17], StatRow::Separator);
    assert_eq!(
        rows[19],
        StatRow::Byte { label: "Revered Spirit Ash", field: StatField::ReveredSpiritAsh, min: 0, max: 10 }
    );
    assert_eq!(editor_rows(false, true).len(), 13);
}

#[test]
fn launcher_choices() {
    assert_eq!(action_for_button(100), Ok(Action::Run));
    assert_eq!(action_for_button(101), Ok(Action::Install));
    assert_eq!(action_for_button(102), Ok(Action::Uninstall));
    assert_eq!(action_for_button(7), Err("Error".to_string()));
    assert_eq!(err_to_string("no such file"), "Error: no such file");
}

#[test]
fn warp_ids() {
    assert_eq!(warp_grace_id(71190), 70190);
    assert_eq!(warp_grace_id(1000), 0);
}

#[test]
fn holding_right_shift() {
    let mut w = HoldWait::new();
    assert_eq!(w.step(0, 0, false), HoldStep::Poll);
    assert_eq!(w.step(100, 100, true), HoldStep::Poll);
    assert_eq!(w.key_down_since, Some(100));
    assert_eq!(w.step(1000, 1000, true), HoldStep::Poll);
    assert_eq!(w.step(2100, 2100, true), HoldStep::Held);
    let mut w = HoldWait::new();
    assert_eq!(w.step(100, 100, true), HoldStep::Poll);
    assert_eq!(w.step(1500, 1500, false), HoldStep::Poll);
    assert_eq!(w.key_down_since, None);
    assert_eq!(w.step(2200, 2200, true), HoldStep::Poll);
    assert_eq!(w.step(3000, 3000, true), HoldStep::Poll);
    assert_eq!(w.step(10000, 10000, true), HoldStep::TimedOut);
}

#[test]
fn start_up_choices() {
    assert!(waits_for_key(Some("DINPUT8.dll")));
    assert!(waits_for_key(Some("dinput8.dll")));
    assert!(!waits_for_key(Some("jdsd_er_practice_tool.dll")));
    assert!(!waits_for_key(None));
    assert_eq!(intro_skip_patch([0x74, 0x53]), Some([0x90, 0x90]));
    assert_eq!(intro_skip_patch([0x90, 0x90]), None);
}

#[test]
fn hotkey_texts() {
    assert_eq!(key_names("rshift+o"), ("o".to_string(), Some("rshift".to_string())));
    assert_eq!(key_names("rshift"), ("rshift".to_string(), None));
    assert_eq!(key_names("a+b+c"), ("c".to_string(), Some("b".to_string())));
    assert_eq!(key_names("+"), ("".to_string(), Some("".to_string())));
    assert_eq!(
        KeyState::from_codes("rshift+o", Some(0x4f), Some(0xa1)),
        Ok(KeyState { key: 0x4f, modifier: Some(0xa1) })
    );
    assert_eq!(KeyState::from_codes("o", Some(0x4f), None), Ok(KeyState { key: 0x4f, modifier: None }));
    assert_eq!(
        KeyState::from_codes("bogus+o", Some(0x4f), None),
        Err("\"bogus\" is not a valid key code".to_string())
    );
    assert_eq!(
        KeyState::from_codes("rshift+zz", None, Some(0xa1)),
        Err("\"rshift+zz\" is not a valid key code".to_string())
    );
    let k = KeyState { key: 1, modifier: Some(2) };
    assert!(!k.fires(true, false));
    assert!(k.fires(true, true));
    assert!(!k.fires(false, true));
    assert!(KeyState { key: 1, modifier: None }.fires(true, false));
}

#[test]
fn test_key_state() {
    assert_eq!(
        KeyState::from_codes("rshift+o", Some(0x4f), Some(0xa1)),
        Ok(KeyState { key: 0x4f, modifier: Some(0xa1) })
    );
    assert_eq!(KeyState::from_codes("rshift", Some(0xa1), None), Ok(KeyState { key: 0xa1, modifier: None }));
    assert_eq!(
        KeyState::from_codes("rshift", None, None),
        Err("\"rshift\" is not a valid key code".to_string())
    );
}

#[test]
fn visited_flags_are_written_back_in_order() {
    assert_eq!(write_back_flags(0b1010, &vec![0, 1, 3], &vec![true, false, false]), 0b0001);
    assert_eq!(write_back_flags(0b1010, &vec![], &vec![]), 0b1010);
    assert_eq!(write_back_flags(0, &vec![2, 2], &vec![true, false]), 0);
    assert_eq!(write_back_flags(0xf0, &vec![7], &vec![true]), 0xf0);
}
