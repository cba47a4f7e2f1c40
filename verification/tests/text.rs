use eldenring_practice_tool::paths::{
    base_addresses_rs_path, dist_dir, item_ids_json_path, item_ids_yml_path, join_path, patches_paths,
};
use eldenring_practice_tool::config::{
    config_error_message, flag_fields, FlagField, FlagSpec, Indicator, LevelFilterSerde, LogLevel, MultiFlagSpec,
    PlaceholderOption, Settings, SpecialFlag,
};
use eldenring_practice_tool::hud::{
    cursor_shown, igt_label, map_id_label, next_ui_state, Hud, LogLine, UiState,
};
use eldenring_practice_tool::item_spawn::{affinity, upgrade, ItemSpawnInstance, ItemSpawner};
use eldenring_practice_tool::items::{item_node_from_entry, item_nodes_from_document, ItemsError, YamlValue};
use eldenring_practice_tool::matching::{filter_list, filter_nodes, reposition, string_match, ItemIDNode};
use eldenring_practice_tool::update::{
    check_release, find, is_newer, release_notes, trim, update_from_version, update_prompt, SemVer,
    Update, UpdatePrompt,
};

#[test]
fn ui_state_follows_the_hotkeys() {
    assert_eq!(next_ui_state(UiState::Closed, true, false, false), UiState::MenuOpen);
    assert_eq!(next_ui_state(UiState::MenuOpen, true, false, false), UiState::Closed);
    assert_eq!(next_ui_state(UiState::MenuOpen, false, true, false), UiState::Hidden);
    assert_eq!(next_ui_state(UiState::Hidden, true, false, false), UiState::Closed);
    assert_eq!(next_ui_state(UiState::Closed, true, false, true), UiState::Closed);
    assert_eq!(next_ui_state(UiState::Closed, false, false, false), UiState::Closed);
    let twice = next_ui_state(next_ui_state(UiState::Closed, true, false, false), true, false, false);
    assert_eq!(twice, UiState::Closed);
    assert!(cursor_shown(UiState::MenuOpen));
    assert!(!cursor_shown(UiState::Hidden));
}

#[test]
fn hud_labels() {
    assert_eq!(igt_label(3_723_456), "IGT 01:02:03.45");
    assert_eq!(igt_label(0), "IGT 00:00:00.00");
    assert_eq!(igt_label(360_000_000), "IGT 100:00:00.00");
    assert_eq!(map_id_label(0x3c2c_240a), "m3c_2c_24_0a");
}

#[test]
fn item_spawner_tables_and_log() {
    assert_eq!(affinity(0), (0, "No affinity"));
    assert_eq!(affinity(12), (1200, "Occult"));
    assert_eq!(upgrade(25), (25, "+25".to_string()));
    let i = ItemSpawnInstance { spawn_item_func_ptr: 1, map_item_man: 2, qty: 3, item_id: 0x4000_0b67 };
    assert_eq!(i.describe(), "40000b67 (qty=3)");

    let mut s = ItemSpawner::new(0x10, 0x20);
    assert_eq!(s.spawn(false), None);
    assert_eq!(s.take_log(), Some(vec!["Not spawning item when not in game".to_string()]));
    assert_eq!(s.take_log(), None);
    s.upgrade = 3;
    s.affinity = 2;
    let spawned = s.spawn(true).unwrap();
    assert_eq!(spawned.item_id, 0x4000_0000 + 2919 + 3 + 200);
    assert_eq!(spawned.qty, 1);
    assert_eq!(spawned.spawn_item_func_ptr, 0x10);
    assert_eq!(
        s.take_log(),
        Some(vec![format!("Spawning 1 #{} +3 Keen", 0x4000_0000u32 + 2919)])
    );
}

#[test]
fn fuzzy_filters() {
    assert!(string_match("", "anything"));
    assert!(string_match("rvs", "Rivers of Blood"));
    assert!(!string_match("xyz", "Rivers of Blood"));
    let names = vec!["Church of Elleh".to_string(), "Gatefront".to_string()];
    assert_eq!(filter_list(&names, "gf"), vec![false, true]);
    assert_eq!(filter_list(&names, ""), vec![true, true]);
    assert_eq!(reposition(0, &vec![false, true]), 1);
    assert_eq!(reposition(1, &vec![false, true]), 1);
    assert_eq!(reposition(0, &vec![false, false]), 0);
}

#[test]
fn item_tree_filter() {
    let tree = ItemIDNode::Node {
        node: "Weapons".to_string(),
        children: vec![
            ItemIDNode::Leaf { node: "Dagger".to_string(), value: 1 },
            ItemIDNode::Leaf { node: "Greatsword".to_string(), value: 2 },
            ItemIDNode::Node { node: "Empty".to_string(), children: vec![] },
        ],
    };
    match tree.filter("gsw") {
        Some(ItemIDNode::Node { node, children }) => {
            assert_eq!(node, "Weapons");
            assert_eq!(children.len(), 1);
            assert!(matches!(&children[0], ItemIDNode::Leaf { value: 2, .. }));
        },
        other => panic!("unexpected {other:?}"),
    }
    assert!(tree.filter("zzz").is_none());
    match tree.filter("") {
        Some(ItemIDNode::Node { children, .. }) => assert_eq!(children.len(), 3),
        other => panic!("unexpected {other:?}"),
    }
}

#[test]
fn item_list_conversion() {
    let s = |t: &str| YamlValue::String(t.to_string());
    let doc = YamlValue::Mapping(vec![
        (s("Weapons"), YamlValue::Mapping(vec![(s("Dagger"), YamlValue::Number(Some(0x1_0000_0001)))])),
        (s("Torch"), YamlValue::Number(Some(7))),
    ]);
    let nodes = item_nodes_from_document(&doc).unwrap();
    assert_eq!(nodes.len(), 2);
    match &nodes[0] {
        ItemIDNode::Node { node, children } => {
            assert_eq!(node, "Weapons");
            assert!(matches!(&children[0], ItemIDNode::Leaf { value: 1, .. }));
        },
        other => panic!("unexpected {other:?}"),
    }
    assert_eq!(item_nodes_from_document(&YamlValue::Null).unwrap_err(), ItemsError::NotAMapping);
    let bad = YamlValue::Mapping(vec![(s("Torch"), YamlValue::Bool(true))]);
    assert_eq!(item_nodes_from_document(&bad).unwrap_err(), ItemsError::InvalidValue);
    assert!(item_node_from_entry(&YamlValue::Null, &YamlValue::Number(Some(1))).is_err());
}

#[test]
fn flag_specs() {
    let f = FlagSpec::try_from("no_damage").unwrap();
    assert_eq!(f.field, FlagField::NoDamage);
    assert_eq!(f.field.name(), "no_damage");
    assert_eq!(FlagSpec::try_from("bogus").unwrap_err(), "\"bogus\" is not a valid flag specifier");
    assert_eq!(flag_fields().len(), 28);
    let m = MultiFlagSpec::try_from("show_map").unwrap();
    assert_eq!(m.label, "Show/hide map");
    assert_eq!(m.items, (0..16).collect::<Vec<usize>>());
    assert_eq!(
        MultiFlagSpec::try_from("show_all").unwrap_err(),
        "\"show_all\" is not a valid multiflag specifier"
    );
}

#[test]
fn settings_values() {
    assert_eq!(Indicator::default_set(), vec![Indicator::GameVersion, Indicator::Position, Indicator::Igt]);
    assert_eq!(Indicator::try_from("igt"), Ok(Indicator::Igt));
    assert_eq!(Indicator::try_from("imgui_debug"), Ok(Indicator::ImguiDebug));
    assert_eq!(Indicator::try_from("fps"), Err("Unrecognized indicator: fps".to_string()));
    assert_eq!(PlaceholderOption::Data(5).into_option(), Some(5));
    assert_eq!(PlaceholderOption::<u8>::Placeholder(true).into_option(), None);
    assert_eq!(SpecialFlag::from_name("deathcam"), Some(SpecialFlag::Deathcam));
    assert_eq!(SpecialFlag::from_name("action_freeze"), Some(SpecialFlag::ActionFreeze));
    assert_eq!(SpecialFlag::from_name("nope"), None);
    assert_eq!(LevelFilterSerde::try_from("INFO").unwrap().inner(), LogLevel::Info);
    assert_eq!(LevelFilterSerde::try_from("4").unwrap().inner(), LogLevel::Debug);
    assert_eq!(LevelFilterSerde::try_from("").unwrap().inner(), LogLevel::Error);
    assert!(LevelFilterSerde::try_from("loud").is_err());
    assert!(LogLevel::Info.less_than(LogLevel::Debug));
    assert!(!LogLevel::Trace.less_than(LogLevel::Debug));
    let mut s = Settings::default_settings();
    assert_eq!(s.display, "0");
    assert_eq!(s.hide.as_deref(), Some("rshift+0"));
    assert!(!s.keeps_console());
    s.show_console = true;
    assert!(s.keeps_console());
    s.log_level = LevelFilterSerde(LogLevel::Info);
    assert!(!s.keeps_console());
    assert!(s.checks_updates());
}

fn semver(text: &str) -> SemVer {
    SemVer::parse(text).unwrap()
}

#[test]
fn version_order_against_the_installed_release() {
    assert!(is_newer(&semver("1.2.4"), 1, 2, 3));
    assert!(!is_newer(&semver("1.2.3"), 1, 2, 3));
    assert!(!is_newer(&semver("1.2.3-beta"), 1, 2, 3));
    assert!(is_newer(&semver("1.2.3+build5"), 1, 2, 3));
    assert!(is_newer(&semver("1.2.3+0"), 1, 2, 3));
    assert!(is_newer(&semver("2.0.0-rc1"), 1, 9, 9));
    assert!(!is_newer(&semver("0.9.9"), 1, 0, 0));
    let v = semver("3.1.4-alpha.1+sha.5");
    assert_eq!((v.major, v.minor, v.patch), (3, 1, 4));
    assert_eq!(v.pre(), "alpha.1");
    assert_eq!(v.build(), "sha.5");
    assert!(SemVer::parse("v1.0.0").is_err());
}

#[test]
fn text_search_and_trim() {
    let v = |s: &str| s.chars().collect::<Vec<char>>();
    assert_eq!(find(&v("abcabc"), &v("ca")), Some(2));
    assert_eq!(find(&v("abc"), &v("d")), None);
    assert_eq!(find(&v("ab"), &v("abc")), None);
    assert_eq!(find(&v("ab"), &v("")), Some(0));
    assert_eq!(trim("  notes \n"), "notes");
    assert_eq!(trim(" \t "), "");
    assert_eq!(release_notes("Fixes\n\n## What's Changed\n* stuff"), "Fixes");
    assert_eq!(release_notes("No heading"), "No heading");
}

#[test]
fn update_outcomes() {
    match check_release("v1.0.0", "url".to_string(), "body", 1, 0, 0) {
        Update::Error(e) => assert!(!e.is_empty()),
        _ => panic!("a tag with a leading v does not parse"),
    }
    assert!(matches!(check_release("1.0.0", "url".to_string(), "body", 1, 0, 0), Update::UpToDate));
    match check_release("1.2.0", "https://example/r".to_string(), "Notes\n## What's Changed\nx", 1, 1, 0) {
        Update::Available { url, notes } => {
            assert_eq!(url, "https://example/r");
            assert_eq!(
                notes,
                "A new version of the practice tool is available!\n\nLatest version:    1.2.0\n\
                 Installed version: 1.1.0\n\nRelease notes:\nNotes\n"
            );
        },
        _ => panic!("expected an update"),
    }
    match update_from_version(Ok(semver("3.0.0-rc.1")), "u".to_string(), "n", 2, 9, 9) {
        Update::Available { notes, .. } => assert!(notes.contains("Latest version:    3.0.0-rc.1\n")),
        _ => panic!("expected an update"),
    }
    assert!(matches!(
        update_from_version(Err("bad".to_string()), "u".to_string(), "n", 1, 0, 0),
        Update::Error(e) if e == "bad"
    ));
}

#[test]
fn config_error_text() {
    assert_eq!(
        config_error_message("TOML config error at settings: missing field `display`"),
        "Configuration error, please review your jdsd_er_practice_tool.toml file.\n\n\
         TOML config error at settings: missing field `display`"
    );
}

#[test]
fn item_forest_filter() {
    let nodes = vec![
        ItemIDNode::Leaf { node: "Torch".to_string(), value: 1 },
        ItemIDNode::Node {
            node: "Weapons".to_string(),
            children: vec![ItemIDNode::Leaf { node: "Dagger".to_string(), value: 2 }],
        },
    ];
    assert_eq!(filter_nodes(&nodes, "").len(), 2);
    let kept = filter_nodes(&nodes, "dag");
    assert_eq!(kept.len(), 1);
    assert!(matches!(&kept[0], ItemIDNode::Node { node, .. } if node == "Weapons"));
    assert!(filter_nodes(&nodes, "qqq").is_empty());
}

#[test]
fn launcher_update_prompts() {
    assert!(matches!(update_prompt(&Update::UpToDate), UpdatePrompt::Nothing));
    match update_prompt(&Update::Error("timeout".to_string())) {
        UpdatePrompt::Error { title, text } => {
            assert_eq!(title, "Elden Ring Practice Tool - Error");
            assert_eq!(text, "Could not check for updates: timeout");
        },
        other => panic!("unexpected {other:?}"),
    }
    match update_prompt(&Update::Available { url: "u".to_string(), notes: "n".to_string() }) {
        UpdatePrompt::Offer { title, text, url } => {
            assert_eq!(title, "Elden Ring Practice Tool - Update available");
            assert_eq!(text, "n\n\nDo you want to download it?");
            assert_eq!(url, "u");
        },
        other => panic!("unexpected {other:?}"),
    }
}

#[test]
fn project_paths_join_below_the_root() {
    assert_eq!(item_ids_yml_path("/src/er", '/'), "/src/er/xtask/src/codegen/item_ids.yml");
    assert_eq!(item_ids_json_path("/src/er/", '/'), "/src/er/practice-tool/src/widgets/item_ids.json");
    assert_eq!(item_ids_yml_path("C:\\er", '\\'), "C:\\er\\xtask\\src\\codegen\\item_ids.yml");
    assert_eq!(dist_dir("", '/'), "target/dist");
    assert_eq!(dist_dir("C:\\er", '\\'), "C:\\er\\target/dist");
    assert_eq!(join_path("a", "b", '/'), "a/b");
    assert_eq!(join_path("a/", "b", '\\'), "a/b");
    assert_eq!(join_path("a\\", "b", '/'), "a\\/b");
    assert_eq!(base_addresses_rs_path("r", '/'), "r/lib/libeldenring/src/codegen/base_addresses.rs");
    assert_eq!(
        patches_paths(&vec!["p/1.02".to_string(), "p/1.03/".to_string()], '/'),
        vec!["p/1.02/Game/eldenring.exe".to_string(), "p/1.03/Game/eldenring.exe".to_string()]
    );
    assert_eq!(patches_paths(&vec!["D:\\p".to_string()], '\\'), vec!["D:\\p\\Game\\eldenring.exe".to_string()]);
}

#[test]
fn frame_prunes_old_log_lines_and_moves_the_overlay() {
    let mut hud = Hud::new();
    hud.log.push(LogLine { at: 1000, text: "old".to_string() });
    hud.log.push(LogLine { at: 4000, text: "kept".to_string() });
    let cursor = hud.frame(true, false, false, vec!["new".to_string()], 6000);
    assert_eq!(hud.state, UiState::MenuOpen);
    assert_eq!(cursor, Some(true));
    let texts: Vec<&str> = hud.log.iter().map(|l| l.text.as_str()).collect();
    assert_eq!(texts, vec!["kept", "new"]);
    assert_eq!(hud.log[1].at, 6000);

    let cursor = hud.frame(false, true, false, vec![], 9000);
    assert_eq!(hud.state, UiState::Hidden);
    assert_eq!(cursor, Some(false));
    let texts: Vec<&str> = hud.log.iter().map(|l| l.text.as_str()).collect();
    assert_eq!(texts, vec!["new"]);

    let cursor = hud.frame(true, false, true, vec![], 11000);
    assert_eq!(hud.state, UiState::Hidden);
    assert_eq!(cursor, None);
    assert!(hud.log.is_empty());
}

#[test]
fn shown_log_is_the_last_three_lines() {
    let mut hud = Hud::new();
    let lines: Vec<String> = (0..5).map(|i| format!("l{i}")).collect();
    hud.frame(false, false, false, lines, 0);
    assert_eq!(hud.shown_log(), vec!["l2", "l3", "l4"]);
    let mut small = Hud::new();
    small.frame(false, false, false, vec!["a".to_string()], 0);
    assert_eq!(small.shown_log(), vec!["a"]);
}

#[test]
fn groups_keep_only_the_entries_that_were_made() {
    let made = vec![Some("a".to_string()), None, Some("b".to_string()), None];
    assert_eq!(eldenring_practice_tool::config::kept_entries(&made), vec!["a", "b"]);
    assert!(eldenring_practice_tool::config::kept_entries(&vec![None]).is_empty());
}
