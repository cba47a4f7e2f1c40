use eldenring_practice_tool::params::{
    entry_name, name_source, param_at, NameSource, Param, ParamSet, Params,
};

fn set(name: &str, address: usize, count: isize) -> Result<ParamSet, String> {
    Ok(ParamSet { name: name.to_string(), address, count })
}

#[test]
fn sets_are_filed_by_name() {
    let mut p = Params::new();
    let errors = p
        .refresh_from(
            150,
            vec![
                set("SpEffectParam", 0x3000, 10),
                Err("Wrong ptr 0x0".to_string()),
                set("EquipParamWeapon", 0x1000, 20),
                set("SpEffectParam", 0x4000, 11),
            ],
        )
        .unwrap();
    assert_eq!(errors, vec!["Wrong ptr 0x0".to_string()]);
    assert_eq!(p.keys(), vec!["EquipParamWeapon".to_string(), "SpEffectParam".to_string()]);
    assert_eq!(p.get_param_ptr("SpEffectParam"), Some((0x4000, 11)));
    assert_eq!(p.get_param_ptr("Missing"), None);
    assert_eq!(p.row_entry("EquipParamWeapon", 2), Some((0x1000, 0x1000 + 0x40 + 48)));
    assert_eq!(p.row_entry("EquipParamWeapon", 20), None);
    assert_eq!(p.row_entry("Missing", 0), None);
}

#[test]
fn short_tables_are_refused() {
    let mut p = Params::new();
    p.refresh_from(100, vec![set("A", 1, 1)]).unwrap();
    assert_eq!(p.refresh_from(99, vec![]), Err("Invalid entries count".to_string()));
    assert_eq!(p.keys(), vec!["A".to_string()]);
}

#[test]
fn rows_and_names() {
    assert_eq!(param_at(0x1000, 7, 0x20), Param { id: 7, param: Some(0x1020) });
    assert_eq!(param_at(0x1000, 7, -0x1000), Param { id: 7, param: None });
    assert_eq!(param_at(0x10, 1, -0x20), Param { id: 1, param: Some(usize::MAX - 0xf) });
    assert_eq!(name_source(7), NameSource::Inline);
    assert_eq!(name_source(8), NameSource::Pointer);
    let units: Vec<u16> = "Bullet\0xx".encode_utf16().collect();
    assert_eq!(entry_name(&units), Ok("Bullet".to_string()));
    assert_eq!(entry_name(&[0x41, 0x42]), Err("Missing NUL terminator".to_string()));
    assert!(entry_name(&[0xD800, 0]).is_err());
}

#[test]
fn entry_names_decode_surrogate_pairs() {
    assert_eq!(entry_name(&[0xD834, 0xDD1E, 0x41, 0]), Ok("\u{1D11E}A".to_string()));
    assert!(entry_name(&[0xDD1E, 0xD834, 0]).is_err());
}
