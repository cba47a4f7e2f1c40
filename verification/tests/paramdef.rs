use eldenring_practice_tool::paramdef::{
    dedup_fields, fix_name, parse_count, parse_layout, plan_entry, slug, snake_case, strip_st,
    layout_from_events, EntryPlan, Field, ParamLayouts, XmlEvent,
};

#[test]
fn parses_xml_fields_and_preserves_names() -> Result<(), String> {
    let fields = parse_layout(
        r#"<?xml version="1.0"?>
            <PARAMDEF><Fields>
                <Field Def="s32 type = -1"><Description>ignored</Description></Field>
                <Field Def="fixstrW title[16]" />
                <Field Def="f32 2Speed = 1" />
                <Field Def="u8 fooBar" />
                <Field Def="u8 foo_bar" />
            </Fields></PARAMDEF>"#,
    )?;

    assert_eq!(fields.len(), 5);
    assert_eq!(fix_name(&fields[0].name), "ty");
    assert_eq!(fields[0].ty, "i32");
    assert_eq!(fields[1].ty, "[u16; 16]");
    assert_eq!(fix_name(&snake_case(&fields[2].name)), "field2_speed");
    assert_eq!(fields[4].name, "foo_bar_0");
    assert_eq!(snake_case("AIAttackParam"), "a_iattack_param");

    Ok(())
}

#[test]
fn groups_bitflags_in_order() -> Result<(), String> {
    let mut xml = String::from("<PARAMDEF><Fields>");

    for index in 0..8 {
        xml.push_str(&format!("<Field Def=\"u8 flag{index}:1\" />"));
    }

    xml.push_str("<Field Def=\"s32 value\" /></Fields></PARAMDEF>");

    let fields = parse_layout(&xml)?;

    assert_eq!(fields.len(), 2);
    assert_eq!(fields[0].name, "bitfield0");
    assert_eq!(fields[0].ty, "u8");
    assert_eq!(fields[0].flags.len(), 8);
    assert_eq!(fields[0].flags[7].name, "flag7");
    assert_eq!(fields[1].name, "value");

    Ok(())
}

#[test]
fn reports_invalid_definitions() {
    assert!(Field::parse("invalid").is_err());
    assert!(Field::parse("unknown value").is_err());
    assert!(parse_layout("<PARAMDEF><Fields><Field /></Fields></PARAMDEF>").is_err());
    assert!(parse_layout("<PARAMDEF><Fields></PARAMDEF>").is_err());
}

#[test]
fn field_parse_error_messages() {
    assert_eq!(Field::parse("invalid").unwrap_err(), "Couldn't parse field: invalid");
    assert_eq!(
        Field::parse("unknown value").unwrap_err(),
        "Unsupported field type unknown in unknown value"
    );
    assert_eq!(
        Field::parse("s32 value:1").unwrap_err(),
        "Unsupported bitfield type in s32 value:1"
    );
    assert_eq!(
        Field::parse("u8 data[99999999999999999999999]").unwrap_err(),
        "number too large to fit in target type"
    );
}

#[test]
fn field_parse_types_and_sizes() {
    let f = Field::parse("dummy8 pad[3]").unwrap();
    assert_eq!(f.name, "pad");
    assert_eq!(f.ty, "[u8; 3]");
    assert_eq!(f.bitfield_size, None);
    let f = Field::parse("u16 bits:1").unwrap();
    assert_eq!(f.ty, "u16");
    assert_eq!(f.bitfield_size, Some(16));
    let f = Field::parse("u32 wide:1").unwrap();
    assert_eq!(f.bitfield_size, Some(32));
    let f = Field::parse("s16 small").unwrap();
    assert_eq!(f.ty, "i16");
    let f = Field::parse("s8 tiny").unwrap();
    assert_eq!(f.ty, "i8");
    let f = Field::parse("fixstr text[8]").unwrap();
    assert_eq!(f.ty, "[u8; 8]");
}

#[test]
fn layout_errors_have_messages() {
    assert_eq!(
        parse_layout("<PARAMDEF><Fields><Field /></Fields></PARAMDEF>").unwrap_err(),
        "Field is missing its Def attribute"
    );
    assert_eq!(parse_layout("<PARAMDEF><Fields>").unwrap_err(), "Unexpected end of XML document");
    assert!(parse_layout("<PARAMDEF><Fields><Field Def=\"bad\" /></Fields></PARAMDEF>").is_err());
}

#[test]
fn fields_outside_the_field_list_are_ignored() {
    let fields = parse_layout(
        "<PARAMDEF><Field Def=\"u8 a\" /><Fields><Other><Field Def=\"u8 b\" /></Other>\
         <Field Def=\"u8 c\" /></Fields><Field Def=\"u8 d\" /></PARAMDEF>",
    )
    .unwrap();
    assert_eq!(fields.len(), 1);
    assert_eq!(fields[0].name, "c");
}

#[test]
fn attribute_values_are_normalized() {
    let fields =
        parse_layout("<PARAMDEF><Fields><Field Def=\"u8&#x20;spaced\" /></Fields></PARAMDEF>")
            .unwrap();
    assert_eq!(fields[0].name, "spaced");
}

#[test]
fn dedup_counts_repeats() {
    let mut fields = vec![
        Field::parse("u8 fooBar").unwrap(),
        Field::parse("u8 foo_bar").unwrap(),
        Field::parse("u8 other").unwrap(),
        Field::parse("u8 FooBar").unwrap(),
    ];
    dedup_fields(&mut fields);
    assert_eq!(fields[0].name, "fooBar");
    assert_eq!(fields[1].name, "foo_bar_0");
    assert_eq!(fields[2].name, "other");
    assert_eq!(fields[3].name, "FooBar_1");
}

#[test]
fn names_of_generated_identifiers() {
    assert_eq!(fix_name("type"), "ty");
    assert_eq!(fix_name("3d"), "field3d");
    assert_eq!(fix_name("name"), "name");
    assert_eq!(slug("EquipParamWeapon_ST"), "equipparamweaponst");
    assert_eq!(slug("AI-Param 2"), "aiparam");
    assert_eq!(snake_case("NPCParam"), "n_pcparam");
    assert_eq!(snake_case("a__b"), "a_b");
    assert_eq!(snake_case(""), "");
    assert_eq!(strip_st("EquipParamWeapon_ST"), "EquipParamWeapon");
    assert_eq!(strip_st("_ST_ST_S"), "_S");
}

#[test]
fn counts_parse_like_usize() {
    assert_eq!(parse_count("16"), Ok(16));
    assert_eq!(parse_count("+7"), Ok(7));
    assert_eq!(parse_count(""), Err("cannot parse integer from empty string".to_string()));
    assert_eq!(parse_count("1x"), Err("invalid digit found in string".to_string()));
    assert_eq!(parse_count("+"), Err("invalid digit found in string".to_string()));
}

#[test]
fn entries_are_planned() {
    assert!(matches!(plan_entry(Some("txt"), Some("Foo_ST")), EntryPlan::Skip));
    assert!(matches!(plan_entry(None, Some("Foo_ST")), EntryPlan::Skip));
    assert!(matches!(plan_entry(Some("xml"), Some("DefaultKeyAssign")), EntryPlan::Skip));
    match plan_entry(Some("xml"), None) {
        EntryPlan::Fail(m) => assert_eq!(m, "Invalid XML filename"),
        other => panic!("unexpected {other:?}"),
    }
    match plan_entry(Some("xml"), Some("EquipParamWeapon_ST")) {
        EntryPlan::Parse { key, name } => {
            assert_eq!(key, "equipparamweapon");
            assert_eq!(name, "EquipParamWeapon");
        },
        other => panic!("unexpected {other:?}"),
    }
}

#[test]
fn layouts_render_in_key_order() {
    let mut layouts = ParamLayouts::new();
    let xml_b = "<PARAMDEF><Fields><Field Def=\"u8 flagA:1\" /><Field Def=\"u8 flagB:1\" />\
                 <Field Def=\"u8 flagC:1\" /><Field Def=\"u8 flagD:1\" /><Field Def=\"u8 flagE:1\" />\
                 <Field Def=\"u8 flagF:1\" /><Field Def=\"u8 flagG:1\" /><Field Def=\"u8 flagH:1\" />\
                 <Field Def=\"s32 type\" /></Fields></PARAMDEF>";
    let xml_a = "<PARAMDEF><Fields><Field Def=\"f32 2Speed\" /></Fields></PARAMDEF>";
    layouts.add_definition("b".to_string(), "Bee".to_string(), "b.xml", Ok(xml_b.to_string())).unwrap();
    layouts.add_definition("a".to_string(), "Ay".to_string(), "a.xml", Ok(xml_a.to_string())).unwrap();
    assert_eq!(layouts.len(), 2);
    assert_eq!(layouts.get(0).name, "Ay");
    let source = layouts.render("HEAD\n", "defs").unwrap();
    let expected = "HEAD\n\
        \x20       (\"Ay\".to_string(), unsafe { get_lambda::<Ay>() }),\n\
        \x20       (\"Bee\".to_string(), unsafe { get_lambda::<Bee>() }),\n\
        \x20   ].into_iter().collect()\n});\n\
        #[derive(ParamStruct, Debug)]\n#[repr(C)]\npub struct Ay {\n\
        \x20   pub field2_speed: f32,\n}\n\
        \n#[derive(ParamStruct, Debug)]\n#[repr(C)]\npub struct Bee {\n\
        \x20   #[bitflag(flagA, 0)]\n    #[bitflag(flagB, 1)]\n    #[bitflag(flagC, 2)]\n\
        \x20   #[bitflag(flagD, 3)]\n    #[bitflag(flagE, 4)]\n    #[bitflag(flagF, 5)]\n\
        \x20   #[bitflag(flagG, 6)]\n    #[bitflag(flagH, 7)]\n\
        \x20   pub bitfield0: u8,\n    pub ty: i32,\n}\n";
    assert_eq!(source, expected);
}

#[test]
fn layouts_keep_the_last_of_a_key_and_report_errors() {
    let mut layouts = ParamLayouts::new();
    assert_eq!(layouts.render("", "defs").unwrap_err(), "No parameter definitions in defs");
    let xml = "<PARAMDEF><Fields><Field Def=\"u8 a\" /></Fields></PARAMDEF>".to_string();
    layouts.add_definition("k".to_string(), "First".to_string(), "1.xml", Ok(xml.clone())).unwrap();
    layouts.add_definition("k".to_string(), "Second".to_string(), "2.xml", Ok(xml)).unwrap();
    assert_eq!(layouts.len(), 1);
    assert_eq!(layouts.get(0).name, "Second");
    assert_eq!(
        layouts
            .add_definition("z".to_string(), "Z".to_string(), "z.xml", Err("denied".to_string()))
            .unwrap_err(),
        "Parsing z.xml: denied"
    );
    let bad_field = "<PARAMDEF><Fields><Field Def=\"u8\" /></Fields></PARAMDEF>".to_string();
    let err = layouts.add_definition("z".to_string(), "Z".to_string(), "z.xml", Ok(bad_field.clone())).unwrap_err();
    let cause = parse_layout(&bad_field).unwrap_err();
    assert_eq!(err, format!("Parsing z.xml: {cause}"));
    let err = layouts
        .add_definition("z".to_string(), "Z".to_string(), "z.xml", Ok("<a><b></a>".to_string()))
        .unwrap_err();
    assert!(err.starts_with("Parsing z.xml: ") && err.len() > "Parsing z.xml: ".len());
    assert_eq!(layouts.len(), 1);
}

fn start(name: &str, content: &str) -> XmlEvent {
    XmlEvent::Start { name: name.to_string(), content: content.to_string() }
}

#[test]
fn field_tag_not_beginning_with_its_name_is_refused() {
    let good = vec![
        start("PARAMDEF", "PARAMDEF"),
        start("Fields", "Fields"),
        XmlEvent::Empty { name: "Field".to_string(), content: "Field Def=\"u8 a\"".to_string() },
        XmlEvent::End,
        XmlEvent::End,
    ];
    let fields = layout_from_events(&good, None).unwrap();
    assert_eq!(fields.len(), 1);
    assert_eq!(fields[0].name, "a");
    for content in ["abcdé='1'", "F", "Fiéld Def=\"u8 a\""] {
        let events = vec![
            start("PARAMDEF", "PARAMDEF"),
            start("Fields", "Fields"),
            XmlEvent::Empty { name: "Field".to_string(), content: content.to_string() },
            XmlEvent::End,
            XmlEvent::End,
        ];
        assert_eq!(layout_from_events(&events, None).unwrap_err(), "Malformed Field element");
    }
}

#[test]
fn bitfields_are_numbered_and_hold_their_width() -> Result<(), String> {
    let mut xml = String::from("<PARAMDEF><Fields><Field Def=\"s32 first\" />");
    for index in 0..16 {
        xml.push_str(&format!("<Field Def=\"u16 wide{index}:1\" />"));
    }
    xml.push_str("<Field Def=\"u8 middle\" />");
    for index in 0..8 {
        xml.push_str(&format!("<Field Def=\"u8 narrow{index}:1\" />"));
    }
    xml.push_str("</Fields></PARAMDEF>");
    let fields = parse_layout(&xml)?;
    let names: Vec<&str> = fields.iter().map(|f| f.name.as_str()).collect();
    assert_eq!(names, vec!["first", "bitfield0", "middle", "bitfield1"]);
    assert!(fields.iter().all(|f| f.bitfield_size.is_none()));
    assert_eq!((fields[1].ty.as_str(), fields[1].flags.len()), ("u16", 16));
    assert_eq!((fields[3].ty.as_str(), fields[3].flags.len()), ("u8", 8));
    assert!(fields[1].flags.iter().all(|g| g.bitfield_size == Some(16)));
    Ok(())
}

#[test]
fn snake_case_marks_runs_of_capitals_and_collapses_underscores() {
    assert_eq!(snake_case("HPRecovery"), "h_precovery");
    assert_eq!(snake_case("a__B"), "a_b");
    assert_eq!(snake_case("X"), "x");
    assert_eq!(snake_case(""), "");
}
