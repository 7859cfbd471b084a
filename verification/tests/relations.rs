use x4_variants::relations::{link_storage, MacroRelations, ShipEntry};

fn entry(cargo: &str, small: i32, medium: i32) -> ShipEntry {
    ShipEntry { cargo: cargo.to_string(), small, medium }
}

#[test]
fn insert_then_get() {
    let mut t = MacroRelations::new();
    assert!(!t.contains_key("ship_a_macro.xml"));
    t.insert("ship_a_macro.xml".to_string(), entry("100", 1, 2));
    t.insert("ship_b_macro.xml".to_string(), entry("200", 0, 0));
    assert!(t.contains_key("ship_a_macro.xml"));
    let e = t.get("ship_a_macro.xml").unwrap();
    assert_eq!((e.cargo.as_str(), e.small, e.medium), ("100", 1, 2));
    t.insert("ship_a_macro.xml".to_string(), entry("300", 3, 4));
    let e = t.get("ship_a_macro.xml").unwrap();
    assert_eq!((e.cargo.as_str(), e.small, e.medium), ("300", 3, 4));
    assert_eq!(t.get("ship_b_macro.xml").unwrap().cargo, "200");
    assert!(t.get("ship_c_macro.xml").is_none());
}

#[test]
fn a_ship_macro_is_not_linked() {
    let mut t = MacroRelations::new();
    t.insert("ship_a_macro.xml".to_string(), entry("100", 1, 2));
    let m = "<cargo max=\"5\" tags=\"container\"/>".to_string();
    let l = link_storage(&t, "ship_a_macro.xml", &m, "_v", "out/").unwrap();
    assert_eq!(l.macro_string, m);
    assert!(l.files.is_empty());
}

#[test]
fn a_storage_macro_takes_its_ships_values() {
    let mut t = MacroRelations::new();
    t.insert("ship_a_macro.xml".to_string(), entry("1234", 6, 2));
    t.insert("storage_a_macro.xml".to_string(), entry("0", 0, 0));
    let m = "<macro name=\"storage_a_macro\">\n<cargo max=\"5\" tags=\"container\"/>".to_string();
    let l = link_storage(&t, "storage_a_macro.xml", &m, "_v", "out/").unwrap();
    assert_eq!(l.macro_string, "<macro name=\"storage_a_v_macro\">\n<cargo max=\"1234\" tags=\"container\"/>");
    assert_eq!(l.files.len(), 2);
    assert_eq!(l.files[0].path, "out/shipstorage_a_vsize_m_macro.xml");
    assert!(l.files[0].contents.contains("<dock capacity=\"2\""));
    assert_eq!(l.files[1].path, "out/shipstorage_a_vsize_s_macro.xml");
    assert!(l.files[1].contents.contains("<dock capacity=\"6\""));
}
