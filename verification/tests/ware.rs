use x4_variants::ware::{
    apply_price, ownership, price_tag, reassign_owner, rewrite_owners, ware_blocks, Factions,
};

const WARES: &str = "<wares>
  <ware id=\"ship_arg_xl_a\" name=\"{20101,1}\">
    <price min=\"1\" average=\"2\" max=\"3\" />
    <component ref=\"ship_arg_xl_a_macro\" />
    <owner faction=\"argon\" />
  </ware>
  <ware id=\"ship_tel_xl_b\">
    <component ref=\"ship_tel_xl_b_macro\" />
  </ware>
</wares>";

#[test]
fn ware_blocks_keeps_the_macros_entries() {
    let blocks = ware_blocks(WARES, "ship_arg_xl_a_macro.xml");
    assert_eq!(blocks.len(), 1);
    assert!(blocks[0].starts_with("<wares>\n  <ware id=\"ship_arg_xl_a\""));
    assert!(blocks[0].ends_with("<owner faction=\"argon\" />\n  \n</ware>"));
    assert_eq!(ware_blocks(WARES, "ship_none_macro.xml").len(), 0);
}

#[test]
fn price_tags() {
    assert_eq!(price_tag(12500, 50000, 125000), "<price min=\"12500\" average=\"50000\" max=\"125000\" />");
    assert_eq!(
        apply_price("<ware>\n<price min=\"1\" average=\"2\" max=\"3\" />\n</ware>", "<price min=\"4\" />"),
        Ok("<ware>\n<price min=\"4\" />\n</ware>".to_string())
    );
}

fn strings(v: &[&str]) -> Vec<String> {
    v.iter().map(|s| s.to_string()).collect()
}

#[test]
fn ownership_lists_each_faction_once() {
    assert_eq!(
        ownership(&strings(&["argon", "antigone", "argon"])),
        "\n    <owner faction=\"argon\"/>\n    <owner faction=\"antigone\"/>"
    );
    assert_eq!(ownership(&strings(&[])), "");
    assert_eq!(
        ownership(&strings(&["argon", "argon"])),
        ownership(&strings(&["argon"]))
    );
}

#[test]
fn rewrite_owners_replaces_the_owner_tag() {
    let ware = "<ware>\n    <owner faction=\"argon\" />\n</ware>";
    assert_eq!(
        rewrite_owners(ware, &strings(&["hatikvah"])),
        Ok("<ware>\n    \n    <owner faction=\"hatikvah\"/>\n</ware>".to_string())
    );
    assert_eq!(rewrite_owners(ware, &strings(&[])), Ok(ware.to_string()));
}

fn factions() -> Factions {
    Factions {
        argon: strings(&["argon", "antigone"]),
        teladi: strings(&["teladi"]),
        paranid: vec![],
        xenon: strings(&["xenon"]),
        khaak: vec![],
        pirates: vec![],
    }
}

#[test]
fn reassign_owner_draws_from_the_owners_race() {
    let ware = "<ware>\n    <owner faction=\"argon\" />\n</ware>".to_string();
    for _ in 0..50 {
        let out = reassign_owner(ware.clone(), &factions(), &"argon".to_string(), 3).unwrap();
        assert!(out.contains("<owner faction=\"argon\"/>"));
        assert!(out.contains("<owner faction=\"antigone\"/>"));
        assert!(!out.contains("<owner faction=\"argon\" />"));
        assert!(!out.contains("teladi"));
    }
}

#[test]
fn reassign_owner_leaves_unlisted_factions_alone() {
    let ware = "<ware>\n    <owner faction=\"ministry\" />\n</ware>".to_string();
    assert_eq!(reassign_owner(ware.clone(), &factions(), &"ministry".to_string(), 3), Ok(ware.clone()));
    assert_eq!(reassign_owner(ware.clone(), &factions(), &"".to_string(), 3), Ok(ware));
}

#[test]
fn reassign_owner_draws_as_many_owners_as_asked() {
    let ware = "<ware>\n    <owner faction=\"argon\" />\n</ware>".to_string();
    for _ in 0..50 {
        let out = reassign_owner(ware.clone(), &factions(), &"antigone".to_string(), 1).unwrap();
        assert_eq!(out.matches("<owner faction=").count(), 1);
        assert!(out.contains("<owner faction=\"argon\"/>") || out.contains("<owner faction=\"antigone\"/>"));
    }
}
