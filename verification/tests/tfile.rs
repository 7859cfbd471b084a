use x4_variants::tfile::{get_tfile_value, tfile_lookup, tfile_ware, try_get_tfile_value};

const TFILE: &str = "<?xml version=\"1.0\"?>
<language id=\"44\">
  <page id=\"20101\" title=\"Ships\">
    <t id=\"10101\">Other</t>
    <t id=\"70501\">(Xenon K)</t>
  </page>
  <page id=\"20102\" title=\"More\">
    <t id=\"70501\">(Not this one)</t>
  </page>
</language>";

#[test]
fn get_tfile_value_finds_the_entry_in_its_page() {
    let line = get_tfile_value(&"{20101,70501}".to_string(), TFILE);
    assert_eq!(line, "    <t id=\"70501\">(Xenon K)</t>");
    let line = get_tfile_value(&"{20102,70501}".to_string(), TFILE);
    assert_eq!(line, "    <t id=\"70501\">(Not this one)</t>");
}

#[test]
fn get_tfile_value_is_empty_when_the_page_is_missing() {
    assert_eq!(get_tfile_value(&"{30000,70501}".to_string(), TFILE), "");
}

#[test]
fn try_get_tfile_value_needs_two_numbers() {
    assert_eq!(try_get_tfile_value(&"{20101}".to_string(), TFILE), None);
    assert_eq!(try_get_tfile_value(&"no digits".to_string(), TFILE), None);
    assert_eq!(
        try_get_tfile_value(&"{20101,10101}".to_string(), TFILE),
        Some("    <t id=\"10101\">Other</t>".to_string())
    );
}

#[test]
fn lookup_skips_the_page_line_itself() {
    let tfile = "<page id=\"5\" note=\"7\">\nfoo 7\n";
    assert_eq!(tfile_lookup("5", "7", tfile), "foo 7");
}

#[test]
fn tfile_ware_renumbers_and_renames() {
    let line = "    <t id=\"70501\">(Xenon K)</t>".to_string();
    assert_eq!(
        tfile_ware(1101, line, "70501", "(Xenon K)", "Variant"),
        "    <t id=\"1101\">(Xenon K) Variant</t>"
    );
}
