use x4_variants::names::{
    hangar_macro_name, i_add, macro_base, makeshipstorage, output, rename_hangar, rename_storage,
    rename_text_reference, rename_ware_id, replace_pattern, storage_pattern, storage_variant_name,
    t_reference, variant_macro_name, ware_variant_id,
};

#[test]
fn replace_pattern_replaces_every_occurrence() {
    let text = "<macro name=\"ship_a_macro\"><ref ship_a_macro/>".to_string();
    assert_eq!(
        replace_pattern(&"ship_a_macro".to_string(), &text, "ship_a_v_macro"),
        "<macro name=\"ship_a_v_macro\"><ref ship_a_v_macro/>"
    );
}

#[test]
fn replace_pattern_with_empty_pattern_keeps_text() {
    let text = "abc".to_string();
    assert_eq!(replace_pattern(&"".to_string(), &text, "zzz"), "abc");
}

#[test]
fn replace_pattern_with_absent_pattern_keeps_text() {
    let text = "abc".to_string();
    assert_eq!(replace_pattern(&"xyz".to_string(), &text, "zzz"), "abc");
}

#[test]
fn replace_pattern_by_itself_keeps_text() {
    let text = "abcabca".to_string();
    assert_eq!(replace_pattern(&"ca".to_string(), &text, "ca"), "abcabca");
}

#[test]
fn i_add_formats_an_index_entry() {
    assert_eq!(
        i_add("ship_arg_xl_v_macro".to_string(), "extensions\\mod\\assets".to_string()),
        "<entry name=\"ship_arg_xl_v_macro\" value=\"extensions\\mod\\assets\\ship_arg_xl_v_macro\" />\n"
    );
}

#[test]
fn names_of_a_ship_macro() {
    let file = "ship_arg_xl_destroyer_01_a_macro.xml";
    assert_eq!(macro_base(file), "ship_arg_xl_destroyer_01_a_macro");
    assert_eq!(variant_macro_name(file, "_vx"), "ship_arg_xl_destroyer_01_a_vx_macro");
    assert_eq!(hangar_macro_name(file, "_vx", "size_s"), "shipstorage_arg_xl_destroyer_01_a_vxsize_s_macro");
    assert_eq!(storage_pattern(file), "storage_arg_xl_destroyer_01_a_macro");
    assert_eq!(storage_variant_name(file, "_vx"), "storage_arg_xl_destroyer_01_a_vx_macro");
    assert_eq!(ware_variant_id(file, "_vx"), "ship_arg_xl_destroyer_01_a_vx");
}

#[test]
fn empty_variant_keeps_the_name() {
    let file = "ship_arg_xl_destroyer_01_a_macro.xml";
    assert_eq!(variant_macro_name(file, ""), "ship_arg_xl_destroyer_01_a_macro");
    assert_eq!(output("out/macros/", file, "", &"x".to_string()).path, "out/macros/ship_arg_xl_destroyer_01_a_macro.xml");
}

#[test]
fn t_reference_formats_page_and_number() {
    assert_eq!(t_reference("90210", 101), "{90210,101}");
    assert_eq!(t_reference("", -3), "{,-3}");
}

#[test]
fn output_renames_the_whole_path() {
    let f = output("out_macro/", "ship_a_macro.xml", "_v", &"<macros/>".to_string());
    assert_eq!(f.path, "out_v_macro/ship_a_v_macro.xml");
    assert_eq!(f.contents, "<macros/>");
}

#[test]
fn makeshipstorage_builds_the_dock_macro() {
    let f = makeshipstorage("out/", "storage_arg_xl_a_macro.xml", "_v", "size_m", "4");
    assert_eq!(f.path, "out/shipstorage_arg_xl_a_vsize_m_macro.xml");
    let expected = "<?xml version=\"1.0\" encoding=\"utf-8\"?>
 <!--Exported by: Michael (192.168.3.150) at 09.11.2017_11-30-00-->
 <macros>
   <macro name=\"shipstorage_arg_xl_a_vsize_m_macro\" class=\"dockingbay\">
     <component ref=\"generic_dockingbay\" />
     <properties>
       <identification unique=\"0\" />
       <dock capacity=\"4\" external=\"0\" storage=\"1\" />
       <room walkable=\"0\" />
       <docksize tags=\"size_m\" />
     </properties>
   </macro>
 </macros>";
    assert_eq!(f.contents, expected);
}

#[test]
fn renaming_steps() {
    let m = "<connection macro=\"storage_arg_xl_a_macro\"/><c macro=\"shipstorage_gen_s_01_macro\"/>".to_string();
    let file = "ship_arg_xl_a_macro.xml";
    assert_eq!(
        rename_storage(&m, file, "_v"),
        "<connection macro=\"storage_arg_xl_a_v_macro\"/><c macro=\"shipstorage_gen_s_01_macro\"/>"
    );
    assert_eq!(
        rename_hangar(&m, "shipstorage_gen_s_01_macro", file, "_v", "size_s"),
        "<connection macro=\"storage_arg_xl_a_macro\"/><c macro=\"shipstorage_arg_xl_a_vsize_s_macro\"/>"
    );
    let ident = "<identification name=\"{20101,70501}\"/>".to_string();
    assert_eq!(
        rename_text_reference(&ident, &"{20101,70501}".to_string(), "9000", 101),
        "<identification name=\"{9000,101}\"/>"
    );
    let ware = "<ware id=\"ship_arg_xl_a\"><component ref=\"ship_arg_xl_a_macro\"/>".to_string();
    assert_eq!(
        rename_ware_id(&ware, &"ship_arg_xl_a".to_string(), file, "_v"),
        "<ware id=\"ship_arg_xl_a_v\"><component ref=\"ship_arg_xl_a_v_macro\"/>"
    );
}
