//! Names and small XML snippets derived from a macro's file name and the variant settings.

use vstd::prelude::*;
use crate::text::{concat2, concat3, i32_to_string, lemma_absent_by_first_char, lemma_no_straddle_by_first_char,
    lemma_replace_absent, lemma_replace_concat, lemma_replace_self, lemma_replace_whole, replace_all,
    spec_contains, spec_decimal, spec_replace};

verus! {

/// A file to be written: where, and what it holds.
pub struct OutputFile {
    pub path: String,
    pub contents: String,
}

impl View for OutputFile {
    type V = (Seq<char>, Seq<char>);

    open spec fn view(&self) -> (Seq<char>, Seq<char>) {
        (self.path@, self.contents@)
    }
}

/// What `replace_pattern` returns: `text` with every match of a nonempty `pattern` replaced
/// by `rep`; `text` itself when `pattern` is empty.
pub open spec fn spec_replace_pattern(pattern: Seq<char>, text: Seq<char>, rep: Seq<char>) -> Seq<char> {
    if pattern.len() == 0 {
        text
    } else {
        spec_replace(text, pattern, rep)
    }
}

/// Replaces every occurrence of `pattern` in `text` by `replace`; an empty pattern leaves the
/// text as it is.
pub fn replace_pattern(pattern: &String, text: &String, replace: &str) -> (r: String)
    ensures
        r@ == spec_replace_pattern(pattern@, text@, replace@),
{
    if pattern.as_str().is_empty() {
        text.clone()
    } else {
        replace_all(text.as_str(), pattern.as_str(), replace)
    }
}

/// The index entry for a macro: `<entry name="M" value="F\M" />` and a newline.
pub open spec fn spec_i_add(macroname: Seq<char>, folderpath: Seq<char>) -> Seq<char> {
    "<entry name=\""@ + macroname + "\" value=\""@ + folderpath + "\\"@ + macroname + "\" />\n"@
}

/// The line of the index file that points the game at a new macro in `folderpath`.
pub fn i_add(macroname: String, folderpath: String) -> (r: String)
    ensures
        r@ == spec_i_add(macroname@, folderpath@),
{
    let mut r = String::new();
    r.append("<entry name=\"");
    r.append(macroname.as_str());
    r.append("\" value=\"");
    r.append(folderpath.as_str());
    r.append("\\");
    r.append(macroname.as_str());
    r.append("\" />\n");
    r
}

/// A macro's file name without its `.xml` extension.
pub open spec fn spec_macro_base(file_name: Seq<char>) -> Seq<char> {
    spec_replace(file_name, ".xml"@, ""@)
}

/// The macro's name in the variant: `_macro` becomes the variant name followed by `_macro`.
pub open spec fn spec_variant_macro_name(file_name: Seq<char>, variant: Seq<char>) -> Seq<char> {
    spec_replace(spec_macro_base(file_name), "_macro"@, variant + "_macro"@)
}

/// The name of a generated dock-area macro of the given size tag (`size_s` or `size_m`).
pub open spec fn spec_hangar_macro_name(file_name: Seq<char>, variant: Seq<char>, size: Seq<char>) -> Seq<char> {
    spec_replace(
        spec_replace(spec_macro_base(file_name), "_macro"@, variant + size + "_macro"@),
        "ship"@,
        "shipstorage"@,
    )
}

/// The storage macro name that a ship macro refers to.
pub open spec fn spec_storage_pattern(file_name: Seq<char>) -> Seq<char> {
    spec_replace(spec_macro_base(file_name), "ship"@, "storage"@)
}

/// The variant's name for the storage macro that a ship macro refers to.
pub open spec fn spec_storage_variant_name(file_name: Seq<char>, variant: Seq<char>) -> Seq<char> {
    spec_replace(spec_variant_macro_name(file_name, variant), "ship"@, "storage"@)
}

/// The variant's ware id: `_macro` becomes the variant name.
pub open spec fn spec_ware_variant_id(file_name: Seq<char>, variant: Seq<char>) -> Seq<char> {
    spec_replace(spec_macro_base(file_name), "_macro"@, variant)
}

/// The reference `{page,number}` to an entry of a text file.
pub open spec fn spec_t_reference(pageid: Seq<char>, num: int) -> Seq<char> {
    "{"@ + pageid + ","@ + spec_decimal(num) + "}"@
}

/// A macro's file name without its `.xml` extension.
pub fn macro_base(file_name: &str) -> (r: String)
    ensures
        r@ == spec_macro_base(file_name@),
{
    replace_all(file_name, ".xml", "")
}

/// The macro's name in the variant.
pub fn variant_macro_name(file_name: &str, variant: &str) -> (r: String)
    ensures
        r@ == spec_variant_macro_name(file_name@, variant@),
{
    let base = macro_base(file_name);
    let suffix = concat2(variant, "_macro");
    replace_all(base.as_str(), "_macro", suffix.as_str())
}

/// The name of the generated dock-area macro of size tag `size`.
pub fn hangar_macro_name(file_name: &str, variant: &str, size: &str) -> (r: String)
    ensures
        r@ == spec_hangar_macro_name(file_name@, variant@, size@),
{
    let base = macro_base(file_name);
    let suffix = concat3(variant, size, "_macro");
    let renamed = replace_all(base.as_str(), "_macro", suffix.as_str());
    replace_all(renamed.as_str(), "ship", "shipstorage")
}

/// The storage macro name that a ship macro refers to.
pub fn storage_pattern(file_name: &str) -> (r: String)
    ensures
        r@ == spec_storage_pattern(file_name@),
{
    let base = macro_base(file_name);
    replace_all(base.as_str(), "ship", "storage")
}

/// The variant's name for the storage macro that a ship macro refers to.
pub fn storage_variant_name(file_name: &str, variant: &str) -> (r: String)
    ensures
        r@ == spec_storage_variant_name(file_name@, variant@),
{
    let name = variant_macro_name(file_name, variant);
    replace_all(name.as_str(), "ship", "storage")
}

/// The variant's ware id.
pub fn ware_variant_id(file_name: &str, variant: &str) -> (r: String)
    ensures
        r@ == spec_ware_variant_id(file_name@, variant@),
{
    let base = macro_base(file_name);
    replace_all(base.as_str(), "_macro", variant)
}

/// The reference `{pageid,num}` to an entry of a text file.
pub fn t_reference(pageid: &str, num: i32) -> (r: String)
    ensures
        r@ == spec_t_reference(pageid@, num as int),
{
    let digits = i32_to_string(num);
    let mut r = String::new();
    r.append("{");
    r.append(pageid);
    r.append(",");
    r.append(digits.as_str());
    r.append("}");
    r
}

/// Where a processed macro is written: the directory and the file name, with `_macro`
/// turned into the variant name followed by `_macro` anywhere in that path.
pub open spec fn spec_output_path(dir: Seq<char>, file_name: Seq<char>, variant: Seq<char>) -> Seq<char> {
    spec_replace(dir + file_name, "_macro"@, variant + "_macro"@)
}

/// The file that holds a processed macro.
pub fn output(dir: &str, file_name: &str, variant: &str, macro_string: &String) -> (r: OutputFile)
    ensures
        r.path@ == spec_output_path(dir@, file_name@, variant@),
        r.contents@ == macro_string@,
{
    let full = concat2(dir, file_name);
    let suffix = concat2(variant, "_macro");
    OutputFile { path: replace_all(full.as_str(), "_macro", suffix.as_str()), contents: macro_string.clone() }
}

/// The name given inside a generated dock-area macro.
pub open spec fn spec_shipstorage_name(macroname: Seq<char>, variant: Seq<char>, size: Seq<char>) -> Seq<char> {
    spec_replace(
        spec_replace(spec_macro_base(macroname), "_macro"@, variant + size + "_macro"@),
        "storage"@,
        "shipstorage"@,
    )
}

/// The file name of a generated dock-area macro.
pub open spec fn spec_shipstorage_file(m_out_path: Seq<char>, macroname: Seq<char>, variant: Seq<char>, size: Seq<char>) -> Seq<char> {
    m_out_path + spec_replace(spec_replace(macroname, "storage"@, "shipstorage"@), "_macro"@, variant + size + "_macro"@)
}

/// The text of a generated dock-area macro holding `count` ships of size tag `size`.
pub open spec fn spec_shipstorage_xml(name: Seq<char>, count: Seq<char>, size: Seq<char>) -> Seq<char> {
    "<?xml version=\"1.0\" encoding=\"utf-8\"?>\n <!--Exported by: Michael (192.168.3.150) at 09.11.2017_11-30-00-->\n <macros>\n   <macro name=\""@
        + name
        + "\" class=\"dockingbay\">\n     <component ref=\"generic_dockingbay\" />\n     <properties>\n       <identification unique=\"0\" />\n       <dock capacity=\""@
        + count
        + "\" external=\"0\" storage=\"1\" />\n       <room walkable=\"0\" />\n       <docksize tags=\""@
        + size
        + "\" />\n     </properties>\n   </macro>\n </macros>"@
}

/// The dock-area macro generated for the storage macro `macroname`: its file and its text.
pub fn makeshipstorage(m_out_path: &str, macroname: &str, variant: &str, size: &str, count: &str) -> (r: OutputFile)
    ensures
        r.path@ == spec_shipstorage_file(m_out_path@, macroname@, variant@, size@),
        r.contents@ == spec_shipstorage_xml(spec_shipstorage_name(macroname@, variant@, size@), count@, size@),
{
    let base = macro_base(macroname);
    let suffix = concat3(variant, size, "_macro");
    let sized = replace_all(base.as_str(), "_macro", suffix.as_str());
    let name = replace_all(sized.as_str(), "storage", "shipstorage");
    let mut xml = String::new();
    xml.append("<?xml version=\"1.0\" encoding=\"utf-8\"?>\n <!--Exported by: Michael (192.168.3.150) at 09.11.2017_11-30-00-->\n <macros>\n   <macro name=\"");
    xml.append(name.as_str());
    xml.append("\" class=\"dockingbay\">\n     <component ref=\"generic_dockingbay\" />\n     <properties>\n       <identification unique=\"0\" />\n       <dock capacity=\"");
    xml.append(count);
    xml.append("\" external=\"0\" storage=\"1\" />\n       <room walkable=\"0\" />\n       <docksize tags=\"");
    xml.append(size);
    xml.append("\" />\n     </properties>\n   </macro>\n </macros>");
    let renamed = replace_all(macroname, "storage", "shipstorage");
    let file = replace_all(renamed.as_str(), "_macro", suffix.as_str());
    OutputFile { path: concat2(m_out_path, file.as_str()), contents: xml }
}


/// The macro with the storage macro name it refers to replaced by the variant's.
pub fn rename_storage(macro_string: &String, file_name: &str, variant: &str) -> (r: String)
    ensures
        r@ == spec_replace_pattern(spec_storage_pattern(file_name@), macro_string@, spec_storage_variant_name(file_name@, variant@)),
{
    let pattern = storage_pattern(file_name);
    let renamed = storage_variant_name(file_name, variant);
    replace_pattern(&pattern, macro_string, renamed.as_str())
}

/// The macro with the generic dock-area macro `placeholder` replaced by the generated one
/// of size tag `size`.
pub fn rename_hangar(macro_string: &str, placeholder: &str, file_name: &str, variant: &str, size: &str) -> (r: String)
    ensures
        r@ == spec_replace(macro_string@, placeholder@, spec_hangar_macro_name(file_name@, variant@, size@)),
{
    let name = hangar_macro_name(file_name, variant, size);
    replace_all(macro_string, placeholder, name.as_str())
}

/// The text with every occurrence of the text reference `pattern` replaced by the
/// reference `{pageid,tnum}`; an empty pattern changes nothing.
pub fn rename_text_reference(text: &String, pattern: &String, pageid: &str, tnum: i32) -> (r: String)
    ensures
        r@ == spec_replace_pattern(pattern@, text@, spec_t_reference(pageid@, tnum as int)),
{
    let reference = t_reference(pageid, tnum);
    replace_pattern(pattern, text, reference.as_str())
}

/// The ware with its id `id` replaced by the variant's ware id; an empty id changes nothing.
pub fn rename_ware_id(ware: &String, id: &String, file_name: &str, variant: &str) -> (r: String)
    ensures
        r@ == spec_replace_pattern(id@, ware@, spec_ware_variant_id(file_name@, variant@)),
{
    let new_id = ware_variant_id(file_name, variant);
    replace_pattern(id, ware, new_id.as_str())
}

/// A pattern that does not occur in the text leaves the text as it is.
pub proof fn law_replace_pattern_absent(pattern: Seq<char>, text: Seq<char>, rep: Seq<char>)
    requires
        !spec_contains(text, pattern),
    ensures
        spec_replace_pattern(pattern, text, rep) == text,
{
    if pattern.len() > 0 {
        lemma_replace_absent(text, pattern, rep);
    }
}

/// Replacing a pattern by itself leaves the text as it is.
pub proof fn law_replace_pattern_self(pattern: Seq<char>, text: Seq<char>)
    ensures
        spec_replace_pattern(pattern, text, pattern) == text,
{
    lemma_replace_self(text, pattern);
}

/// The variant's ware id is the variant macro name without its `_macro` ending: giving the
/// ware id `variant + "_macro"` yields the variant macro name.
pub proof fn law_ware_id_matches_macro_name(file_name: Seq<char>, variant: Seq<char>)
    ensures
        spec_ware_variant_id(file_name, variant + "_macro"@) == spec_variant_macro_name(file_name, variant),
{
}

/// A dock-area macro is named like the ship's variant macro with the size tag appended to
/// the variant name, and `ship` turned into `shipstorage`.
pub proof fn law_hangar_name_carries_size(file_name: Seq<char>, variant: Seq<char>, size: Seq<char>)
    ensures
        spec_hangar_macro_name(file_name, variant, size)
            == spec_replace(spec_variant_macro_name(file_name, variant + size), "ship"@, "shipstorage"@),
{
    assert(variant + size + "_macro"@ =~= (variant + size) + "_macro"@);
}

/// `prefix + rest` with `pat` replaced, where `prefix` is the whole pattern and cannot start
/// another match before its end, and `rest` does not hold the pattern.
proof fn lemma_replace_leading(prefix: Seq<char>, rest: Seq<char>, r: Seq<char>)
    requires
        prefix.len() > 0,
        forall|i: int| 0 < i < prefix.len() ==> #[trigger] prefix[i] != prefix[0],
        !spec_contains(rest, prefix),
    ensures
        spec_replace(prefix + rest, prefix, r) == r + rest,
{
    lemma_no_straddle_by_first_char(prefix, rest, prefix);
    lemma_replace_concat(prefix, rest, prefix, r);
    lemma_replace_whole(prefix, r);
    lemma_replace_absent(rest, prefix, r);
}

/// `prefix + rest` with `pat` replaced, where the first character of `pat` occurs in neither
/// `prefix` nor `rest`'s part that could start a straddling match.
proof fn lemma_replace_after_plain_prefix(prefix: Seq<char>, rest: Seq<char>, pat: Seq<char>, r: Seq<char>)
    requires
        pat.len() > 0,
        forall|i: int| 0 <= i < prefix.len() ==> prefix[i] != pat[0],
    ensures
        spec_replace(prefix + rest, pat, r) == prefix + spec_replace(rest, pat, r),
{
    lemma_no_straddle_by_first_char(prefix, rest, pat);
    lemma_replace_concat(prefix, rest, pat, r);
    lemma_absent_by_first_char(prefix, pat);
    lemma_replace_absent(prefix, pat, r);
}

/// A ship refers to its dock areas by the names that the storage step gives the generated
/// dock-area macros: for the ship macro `ship` + y + `.xml` and its storage macro
/// `storage` + y + `.xml`, the ship's dock-area name of a size equals the name inside the
/// dock-area macro generated for the storage macro, and both are `shipstorage` followed by
/// y with `_macro` renamed for the variant and size.
pub proof fn law_hangar_names_match_generated_docks(y: Seq<char>, variant: Seq<char>, size: Seq<char>)
    requires
        forall|i: int| 0 <= i < y.len() ==> y[i] != '.',
        !spec_contains(spec_replace(y, "_macro"@, variant + size + "_macro"@), "ship"@),
        !spec_contains(spec_replace(y, "_macro"@, variant + size + "_macro"@), "storage"@),
    ensures
        spec_hangar_macro_name("ship"@ + y + ".xml"@, variant, size)
            == spec_shipstorage_name("storage"@ + y + ".xml"@, variant, size),
        spec_hangar_macro_name("ship"@ + y + ".xml"@, variant, size)
            == "shipstorage"@ + spec_replace(y, "_macro"@, variant + size + "_macro"@),
{
    reveal_strlit("ship");
    reveal_strlit("storage");
    reveal_strlit(".xml");
    reveal_strlit("_macro");
    reveal_strlit("");
    let ship = "ship"@;
    let storage = "storage"@;
    let xml = ".xml"@;
    let suffix = variant + size + "_macro"@;
    let w = spec_replace(y, "_macro"@, suffix);
    // the extension goes
    assert forall|i: int| 0 <= i < (ship + y).len() implies (ship + y)[i] != xml[0] by {
        if i >= ship.len() {
            assert((ship + y)[i] == y[i - ship.len()]);
        }
    }
    assert forall|i: int| 0 <= i < (storage + y).len() implies (storage + y)[i] != xml[0] by {
        if i >= storage.len() {
            assert((storage + y)[i] == y[i - storage.len()]);
        }
    }
    lemma_no_straddle_by_first_char(ship + y, xml, xml);
    lemma_replace_concat(ship + y, xml, xml, ""@);
    lemma_absent_by_first_char(ship + y, xml);
    lemma_replace_absent(ship + y, xml, ""@);
    lemma_replace_whole(xml, ""@);
    assert(ship + y + xml =~= (ship + y) + xml);
    assert((ship + y) + ""@ =~= ship + y);
    assert(spec_macro_base(ship + y + xml) == ship + y);
    lemma_no_straddle_by_first_char(storage + y, xml, xml);
    lemma_replace_concat(storage + y, xml, xml, ""@);
    lemma_absent_by_first_char(storage + y, xml);
    lemma_replace_absent(storage + y, xml, ""@);
    assert(storage + y + xml =~= (storage + y) + xml);
    assert((storage + y) + ""@ =~= storage + y);
    assert(spec_macro_base(storage + y + xml) == storage + y);
    // `_macro` is renamed in y only
    lemma_replace_after_plain_prefix(ship, y, "_macro"@, suffix);
    lemma_replace_after_plain_prefix(storage, y, "_macro"@, suffix);
    // the leading `ship` / `storage` becomes `shipstorage`
    lemma_replace_leading(ship, w, "shipstorage"@);
    lemma_replace_leading(storage, w, "shipstorage"@);
}

/// With an empty variant name a macro keeps its name (without the `.xml` extension).
pub proof fn law_variant_name_without_variant(file_name: Seq<char>)
    ensures
        spec_variant_macro_name(file_name, ""@) == spec_macro_base(file_name),
{
    reveal_strlit("");
    assert(""@ + "_macro"@ =~= "_macro"@);
    lemma_replace_self(spec_macro_base(file_name), "_macro"@);
}

/// With an empty variant name a processed macro is written under its own name.
pub proof fn law_output_path_without_variant(dir: Seq<char>, file_name: Seq<char>)
    ensures
        spec_output_path(dir, file_name, ""@) == dir + file_name,
{
    reveal_strlit("");
    assert(""@ + "_macro"@ =~= "_macro"@);
    lemma_replace_self(dir + file_name, "_macro"@);
}

} // verus!
