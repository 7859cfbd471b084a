//! The table that links each ship macro to the values its storage macro needs.

use vstd::prelude::*;
use crate::names::{makeshipstorage, rename_storage, spec_replace_pattern, spec_shipstorage_file,
    spec_shipstorage_name, spec_shipstorage_xml, spec_storage_pattern, spec_storage_variant_name,
    OutputFile};
use crate::pattern::{Pattern, PatternError, regex_accepts, regex_replace_first};
use crate::text::{concat3, i32_to_string, replace_all, spec_decimal, spec_replace, string_views};

verus! {

/// What a ship macro passes on to its storage macro: the rolled cargo (as written) and the
/// capacities of its small and medium dock areas.
pub struct ShipEntry {
    pub cargo: String,
    pub small: i32,
    pub medium: i32,
}

impl View for ShipEntry {
    type V = (Seq<char>, i32, i32);

    open spec fn view(&self) -> (Seq<char>, i32, i32) {
        (self.cargo@, self.small, self.medium)
    }
}

/// The views of a sequence of entries.
pub open spec fn entry_views(v: Seq<ShipEntry>) -> Seq<(Seq<char>, i32, i32)> {
    v.map_values(|e: ShipEntry| e@)
}

/// The map that pairs `names[i]` with `entries[i]`, later pairs overriding earlier ones.
pub open spec fn pairs_to_map(names: Seq<Seq<char>>, entries: Seq<(Seq<char>, i32, i32)>) -> Map<Seq<char>, (Seq<char>, i32, i32)>
    decreases names.len(),
{
    if names.len() == 0 || entries.len() == 0 {
        Map::empty()
    } else {
        pairs_to_map(names.drop_last(), entries.drop_last()).insert(names.last(), entries.last())
    }
}

proof fn lemma_pairs_dom(names: Seq<Seq<char>>, entries: Seq<(Seq<char>, i32, i32)>, k: Seq<char>)
    requires
        names.len() == entries.len(),
    ensures
        pairs_to_map(names, entries).contains_key(k) <==> names.contains(k),
    decreases names.len(),
{
    if names.len() > 0 {
        lemma_pairs_dom(names.drop_last(), entries.drop_last(), k);
        if names.drop_last().contains(k) {
            let j = choose|j: int| 0 <= j < names.drop_last().len() && #[trigger] names.drop_last()[j] == k;
            assert(names[j] == k);
        }
        if names.contains(k) {
            let j = choose|j: int| 0 <= j < names.len() && #[trigger] names[j] == k;
            if j < names.len() - 1 {
                assert(names.drop_last()[j] == k);
            }
        }
    }
}

proof fn lemma_pairs_at(names: Seq<Seq<char>>, entries: Seq<(Seq<char>, i32, i32)>, i: int)
    requires
        names.len() == entries.len(),
        names.no_duplicates(),
        0 <= i < names.len(),
    ensures
        pairs_to_map(names, entries).contains_key(names[i]),
        pairs_to_map(names, entries)[names[i]] == entries[i],
    decreases names.len(),
{
    if i < names.len() - 1 {
        assert(names.drop_last().no_duplicates());
        lemma_pairs_at(names.drop_last(), entries.drop_last(), i);
        assert(names[i] != names.last());
    }
}

proof fn lemma_pairs_update(names: Seq<Seq<char>>, entries: Seq<(Seq<char>, i32, i32)>, i: int, e: (Seq<char>, i32, i32))
    requires
        names.len() == entries.len(),
        names.no_duplicates(),
        0 <= i < names.len(),
    ensures
        pairs_to_map(names, entries.update(i, e)) == pairs_to_map(names, entries).insert(names[i], e),
    decreases names.len(),
{
    let updated = entries.update(i, e);
    if i == names.len() - 1 {
        assert(updated.drop_last() =~= entries.drop_last());
        assert(pairs_to_map(names, updated) =~= pairs_to_map(names, entries).insert(names[i], e));
    } else {
        assert(names.drop_last().no_duplicates());
        assert(updated.drop_last() =~= entries.drop_last().update(i, e));
        lemma_pairs_update(names.drop_last(), entries.drop_last(), i, e);
        assert(names[i] != names.last());
        assert(pairs_to_map(names, updated) =~= pairs_to_map(names, entries).insert(names[i], e));
    }
}

/// For each ship macro processed so far (by file name), what its storage macro needs.
pub struct MacroRelations {
    names: Vec<String>,
    entries: Vec<ShipEntry>,
}

impl View for MacroRelations {
    type V = Map<Seq<char>, (Seq<char>, i32, i32)>;

    closed spec fn view(&self) -> Map<Seq<char>, (Seq<char>, i32, i32)> {
        pairs_to_map(string_views(self.names@), entry_views(self.entries@))
    }
}

impl MacroRelations {
    /// Every name is in the table once, next to its entry.
    pub closed spec fn wf(&self) -> bool {
        &&& self.names.len() == self.entries.len()
        &&& string_views(self.names@).no_duplicates()
    }

    /// An empty table.
    pub fn new() -> (r: MacroRelations)
        ensures
            r.wf(),
            r@ == Map::<Seq<char>, (Seq<char>, i32, i32)>::empty(),
    {
        let r = MacroRelations { names: Vec::new(), entries: Vec::new() };
        assert(string_views(r.names@) =~= Seq::<Seq<char>>::empty());
        r
    }

    /// Where `name` stands in the table, if it does.
    fn position(&self, name: &str) -> (r: Option<usize>)
        requires
            self.wf(),
        ensures
            r matches Some(i) ==> i < self.names.len() && self.names@[i as int]@ == name@,
            r is None ==> !string_views(self.names@).contains(name@),
    {
        let ghost ns = string_views(self.names@);
        let key = String::from_str(name);
        let mut i: usize = 0;
        while i < self.names.len()
            invariant
                i <= self.names.len(),
                ns == string_views(self.names@),
                key@ == name@,
                forall|j: int| 0 <= j < i ==> ns[j] != name@,
            decreases self.names.len() - i,
        {
            if self.names[i] == key {
                return Some(i);
            }
            assert(ns[i as int] == self.names@[i as int]@);
            i = i + 1;
        }
        None
    }

    /// Whether the table holds `name`.
    pub fn contains_key(&self, name: &str) -> (r: bool)
        requires
            self.wf(),
        ensures
            r == self@.contains_key(name@),
    {
        proof {
            lemma_pairs_dom(string_views(self.names@), entry_views(self.entries@), name@);
        }
        match self.position(name) {
            Some(i) => {
                assert(string_views(self.names@)[i as int] == name@);
                true
            },
            None => false,
        }
    }

    /// The entry held for `name`, if any.
    pub fn get(&self, name: &str) -> (r: Option<&ShipEntry>)
        requires
            self.wf(),
        ensures
            r is Some <==> self@.contains_key(name@),
            r matches Some(e) ==> e@ == self@[name@],
    {
        proof {
            lemma_pairs_dom(string_views(self.names@), entry_views(self.entries@), name@);
        }
        match self.position(name) {
            Some(i) => {
                proof {
                    lemma_pairs_at(string_views(self.names@), entry_views(self.entries@), i as int);
                }
                Some(&self.entries[i])
            },
            None => None,
        }
    }

    /// Records `entry` for `name`, replacing what the table held for it.
    pub fn insert(&mut self, name: String, entry: ShipEntry)
        requires
            old(self).wf(),
        ensures
            final(self).wf(),
            final(self)@ == old(self)@.insert(name@, entry@),
    {
        let ghost ns = string_views(self.names@);
        let ghost es = entry_views(self.entries@);
        match self.position(name.as_str()) {
            Some(i) => {
                let ghost ev = entry@;
                self.entries.set(i, entry);
                proof {
                    assert(entry_views(self.entries@) =~= es.update(i as int, ev));
                    assert(string_views(self.names@) =~= ns);
                    lemma_pairs_update(ns, es, i as int, ev);
                }
            },
            None => {
                let ghost nv = name@;
                let ghost ev = entry@;
                self.names.push(name);
                self.entries.push(entry);
                proof {
                    assert(string_views(self.names@) =~= ns.push(nv));
                    assert(entry_views(self.entries@) =~= es.push(ev));
                    assert(ns.push(nv).drop_last() =~= ns);
                    assert(es.push(ev).drop_last() =~= es);
                    assert forall|a: int, b: int| 0 <= a < b < ns.push(nv).len() implies ns.push(nv)[a] != ns.push(nv)[b] by {
                        if b == ns.len() {
                            assert(ns[a] == ns.push(nv)[a]);
                        }
                    }
                }
            },
        }
    }
}


/// The key of the storage macro that belongs to the macro in file `file_name`.
pub open spec fn spec_storage_key(file_name: Seq<char>) -> Seq<char> {
    spec_replace(file_name, "ship"@, "storage"@)
}

/// The key of the ship macro that the storage macro in file `file_name` belongs to.
pub open spec fn spec_ship_key(file_name: Seq<char>) -> Seq<char> {
    spec_replace(file_name, "storage"@, "ship"@)
}

/// A storage macro is linked to what was recorded for its ship: once the ship's entry and
/// then the storage macro's own entry are in the table, `link_storage` on the storage macro
/// finds its storage key and reads the ship's entry under its ship key.
pub proof fn law_storage_sees_ship(
    table: Map<Seq<char>, (Seq<char>, i32, i32)>,
    ship_file: Seq<char>,
    storage_file: Seq<char>,
    ship_entry: (Seq<char>, i32, i32),
    storage_entry: (Seq<char>, i32, i32),
)
    requires
        spec_ship_key(storage_file) == ship_file,
        spec_storage_key(storage_file) == storage_file,
        ship_file != storage_file,
    ensures
        ({
            let t = table.insert(ship_file, ship_entry).insert(storage_file, storage_entry);
            &&& t.contains_key(spec_storage_key(storage_file))
            &&& t.contains_key(spec_ship_key(storage_file))
            &&& t[spec_ship_key(storage_file)] == ship_entry
        }),
{
}

/// The pattern of a storage macro's cargo tag.
pub open spec fn spec_cargo_pattern() -> Seq<char> {
    "<cargo max=\".*\" ta"@
}

/// A cargo tag with the given capacity, up to the attribute that follows it.
pub open spec fn spec_cargo_tag(cargo: Seq<char>) -> Seq<char> {
    "<cargo max=\""@ + cargo + "\" ta"@
}

/// A storage macro after linking: its cargo set to the ship's, then renamed for the variant.
pub open spec fn spec_linked_macro(text: Seq<char>, file_name: Seq<char>, variant: Seq<char>, cargo: Seq<char>) -> Seq<char> {
    spec_replace_pattern(
        spec_storage_pattern(file_name),
        regex_replace_first(spec_cargo_pattern(), text, spec_cargo_tag(cargo)),
        spec_storage_variant_name(file_name, variant),
    )
}

/// The dock-area macro generated for a storage macro, as a pair of file name and text.
pub open spec fn spec_shipstorage(m_out_path: Seq<char>, file_name: Seq<char>, variant: Seq<char>, size: Seq<char>, count: int) -> (Seq<char>, Seq<char>) {
    (
        spec_shipstorage_file(m_out_path, file_name, variant, size),
        spec_shipstorage_xml(spec_shipstorage_name(file_name, variant, size), spec_decimal(count), size),
    )
}

/// The dock-area macros generated for a storage macro whose ship has the given small and
/// medium capacities: the medium one first, each only when its capacity is positive.
pub open spec fn spec_link_files(m_out_path: Seq<char>, file_name: Seq<char>, variant: Seq<char>, small: i32, medium: i32) -> Seq<(Seq<char>, Seq<char>)> {
    (if medium > 0 { seq![spec_shipstorage(m_out_path, file_name, variant, "size_m"@, medium as int)] } else { seq![] })
        + (if small > 0 { seq![spec_shipstorage(m_out_path, file_name, variant, "size_s"@, small as int)] } else { seq![] })
}

/// A dock-area macro is generated for a size only when the ship's capacity for that size is
/// positive: one file per positive capacity, the medium one first, each holding its own
/// size tag and capacity.
pub proof fn law_link_files_for_positive_capacities(m_out_path: Seq<char>, file_name: Seq<char>, variant: Seq<char>, small: i32, medium: i32)
    ensures
        spec_link_files(m_out_path, file_name, variant, small, medium).len()
            == (if medium > 0 { 1int } else { 0int }) + (if small > 0 { 1int } else { 0int }),
        medium > 0 ==> spec_link_files(m_out_path, file_name, variant, small, medium)[0]
            == spec_shipstorage(m_out_path, file_name, variant, "size_m"@, medium as int),
        small > 0 ==> spec_link_files(m_out_path, file_name, variant, small, medium).last()
            == spec_shipstorage(m_out_path, file_name, variant, "size_s"@, small as int),
        forall|i: int| 0 <= i < spec_link_files(m_out_path, file_name, variant, small, medium).len() ==> {
            ||| (medium > 0 && #[trigger] spec_link_files(m_out_path, file_name, variant, small, medium)[i]
                    == spec_shipstorage(m_out_path, file_name, variant, "size_m"@, medium as int))
            ||| (small > 0 && spec_link_files(m_out_path, file_name, variant, small, medium)[i]
                    == spec_shipstorage(m_out_path, file_name, variant, "size_s"@, small as int))
        },
{
}

/// A macro after the storage step, and the dock-area macros to write beside it.
pub struct StorageLink {
    pub macro_string: String,
    pub files: Vec<OutputFile>,
}

/// The views of a sequence of output files.
pub open spec fn file_views(v: Seq<OutputFile>) -> Seq<(Seq<char>, Seq<char>)> {
    v.map_values(|f: OutputFile| f@)
}

/// Links a storage macro to its ship: when the table holds the storage key of `file_name`,
/// the macro takes the ship's cargo and the storage's variant name, and the ship's dock
/// areas become macros of their own; otherwise nothing changes.
pub fn link_storage(relations: &MacroRelations, file_name: &str, macro_string: &String, variant: &str, m_out_path: &str) -> (r: Result<StorageLink, PatternError>)
    requires
        relations.wf(),
        relations@.contains_key(spec_storage_key(file_name@)) ==> relations@.contains_key(spec_ship_key(file_name@)),
    ensures
        !relations@.contains_key(spec_storage_key(file_name@)) ==> (r matches Ok(l)
            && l.macro_string@ == macro_string@ && l.files@.len() == 0),
        relations@.contains_key(spec_storage_key(file_name@)) ==> {
            let ship = relations@[spec_ship_key(file_name@)];
            &&& (r is Ok <==> regex_accepts(spec_cargo_pattern()))
            &&& r matches Ok(l) ==> {
                &&& l.macro_string@ == spec_linked_macro(macro_string@, file_name@, variant@, ship.0)
                &&& file_views(l.files@) == spec_link_files(m_out_path@, file_name@, variant@, ship.1, ship.2)
            }
            &&& r matches Err(e) ==> e == PatternError::Invalid
        },
{
    let storage_key = replace_all(file_name, "ship", "storage");
    if !relations.contains_key(storage_key.as_str()) {
        return Ok(StorageLink { macro_string: macro_string.clone(), files: Vec::new() });
    }
    let ship_key = replace_all(file_name, "storage", "ship");
    let ship = match relations.get(ship_key.as_str()) {
        Some(e) => e,
        None => {
            proof {
                assert(false);
            }
            return Err(PatternError::Invalid);
        },
    };
    let re = Pattern::new("<cargo max=\".*\" ta")?;
    let tag = concat3("<cargo max=\"", ship.cargo.as_str(), "\" ta");
    let with_cargo = re.replace_first(macro_string.as_str(), tag.as_str());
    let linked = rename_storage(&with_cargo, file_name, variant);
    let mut files: Vec<OutputFile> = Vec::new();
    if ship.medium > 0 {
        let count = i32_to_string(ship.medium);
        files.push(makeshipstorage(m_out_path, file_name, variant, "size_m", count.as_str()));
    }
    let ghost after_medium = file_views(files@);
    if ship.small > 0 {
        let count = i32_to_string(ship.small);
        files.push(makeshipstorage(m_out_path, file_name, variant, "size_s", count.as_str()));
        assert(file_views(files@) =~= after_medium.push(file_views(files@).last()));
    }
    assert(file_views(files@) =~= spec_link_files(m_out_path@, file_name@, variant@, ship.small, ship.medium));
    Ok(StorageLink { macro_string: linked, files })
}

} // verus!
