//! Rewriting the ware entries of ships: framing, prices and owners.

use vstd::prelude::*;
use rand::seq::SliceRandom;
use crate::pattern::{Pattern, PatternError, regex_accepts, regex_replace_first};
use crate::text::{string_views, concat2, contains, i32_to_string, spec_contains, spec_decimal, spec_split_terminator,
    split_terminator};
use crate::names::{macro_base, spec_macro_base};

verus! {

/// The blocks of the ware file that mention `base`, each closed again with a newline and
/// `</ware>`.
pub open spec fn spec_ware_blocks(parts: Seq<Seq<char>>, base: Seq<char>) -> Seq<Seq<char>>
    decreases parts.len(),
{
    if parts.len() == 0 {
        seq![]
    } else {
        let earlier = spec_ware_blocks(parts.drop_last(), base);
        if spec_contains(parts.last(), base) {
            earlier.push(parts.last() + "\n</ware>"@)
        } else {
            earlier
        }
    }
}

/// The ware blocks of a macro are exactly the pieces that mention its name, in their order,
/// each closed with a newline and `</ware>`.
pub proof fn law_ware_blocks_are_the_mentioning_pieces(parts: Seq<Seq<char>>, base: Seq<char>)
    ensures
        spec_ware_blocks(parts, base)
            == parts.filter(|p: Seq<char>| spec_contains(p, base)).map_values(|p: Seq<char>| p + "\n</ware>"@),
    decreases parts.len(),
{
    reveal(Seq::filter);
    if parts.len() > 0 {
        law_ware_blocks_are_the_mentioning_pieces(parts.drop_last(), base);
        let f = parts.drop_last().filter(|p: Seq<char>| spec_contains(p, base));
        if spec_contains(parts.last(), base) {
            assert(f.push(parts.last()).map_values(|p: Seq<char>| p + "\n</ware>"@)
                =~= f.map_values(|p: Seq<char>| p + "\n</ware>"@).push(parts.last() + "\n</ware>"@));
        }
    }
}

/// The ware entries of `ware_file` that belong to the macro in file `file_name`: the pieces
/// between `</ware>` tags that mention the macro's name, each closed again.
pub fn ware_blocks(ware_file: &str, file_name: &str) -> (r: Vec<String>)
    ensures
        r@.map_values(|b: String| b@) == spec_ware_blocks(
            spec_split_terminator(ware_file@, "</ware>"@),
            spec_macro_base(file_name@),
        ),
{
    let base = macro_base(file_name);
    let sep = "</ware>";
    proof {
        reveal_strlit("</ware>");
    }
    let parts = split_terminator(ware_file, sep);
    let ghost ps = parts@.map_values(|p: String| p@);
    let mut out: Vec<String> = Vec::new();
    let mut i: usize = 0;
    while i < parts.len()
        invariant
            i <= parts.len(),
            ps == parts@.map_values(|p: String| p@),
            out@.map_values(|b: String| b@) == spec_ware_blocks(ps.take(i as int), base@),
        decreases parts.len() - i,
    {
        let ghost before = out@.map_values(|b: String| b@);
        assert(ps.take(i + 1).drop_last() =~= ps.take(i as int));
        assert(ps.take(i + 1).last() == parts@[i as int]@);
        if contains(parts[i].as_str(), base.as_str()) {
            out.push(concat2(parts[i].as_str(), "\n</ware>"));
            assert(out@.map_values(|b: String| b@) =~= before.push(parts@[i as int]@ + "\n</ware>"@));
        }
        i = i + 1;
    }
    assert(ps.take(parts.len() as int) =~= ps);
    out
}

/// The price tag of a ware.
pub open spec fn spec_price_tag(min: int, average: int, max: int) -> Seq<char> {
    "<price min=\""@ + spec_decimal(min) + "\" average=\""@ + spec_decimal(average) + "\" max=\""@
        + spec_decimal(max) + "\" />"@
}

/// The price tag of a ware.
pub fn price_tag(min: i32, average: i32, max: i32) -> (r: String)
    ensures
        r@ == spec_price_tag(min as int, average as int, max as int),
{
    let mut r = String::new();
    r.append("<price min=\"");
    r.append(i32_to_string(min).as_str());
    r.append("\" average=\"");
    r.append(i32_to_string(average).as_str());
    r.append("\" max=\"");
    r.append(i32_to_string(max).as_str());
    r.append("\" />");
    r
}

/// The pattern of a ware's price tag.
pub open spec fn spec_price_pattern() -> Seq<char> {
    "<price.* />"@
}

/// The ware with its price tag replaced by `price`.
pub fn apply_price(ware: &str, price: &str) -> (r: Result<String, PatternError>)
    ensures
        r is Ok <==> regex_accepts(spec_price_pattern()),
        r matches Ok(s) ==> s@ == regex_replace_first(spec_price_pattern(), ware@, price@),
{
    let re = Pattern::new("<price.* />")?;
    Ok(re.replace_first(ware, price))
}

/// One owner line of a ware.
pub open spec fn spec_owner_line(faction: Seq<char>) -> Seq<char> {
    "\n    <owner faction=\""@ + faction + "\"/>"@
}

/// The owner lines for `owners`, one per faction, in the order of first appearance.
pub open spec fn spec_ownership(owners: Seq<Seq<char>>) -> Seq<char>
    decreases owners.len(),
{
    if owners.len() == 0 {
        seq![]
    } else if owners.drop_last().contains(owners.last()) {
        spec_ownership(owners.drop_last())
    } else {
        spec_ownership(owners.drop_last()) + spec_owner_line(owners.last())
    }
}

proof fn lemma_contains_push(s: Seq<Seq<char>>, a: Seq<char>, x: Seq<char>)
    ensures
        s.push(a).contains(x) <==> s.contains(x) || x == a,
{
    if s.contains(x) {
        let k = choose|k: int| 0 <= k < s.len() && #[trigger] s[k] == x;
        assert(s.push(a)[k] == x);
    }
    if x == a {
        assert(s.push(a)[s.len() as int] == x);
    }
    if s.push(a).contains(x) {
        let k = choose|k: int| 0 <= k < s.push(a).len() && #[trigger] s.push(a)[k] == x;
        if k < s.len() {
            assert(s[k] == x);
        }
    }
}

/// A faction that is already among the owners adds no second owner line.
pub proof fn law_ownership_ignores_repeats(owners: Seq<Seq<char>>, faction: Seq<char>)
    requires
        owners.contains(faction),
    ensures
        spec_ownership(owners.push(faction)) == spec_ownership(owners),
{
    assert(owners.push(faction).drop_last() =~= owners);
}

/// A faction not yet among the owners adds its owner line at the end.
pub proof fn law_ownership_new_faction_appends(owners: Seq<Seq<char>>, faction: Seq<char>)
    requires
        !owners.contains(faction),
    ensures
        spec_ownership(owners.push(faction)) == spec_ownership(owners) + spec_owner_line(faction),
        spec_owner_line(faction) == "\n    <owner faction=\""@ + faction + "\"/>"@,
{
    assert(owners.push(faction).drop_last() =~= owners);
}

/// The owner lines are empty exactly when there are no owners.
pub proof fn law_ownership_empty(owners: Seq<Seq<char>>)
    ensures
        spec_ownership(owners).len() == 0 <==> owners.len() == 0,
    decreases owners.len(),
{
    if owners.len() > 0 {
        law_ownership_empty(owners.drop_last());
        if owners.drop_last().contains(owners.last()) {
            assert(owners.drop_last().len() > 0);
        } else {
            reveal_strlit("\n    <owner faction=\"");
        }
    }
}

fn contains_string(v: &Vec<String>, s: &String) -> (r: bool)
    ensures
        r == v@.map_values(|x: String| x@).contains(s@),
{
    let ghost vs = v@.map_values(|x: String| x@);
    let mut i: usize = 0;
    while i < v.len()
        invariant
            i <= v.len(),
            vs == v@.map_values(|x: String| x@),
            forall|j: int| 0 <= j < i ==> vs[j] != s@,
        decreases v.len() - i,
    {
        if v[i] == *s {
            assert(vs[i as int] == s@);
            return true;
        }
        i = i + 1;
    }
    false
}

/// The owner lines of a ware for the factions `owners`, each faction once.
pub fn ownership(owners: &Vec<String>) -> (r: String)
    ensures
        r@ == spec_ownership(owners@.map_values(|o: String| o@)),
{
    let ghost os = owners@.map_values(|o: String| o@);
    let mut owner_string = String::new();
    let mut owners_vec: Vec<String> = Vec::new();
    let mut i: usize = 0;
    while i < owners.len()
        invariant
            i <= owners.len(),
            os == owners@.map_values(|o: String| o@),
            owner_string@ == spec_ownership(os.take(i as int)),
            forall|x: Seq<char>| owners_vec@.map_values(|o: String| o@).contains(x) <==> os.take(i as int).contains(x),
        decreases owners.len() - i,
    {
        let ghost seen = owners_vec@.map_values(|o: String| o@);
        assert(os.take(i + 1).drop_last() =~= os.take(i as int));
        assert(os.take(i + 1).last() == owners@[i as int]@);
        if !contains_string(&owners_vec, &owners[i]) {
            owner_string.append("\n    <owner faction=\"");
            owner_string.append(owners[i].as_str());
            owner_string.append("\"/>");
            owners_vec.push(owners[i].clone());
            assert(owners_vec@.map_values(|o: String| o@) =~= seen.push(owners@[i as int]@));
        }
        proof {
            assert(os.take(i + 1) =~= os.take(i as int).push(owners@[i as int]@));
            assert forall|x: Seq<char>| #![trigger os.take(i + 1).contains(x)]
                owners_vec@.map_values(|o: String| o@).contains(x) <==> os.take(i + 1).contains(x) by {
                lemma_contains_push(os.take(i as int), owners@[i as int]@, x);
                if owners_vec@.map_values(|o: String| o@) =~= seen.push(owners@[i as int]@) {
                    lemma_contains_push(seen, owners@[i as int]@, x);
                } else {
                    assert(owners_vec@.map_values(|o: String| o@) =~= seen);
                }
            }
        }
        i = i + 1;
    }
    assert(os.take(owners.len() as int) =~= os);
    owner_string
}


/// `chosen` consists of items of `items` at distinct positions `picks`.
pub open spec fn picked_from(picks: Seq<int>, items: Seq<Seq<char>>, chosen: Seq<Seq<char>>) -> bool {
    &&& picks.len() == chosen.len()
    &&& forall|k: int| 0 <= k < picks.len() ==> 0 <= #[trigger] picks[k] < items.len() && chosen[k] == items[picks[k]]
    &&& forall|j: int, k: int| 0 <= j < picks.len() && 0 <= k < picks.len() && j != k ==> picks[j] != picks[k]
}

/// `rand::seq::SliceRandom::choose_multiple` on `rand::thread_rng()`, with the chosen items
/// cloned into a `Vec`. The contract claims what the documentation and the source show of
/// every outcome: `min(amount, items.len())` items taken from distinct positions of `items`.
/// Which positions, and in which order, is left open: it is random.
#[verifier::external_body]
fn choose_multiple(items: &Vec<String>, amount: usize) -> (r: Vec<String>)
    ensures
        r.len() == if amount < items.len() { amount } else { items.len() },
        exists|picks: Seq<int>| #[trigger] picked_from(picks, string_views(items@), string_views(r@)),
{
    items.choose_multiple(&mut rand::thread_rng(), amount).cloned().collect()
}

/// The pattern of a ware's owner tag.
pub open spec fn spec_owner_pattern() -> Seq<char> {
    "<owner.* />"@
}

/// What `rewrite_owners` gives back: the ware unchanged when there are no owners, else with
/// its first owner tag replaced by the owner lines; an error when `regex` refuses the owner
/// pattern.
pub open spec fn spec_rewrite_owners(ware: Seq<char>, owners: Seq<Seq<char>>) -> Result<Seq<char>, PatternError> {
    let lines = spec_ownership(owners);
    if lines.len() == 0 {
        Ok(ware)
    } else if regex_accepts(spec_owner_pattern()) {
        Ok(regex_replace_first(spec_owner_pattern(), ware, lines))
    } else {
        Err(PatternError::Invalid)
    }
}

/// The ware with its owner tag replaced by the owner lines for `owners`, when there are any.
pub fn rewrite_owners(ware: &str, owners: &Vec<String>) -> (r: Result<String, PatternError>)
    ensures
        match spec_rewrite_owners(ware@, owners@.map_values(|o: String| o@)) {
            Ok(w) => r matches Ok(s) && s@ == w,
            Err(e) => r == Err::<String, PatternError>(e),
        },
{
    let lines = ownership(owners);
    if lines.as_str().is_empty() {
        return Ok(String::from_str(ware));
    }
    let re = Pattern::new("<owner.* />")?;
    Ok(re.replace_first(ware, lines.as_str()))
}

/// The factions of each race, as the configuration lists them.
pub struct Factions {
    pub argon: Vec<String>,
    pub teladi: Vec<String>,
    pub paranid: Vec<String>,
    pub xenon: Vec<String>,
    pub khaak: Vec<String>,
    pub pirates: Vec<String>,
}

/// `draw` is a possible outcome of drawing `amount` owners from `list`.
pub open spec fn valid_draw(draw: Seq<Seq<char>>, list: Seq<Seq<char>>, amount: nat) -> bool {
    &&& draw.len() == (if amount < list.len() { amount } else { list.len() })
    &&& exists|picks: Seq<int>| #[trigger] picked_from(picks, list, draw)
}

/// One draw per position of `list`, each a possible outcome where the position holds
/// `faction` (the others are not used).
pub open spec fn valid_draws(draws: Seq<Seq<Seq<char>>>, list: Seq<Seq<char>>, faction: Seq<char>, amount: nat) -> bool {
    &&& draws.len() == list.len()
    &&& forall|i: int| 0 <= i < list.len() && list[i] == faction ==> valid_draw(#[trigger] draws[i], list, amount)
}

/// The ware after the first `n` positions of `list`: each position that holds `faction`
/// rewrites the owners with that position's draw.
pub open spec fn owners_after(ware: Seq<char>, list: Seq<Seq<char>>, faction: Seq<char>, draws: Seq<Seq<Seq<char>>>, n: nat) -> Result<Seq<char>, PatternError>
    decreases n,
{
    if n == 0 {
        Ok(ware)
    } else {
        match owners_after(ware, list, faction, draws, (n - 1) as nat) {
            Ok(w) => if list[n - 1] == faction {
                spec_rewrite_owners(w, draws[n - 1])
            } else {
                Ok(w)
            },
            Err(e) => Err(e),
        }
    }
}

proof fn lemma_owners_after_push(ware: Seq<char>, list: Seq<Seq<char>>, faction: Seq<char>, draws: Seq<Seq<Seq<char>>>, x: Seq<Seq<char>>, n: nat)
    requires
        n <= draws.len(),
    ensures
        owners_after(ware, list, faction, draws.push(x), n) == owners_after(ware, list, faction, draws, n),
    decreases n,
{
    if n > 0 {
        lemma_owners_after_push(ware, list, faction, draws, x, (n - 1) as nat);
        assert(draws.push(x)[n - 1] == draws[n - 1]);
    }
}

/// For each faction of `list` equal to `faction`, gives the ware `rarity` owners drawn at
/// random from `list`.
pub fn reassign_from_list(ware: String, list: &Vec<String>, faction: &String, rarity: usize) -> (r: Result<String, PatternError>)
    ensures
        !string_views(list@).contains(faction@) ==> (r matches Ok(w) && w@ == ware@),
        regex_accepts(spec_owner_pattern()) ==> r is Ok,
        r matches Err(e) ==> e == PatternError::Invalid,
        r matches Ok(w) ==> exists|draws: Seq<Seq<Seq<char>>>| #[trigger] valid_draws(draws, string_views(list@), faction@, rarity as nat)
            && owners_after(ware@, string_views(list@), faction@, draws, list@.len()) == Ok::<Seq<char>, PatternError>(w@),
{
    let ghost fs = string_views(list@);
    let mut ware = ware;
    let ghost start = ware@;
    let ghost mut draws: Seq<Seq<Seq<char>>> = seq![];
    let mut i: usize = 0;
    while i < list.len()
        invariant
            i <= list.len(),
            fs == string_views(list@),
            !fs.contains(faction@) ==> ware@ == start,
            draws.len() == i,
            forall|j: int| 0 <= j < i && fs[j] == faction@ ==> valid_draw(#[trigger] draws[j], fs, rarity as nat),
            owners_after(start, fs, faction@, draws, i as nat) == Ok::<Seq<char>, PatternError>(ware@),
        decreases list.len() - i,
    {
        let ghost before = draws;
        proof {
            assert(fs[i as int] == list@[i as int]@);
        }
        if list[i] == *faction {
            let chosen = choose_multiple(list, rarity);
            let ghost drawn = string_views(chosen@);
            proof {
                draws = draws.push(drawn);
                lemma_owners_after_push(start, fs, faction@, before, drawn, i as nat);
                assert(valid_draw(drawn, fs, rarity as nat));
            }
            ware = rewrite_owners(ware.as_str(), &chosen)?;
        } else {
            proof {
                draws = draws.push(seq![]);
                lemma_owners_after_push(start, fs, faction@, before, seq![], i as nat);
            }
        }
        proof {
            assert forall|j: int| 0 <= j < i + 1 && fs[j] == faction@ implies valid_draw(#[trigger] draws[j], fs, rarity as nat) by {
                if j < i {
                    assert(draws[j] == before[j]);
                }
            }
        }
        i = i + 1;
    }
    assert(valid_draws(draws, fs, faction@, rarity as nat));
    Ok(ware)
}

/// The faction lists of each race, in the order they are searched.
pub open spec fn spec_faction_lists(f: Factions) -> Seq<Seq<Seq<char>>> {
    seq![
        string_views(f.argon@),
        string_views(f.teladi@),
        string_views(f.paranid@),
        string_views(f.xenon@),
        string_views(f.khaak@),
        string_views(f.pirates@),
    ]
}

/// The lists searched are the six races' lists in this order: argon, teladi, paranid, xenon,
/// khaak, pirates.
pub proof fn law_faction_lists_are_the_races(f: Factions)
    ensures
        spec_faction_lists(f).len() == 6,
        spec_faction_lists(f)[0] == string_views(f.argon@),
        spec_faction_lists(f)[1] == string_views(f.teladi@),
        spec_faction_lists(f)[2] == string_views(f.paranid@),
        spec_faction_lists(f)[3] == string_views(f.xenon@),
        spec_faction_lists(f)[4] == string_views(f.khaak@),
        spec_faction_lists(f)[5] == string_views(f.pirates@),
{
}

/// The ware after the first `m` faction lists, each searched with its own draws.
pub open spec fn owners_over_lists(ware: Seq<char>, lists: Seq<Seq<Seq<char>>>, faction: Seq<char>, draws: Seq<Seq<Seq<Seq<char>>>>, m: nat) -> Result<Seq<char>, PatternError>
    decreases m,
{
    if m == 0 {
        Ok(ware)
    } else {
        match owners_over_lists(ware, lists, faction, draws, (m - 1) as nat) {
            Ok(w) => owners_after(w, lists[m - 1], faction, draws[m - 1], lists[m - 1].len()),
            Err(e) => Err(e),
        }
    }
}

proof fn lemma_owners_after_single(ware: Seq<char>, list: Seq<Seq<char>>, faction: Seq<char>, draws: Seq<Seq<Seq<char>>>, n: nat, i: int)
    requires
        n <= list.len(),
        forall|j: int| 0 <= j < list.len() && j != i ==> list[j] != faction,
    ensures
        (0 <= i < n && list[i] == faction) ==> owners_after(ware, list, faction, draws, n) == spec_rewrite_owners(ware, draws[i]),
        !(0 <= i < n && list[i] == faction) ==> owners_after(ware, list, faction, draws, n) == Ok::<Seq<char>, PatternError>(ware),
    decreases n,
{
    if n > 0 {
        lemma_owners_after_single(ware, list, faction, draws, (n - 1) as nat, i);
    }
}

proof fn lemma_over_lists_single(ware: Seq<char>, lists: Seq<Seq<Seq<char>>>, faction: Seq<char>, draws: Seq<Seq<Seq<Seq<char>>>>, m: nat, k: int, i: int)
    requires
        m <= lists.len(),
        0 <= k < lists.len(),
        0 <= i < lists[k].len(),
        lists[k][i] == faction,
        forall|k2: int, i2: int| 0 <= k2 < lists.len() && 0 <= i2 < lists[k2].len() && (k2 != k || i2 != i)
            ==> #[trigger] lists[k2][i2] != faction,
        spec_rewrite_owners(ware, draws[k][i]) is Ok,
    ensures
        m <= k ==> owners_over_lists(ware, lists, faction, draws, m) == Ok::<Seq<char>, PatternError>(ware),
        m > k ==> owners_over_lists(ware, lists, faction, draws, m) == spec_rewrite_owners(ware, draws[k][i]),
    decreases m,
{
    if m > 0 {
        let m1 = (m - 1) as int;
        lemma_over_lists_single(ware, lists, faction, draws, (m - 1) as nat, k, i);
        let w = owners_over_lists(ware, lists, faction, draws, (m - 1) as nat)->Ok_0;
        if m1 == k {
            lemma_owners_after_single(ware, lists[k], faction, draws[k], lists[k].len(), i);
        } else {
            assert forall|j: int| 0 <= j < lists[m1].len() && j != -1 implies lists[m1][j] != faction by {
                assert(lists[m1][j] != faction);
            }
            lemma_owners_after_single(w, lists[m1], faction, draws[m1], lists[m1].len(), -1);
        }
    }
}

/// A ware whose owner occurs once among the race lists gets owners drawn from that race's
/// list: its owner tag is replaced by one line per drawn faction, there is at least one, and
/// each comes from that list.
pub proof fn law_owners_drawn_from_the_race(
    ware: Seq<char>,
    f: Factions,
    faction: Seq<char>,
    draws: Seq<Seq<Seq<Seq<char>>>>,
    amount: nat,
    k: int,
    i: int,
)
    requires
        0 <= k < 6,
        0 <= i < spec_faction_lists(f)[k].len(),
        spec_faction_lists(f)[k][i] == faction,
        forall|k2: int, i2: int| 0 <= k2 < 6 && 0 <= i2 < spec_faction_lists(f)[k2].len() && (k2 != k || i2 != i)
            ==> #[trigger] spec_faction_lists(f)[k2][i2] != faction,
        valid_list_draws(draws, spec_faction_lists(f), faction, amount),
        amount > 0,
        regex_accepts(spec_owner_pattern()),
    ensures
        owners_over_lists(ware, spec_faction_lists(f), faction, draws, 6)
            == Ok::<Seq<char>, PatternError>(regex_replace_first(spec_owner_pattern(), ware, spec_ownership(draws[k][i]))),
        spec_ownership(draws[k][i]).len() > 0,
        forall|o: Seq<char>| draws[k][i].contains(o) ==> spec_faction_lists(f)[k].contains(o),
{
    let lists = spec_faction_lists(f);
    assert(valid_draws(draws[k], lists[k], faction, amount));
    let d = draws[k][i];
    assert(valid_draw(d, lists[k], amount));
    law_ownership_empty(d);
    assert(spec_ownership(d).len() > 0);
    lemma_over_lists_single(ware, lists, faction, draws, 6, k, i);
    let picks = choose|picks: Seq<int>| #[trigger] picked_from(picks, lists[k], d);
    assert forall|o: Seq<char>| d.contains(o) implies lists[k].contains(o) by {
        let x = choose|x: int| 0 <= x < d.len() && d[x] == o;
        assert(0 <= picks[x] < lists[k].len() && d[x] == lists[k][picks[x]]);
    }
}

/// One set of draws per faction list, each a possible outcome for its list.
pub open spec fn valid_list_draws(draws: Seq<Seq<Seq<Seq<char>>>>, lists: Seq<Seq<Seq<char>>>, faction: Seq<char>, amount: nat) -> bool {
    &&& draws.len() == lists.len()
    &&& forall|k: int| 0 <= k < lists.len() ==> #[trigger] valid_draws(draws[k], lists[k], faction, amount)
}

/// Gives the ware new owners drawn from every race whose faction list holds the ware's
/// owner `faction`; an empty `faction` leaves the ware as it is.
pub fn reassign_owner(ware: String, factions: &Factions, faction: &String, rarity: usize) -> (r: Result<String, PatternError>)
    ensures
        faction@.len() == 0 ==> (r matches Ok(w) && w@ == ware@),
        (forall|k: int| 0 <= k < 6 ==> !(#[trigger] spec_faction_lists(*factions)[k]).contains(faction@))
            ==> (r matches Ok(w) && w@ == ware@),
        regex_accepts(spec_owner_pattern()) ==> r is Ok,
        r matches Err(e) ==> e == PatternError::Invalid,
        r matches Ok(w) ==> faction@.len() > 0 ==> exists|draws: Seq<Seq<Seq<Seq<char>>>>|
            #[trigger] valid_list_draws(draws, spec_faction_lists(*factions), faction@, rarity as nat)
            && owners_over_lists(ware@, spec_faction_lists(*factions), faction@, draws, 6) == Ok::<Seq<char>, PatternError>(w@),
{
    if faction.as_str().is_empty() {
        return Ok(ware);
    }
    let ghost lists = spec_faction_lists(*factions);
    let ghost w0 = ware@;
    let ware = reassign_from_list(ware, &factions.argon, faction, rarity)?;
    let ghost w1 = ware@;
    let ware = reassign_from_list(ware, &factions.teladi, faction, rarity)?;
    let ghost w2 = ware@;
    let ware = reassign_from_list(ware, &factions.paranid, faction, rarity)?;
    let ghost w3 = ware@;
    let ware = reassign_from_list(ware, &factions.xenon, faction, rarity)?;
    let ghost w4 = ware@;
    let ware = reassign_from_list(ware, &factions.khaak, faction, rarity)?;
    let ghost w5 = ware@;
    let ware = reassign_from_list(ware, &factions.pirates, faction, rarity)?;
    proof {
        let d0 = choose|d: Seq<Seq<Seq<char>>>| #[trigger] valid_draws(d, lists[0], faction@, rarity as nat)
            && owners_after(w0, lists[0], faction@, d, lists[0].len()) == Ok::<Seq<char>, PatternError>(w1);
        let d1 = choose|d: Seq<Seq<Seq<char>>>| #[trigger] valid_draws(d, lists[1], faction@, rarity as nat)
            && owners_after(w1, lists[1], faction@, d, lists[1].len()) == Ok::<Seq<char>, PatternError>(w2);
        let d2 = choose|d: Seq<Seq<Seq<char>>>| #[trigger] valid_draws(d, lists[2], faction@, rarity as nat)
            && owners_after(w2, lists[2], faction@, d, lists[2].len()) == Ok::<Seq<char>, PatternError>(w3);
        let d3 = choose|d: Seq<Seq<Seq<char>>>| #[trigger] valid_draws(d, lists[3], faction@, rarity as nat)
            && owners_after(w3, lists[3], faction@, d, lists[3].len()) == Ok::<Seq<char>, PatternError>(w4);
        let d4 = choose|d: Seq<Seq<Seq<char>>>| #[trigger] valid_draws(d, lists[4], faction@, rarity as nat)
            && owners_after(w4, lists[4], faction@, d, lists[4].len()) == Ok::<Seq<char>, PatternError>(w5);
        let d5 = choose|d: Seq<Seq<Seq<char>>>| #[trigger] valid_draws(d, lists[5], faction@, rarity as nat)
            && owners_after(w5, lists[5], faction@, d, lists[5].len()) == Ok::<Seq<char>, PatternError>(ware@);
        let draws = seq![d0, d1, d2, d3, d4, d5];
        assert(valid_list_draws(draws, lists, faction@, rarity as nat));
        reveal_with_fuel(owners_over_lists, 7);
        assert(owners_over_lists(w0, lists, faction@, draws, 6) == Ok::<Seq<char>, PatternError>(ware@));
    }
    Ok(ware)
}

} // verus!
