//! Rolling a ship's stats: random values within configured ranges, chained so that the
//! first-order stats (mass, cargo, hull) are ordered against each other.

use vstd::prelude::*;
use rand::Rng;
use crate::pattern::{Pattern, PatternError, regex_accepts, regex_replace_first};
use crate::text::{i32_to_string, spec_decimal};
use crate::names::{replace_pattern, spec_replace_pattern};

verus! {

/// `rand::Rng::gen_range(low, high)` on `rand::thread_rng()`. The contract claims what the
/// documentation promises: a value in `[low, high)`; `gen_range` panics when `low >= high`,
/// which `requires` leaves out. Which value comes back is left open: it is random.
#[verifier::external_body]
fn gen_range_i32(low: i32, high: i32) -> (r: i32)
    requires
        low < high,
    ensures
        low <= r < high,
{
    rand::thread_rng().gen_range(low, high)
}

/// A random value in `[min, max)`.
pub fn return_min_and_value(min: i32, max: i32) -> (r: i32)
    requires
        min < max,
    ensures
        min <= r < max,
{
    gen_range_i32(min, max)
}

/// `x / 2` rounded toward zero, as integer division does.
pub open spec fn half_toward_zero(x: int) -> int {
    if x >= 0 {
        x / 2
    } else {
        -((-x) / 2)
    }
}

/// A ship's primary purpose, which decides how its stats are rolled.
#[derive(Debug, Clone, Copy, PartialEq, Eq, Structural)]
pub enum Purpose {
    Build,
    Fight,
    Trade,
    Auxiliary,
}

/// The purpose that a macro's `primary` attribute names, if it is one of the four.
pub open spec fn spec_purpose_of(primary: Seq<char>) -> Option<Purpose> {
    if primary == "build"@ {
        Some(Purpose::Build)
    } else if primary == "fight"@ {
        Some(Purpose::Fight)
    } else if primary == "trade"@ {
        Some(Purpose::Trade)
    } else if primary == "auxiliary"@ {
        Some(Purpose::Auxiliary)
    } else {
        None
    }
}

/// Exactly the four names `build`, `fight`, `trade` and `auxiliary` are purposes, and
/// different names are different purposes.
pub proof fn law_purpose_names(a: Seq<char>, b: Seq<char>)
    ensures
        spec_purpose_of(a) is Some <==> (a == "build"@ || a == "fight"@ || a == "trade"@ || a == "auxiliary"@),
        spec_purpose_of(a) is Some && spec_purpose_of(a) == spec_purpose_of(b) ==> a == b,
        spec_purpose_of("build"@) == Some(Purpose::Build),
        spec_purpose_of("auxiliary"@) == Some(Purpose::Auxiliary),
{
    reveal_strlit("build");
    reveal_strlit("fight");
    reveal_strlit("trade");
    reveal_strlit("auxiliary");
    assert("auxiliary"@.len() != "build"@.len());
    assert("auxiliary"@.len() != "fight"@.len());
    assert("auxiliary"@.len() != "trade"@.len());
    assert("build"@[0] != "fight"@[0] && "build"@[0] != "trade"@[0] && "fight"@[0] != "trade"@[0]);
}

/// The purpose that a macro's `primary` attribute names.
pub fn purpose_of(primary: &str) -> (r: Option<Purpose>)
    ensures
        r == spec_purpose_of(primary@),
{
    let p = String::from_str(primary);
    if p == String::from_str("build") {
        Some(Purpose::Build)
    } else if p == String::from_str("fight") {
        Some(Purpose::Fight)
    } else if p == String::from_str("trade") {
        Some(Purpose::Trade)
    } else if p == String::from_str("auxiliary") {
        Some(Purpose::Auxiliary)
    } else {
        None
    }
}

/// The value that splits a range into its lower and upper part: `(min + max) / 2` for
/// builders, `min + max / 2` for the other purposes.
pub open spec fn spec_midpoint(purpose: Purpose, min: int, max: int) -> int {
    match purpose {
        Purpose::Build => half_toward_zero(min + max),
        _ => min + half_toward_zero(max),
    }
}

/// The sum behind `spec_midpoint` fits in an `i32`.
pub open spec fn midpoint_fits(purpose: Purpose, min: int, max: int) -> bool {
    match purpose {
        Purpose::Build => i32::MIN <= min + max <= i32::MAX,
        _ => i32::MIN <= min + half_toward_zero(max) <= i32::MAX,
    }
}

/// The value that splits `[min, max)` for a ship of the given purpose.
pub fn midpoint(purpose: Purpose, min: i32, max: i32) -> (r: i32)
    requires
        midpoint_fits(purpose, min as int, max as int),
    ensures
        r == spec_midpoint(purpose, min as int, max as int),
{
    match purpose {
        Purpose::Build => (min + max) / 2,
        _ => min + max / 2,
    }
}

/// Where a range is split: for builders halfway between its ends, `(min + max) / 2`; for
/// every other purpose (fight, trade, auxiliary alike) at `min` plus half of `max`; halves
/// are rounded toward zero, as integer division does.
pub proof fn law_midpoint_split(purpose: Purpose, min: int, max: int)
    ensures
        purpose == Purpose::Build && min + max >= 0 ==> spec_midpoint(purpose, min, max) == (min + max) / 2,
        purpose == Purpose::Build && min + max < 0 ==> spec_midpoint(purpose, min, max) == -((-(min + max)) / 2),
        purpose != Purpose::Build && max >= 0 ==> spec_midpoint(purpose, min, max) == min + max / 2,
        purpose != Purpose::Build && max < 0 ==> spec_midpoint(purpose, min, max) == min - (-max) / 2,
        spec_midpoint(Purpose::Auxiliary, min, max) == spec_midpoint(Purpose::Fight, min, max),
        spec_midpoint(Purpose::Trade, min, max) == spec_midpoint(Purpose::Fight, min, max),
{
}

/// The cargo range: its upper part for a heavy ship, its lower part otherwise.
pub open spec fn spec_cargo_bounds(purpose: Purpose, heavy: bool, min: int, max: int) -> (int, int) {
    if heavy {
        (spec_midpoint(purpose, min, max), max)
    } else {
        (min, spec_midpoint(purpose, min, max))
    }
}

/// The hull range: its lower part for a ship with much cargo, its upper part otherwise.
pub open spec fn spec_hull_bounds(purpose: Purpose, much_cargo: bool, min: int, max: int) -> (int, int) {
    if much_cargo {
        (min, spec_midpoint(purpose, min, max))
    } else {
        (spec_midpoint(purpose, min, max), max)
    }
}

/// The range that cargo is rolled from.
pub fn cargo_bounds(purpose: Purpose, heavy: bool, min: i32, max: i32) -> (r: (i32, i32))
    requires
        midpoint_fits(purpose, min as int, max as int),
    ensures
        (r.0 as int, r.1 as int) == spec_cargo_bounds(purpose, heavy, min as int, max as int),
{
    let mid = midpoint(purpose, min, max);
    if heavy {
        (mid, max)
    } else {
        (min, mid)
    }
}

/// The range that hull is rolled from.
pub fn hull_bounds(purpose: Purpose, much_cargo: bool, min: i32, max: i32) -> (r: (i32, i32))
    requires
        midpoint_fits(purpose, min as int, max as int),
    ensures
        (r.0 as int, r.1 as int) == spec_hull_bounds(purpose, much_cargo, min as int, max as int),
{
    let mid = midpoint(purpose, min, max);
    if much_cargo {
        (min, mid)
    } else {
        (mid, max)
    }
}

/// A rolled value and the range `[min, max)` it was rolled from.
#[derive(Debug, Clone, Copy, PartialEq, Eq, Structural)]
pub struct Roll {
    pub value: i32,
    pub min: i32,
    pub max: i32,
}

/// The rolled first-order stats of a ship.
#[derive(Debug, Clone, Copy, PartialEq, Eq, Structural)]
pub struct FirstOrder {
    pub mass: Roll,
    pub cargo: Roll,
    pub hull: Roll,
}

/// The configured ranges admit the roll for every mass that can come up: the midpoints fit
/// in an `i32`, the mass range is not empty, and the cargo and hull ranges chosen for a
/// heavy (or light) mass are not empty when a heavy (or light) mass is possible.
pub open spec fn first_order_feasible(purpose: Purpose, mass: (int, int), cargo: (int, int), hull: (int, int)) -> bool {
    let mass_mid = spec_midpoint(purpose, mass.0, mass.1);
    let cargo_mid = spec_midpoint(purpose, cargo.0, cargo.1);
    let hull_mid = spec_midpoint(purpose, hull.0, hull.1);
    &&& midpoint_fits(purpose, mass.0, mass.1)
    &&& midpoint_fits(purpose, cargo.0, cargo.1)
    &&& midpoint_fits(purpose, hull.0, hull.1)
    &&& mass.0 < mass.1
    &&& mass.1 - 1 >= mass_mid ==> cargo_mid < cargo.1 && hull.0 < hull_mid
    &&& mass.0 < mass_mid ==> cargo.0 < cargo_mid && hull_mid < hull.1
}

/// Whether the ranges admit `roll_first_order` (see `first_order_feasible`).
pub fn can_roll_first_order(purpose: Purpose, mass: (i32, i32), cargo: (i32, i32), hull: (i32, i32)) -> (r: bool)
    ensures
        r == first_order_feasible(
            purpose,
            (mass.0 as int, mass.1 as int),
            (cargo.0 as int, cargo.1 as int),
            (hull.0 as int, hull.1 as int),
        ),
{
    if !fits_midpoint(purpose, mass.0, mass.1) || !fits_midpoint(purpose, cargo.0, cargo.1)
        || !fits_midpoint(purpose, hull.0, hull.1) || mass.0 >= mass.1 {
        return false;
    }
    let mass_mid = midpoint(purpose, mass.0, mass.1);
    let cargo_mid = midpoint(purpose, cargo.0, cargo.1);
    let hull_mid = midpoint(purpose, hull.0, hull.1);
    let heavy_ok = mass.1 - 1 < mass_mid || (cargo_mid < cargo.1 && hull.0 < hull_mid);
    let light_ok = mass.0 >= mass_mid || (cargo.0 < cargo_mid && hull_mid < hull.1);
    heavy_ok && light_ok
}

fn fits_midpoint(purpose: Purpose, min: i32, max: i32) -> (r: bool)
    ensures
        r == midpoint_fits(purpose, min as int, max as int),
{
    let sum: i64 = match purpose {
        Purpose::Build => min as i64 + max as i64,
        _ => min as i64 + (max / 2) as i64,
    };
    i32::MIN as i64 <= sum && sum <= i32::MAX as i64
}

/// The roll is within its range, and the range is the one given.
pub open spec fn roll_in(r: Roll, bounds: (int, int)) -> bool {
    &&& r.min as int == bounds.0
    &&& r.max as int == bounds.1
    &&& r.min <= r.value < r.max
}

/// What holds of every first-order roll: mass comes from the mass range; cargo from the
/// part of its range that the mass picks; hull from the part of its range that the cargo
/// picks.
pub open spec fn first_order_rolled(purpose: Purpose, mass: (int, int), cargo: (int, int), hull: (int, int), r: FirstOrder) -> bool {
    let heavy = r.mass.value >= spec_midpoint(purpose, mass.0, mass.1);
    let much_cargo = r.cargo.value >= spec_midpoint(purpose, cargo.0, cargo.1);
    &&& roll_in(r.mass, mass)
    &&& roll_in(r.cargo, spec_cargo_bounds(purpose, heavy, cargo.0, cargo.1))
    &&& roll_in(r.hull, spec_hull_bounds(purpose, much_cargo, hull.0, hull.1))
}

/// Rolls mass, then cargo, then hull. A heavy ship gets cargo from the upper part of the
/// cargo range and hull from the lower part of the hull range; a light ship the reverse.
pub fn roll_first_order(purpose: Purpose, mass: (i32, i32), cargo: (i32, i32), hull: (i32, i32)) -> (r: FirstOrder)
    requires
        first_order_feasible(
            purpose,
            (mass.0 as int, mass.1 as int),
            (cargo.0 as int, cargo.1 as int),
            (hull.0 as int, hull.1 as int),
        ),
    ensures
        first_order_rolled(
            purpose,
            (mass.0 as int, mass.1 as int),
            (cargo.0 as int, cargo.1 as int),
            (hull.0 as int, hull.1 as int),
            r,
        ),
        r.mass.value >= spec_midpoint(purpose, mass.0 as int, mass.1 as int) ==> {
            &&& r.cargo.value >= spec_midpoint(purpose, cargo.0 as int, cargo.1 as int)
            &&& r.hull.value < spec_midpoint(purpose, hull.0 as int, hull.1 as int)
        },
        r.mass.value < spec_midpoint(purpose, mass.0 as int, mass.1 as int) ==> {
            &&& r.cargo.value < spec_midpoint(purpose, cargo.0 as int, cargo.1 as int)
            &&& r.hull.value >= spec_midpoint(purpose, hull.0 as int, hull.1 as int)
        },
{
    let mass_mid = midpoint(purpose, mass.0, mass.1);
    let mass_value = return_min_and_value(mass.0, mass.1);
    let heavy = mass_value >= mass_mid;
    let cargo_range = cargo_bounds(purpose, heavy, cargo.0, cargo.1);
    let cargo_mid = midpoint(purpose, cargo.0, cargo.1);
    let cargo_value = return_min_and_value(cargo_range.0, cargo_range.1);
    let much_cargo = cargo_value >= cargo_mid;
    let hull_range = hull_bounds(purpose, much_cargo, hull.0, hull.1);
    let hull_value = return_min_and_value(hull_range.0, hull_range.1);
    FirstOrder {
        mass: Roll { value: mass_value, min: mass.0, max: mass.1 },
        cargo: Roll { value: cargo_value, min: cargo_range.0, max: cargo_range.1 },
        hull: Roll { value: hull_value, min: hull_range.0, max: hull_range.1 },
    }
}

/// The values written into a macro's physics block.
#[derive(Debug, Clone, Copy, PartialEq, Eq, Structural)]
pub struct Physics {
    pub mass: i32,
    pub i_pitch: i32,
    pub i_yaw: i32,
    pub i_roll: i32,
    pub forward: i32,
    pub reverse: i32,
    pub horizontal: i32,
    pub vertical: i32,
    pub d_pitch: i32,
    pub d_yaw: i32,
    pub d_roll: i32,
}

/// The physics block of a macro with the given values.
pub open spec fn spec_physics_xml(p: Physics) -> Seq<char> {
    "<physics mass=\""@ + spec_decimal(p.mass as int)
        + "\">\n        <inertia pitch=\""@ + spec_decimal(p.i_pitch as int)
        + "\" yaw=\""@ + spec_decimal(p.i_yaw as int)
        + "\" roll=\""@ + spec_decimal(p.i_roll as int)
        + "\"/>\n        <drag forward=\""@ + spec_decimal(p.forward as int)
        + "\" reverse=\""@ + spec_decimal(p.reverse as int)
        + "\" horizontal=\""@ + spec_decimal(p.horizontal as int)
        + "\" vertical=\""@ + spec_decimal(p.vertical as int)
        + "\" pitch=\""@ + spec_decimal(p.d_pitch as int)
        + "\" yaw=\""@ + spec_decimal(p.d_yaw as int)
        + "\" roll=\""@ + spec_decimal(p.d_roll as int)
        + "\"/>\n      </physics>"@
}

/// The physics block of a macro with the given values.
pub fn physics_xml(p: &Physics) -> (r: String)
    ensures
        r@ == spec_physics_xml(*p),
{
    let mut r = String::new();
    r.append("<physics mass=\"");
    r.append(i32_to_string(p.mass).as_str());
    r.append("\">\n        <inertia pitch=\"");
    r.append(i32_to_string(p.i_pitch).as_str());
    r.append("\" yaw=\"");
    r.append(i32_to_string(p.i_yaw).as_str());
    r.append("\" roll=\"");
    r.append(i32_to_string(p.i_roll).as_str());
    r.append("\"/>\n        <drag forward=\"");
    r.append(i32_to_string(p.forward).as_str());
    r.append("\" reverse=\"");
    r.append(i32_to_string(p.reverse).as_str());
    r.append("\" horizontal=\"");
    r.append(i32_to_string(p.horizontal).as_str());
    r.append("\" vertical=\"");
    r.append(i32_to_string(p.vertical).as_str());
    r.append("\" pitch=\"");
    r.append(i32_to_string(p.d_pitch).as_str());
    r.append("\" yaw=\"");
    r.append(i32_to_string(p.d_yaw).as_str());
    r.append("\" roll=\"");
    r.append(i32_to_string(p.d_roll).as_str());
    r.append("\"/>\n      </physics>");
    r
}

/// The pattern of a macro's physics block, newlines included.
pub open spec fn spec_physics_pattern() -> Seq<char> {
    "((?s)<physics.*</physics>)"@
}

/// The macro with its physics block replaced by `physics`.
pub fn apply_physics(macro_string: &str, physics: &str) -> (r: Result<String, PatternError>)
    ensures
        r is Ok <==> regex_accepts(spec_physics_pattern()),
        r matches Ok(s) ==> s@ == regex_replace_first(spec_physics_pattern(), macro_string@, physics@),
{
    let re = Pattern::new("((?s)<physics.*</physics>)")?;
    Ok(re.replace_first(macro_string, physics))
}

/// The macro with every occurrence of the stat text `pattern` replaced by `value`; an empty
/// pattern changes nothing.
pub fn apply_stat(macro_string: &String, pattern: &String, value: i32) -> (r: String)
    ensures
        r@ == spec_replace_pattern(pattern@, macro_string@, spec_decimal(value as int)),
{
    let digits = i32_to_string(value);
    replace_pattern(pattern, macro_string, digits.as_str())
}

} // verus!
