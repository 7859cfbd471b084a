use x4_variants::stats::{
    apply_physics, apply_stat, cargo_bounds, hull_bounds, midpoint, physics_xml, purpose_of,
    return_min_and_value, roll_first_order, Physics, Purpose,
};

#[test]
fn return_min_and_value_stays_in_range() {
    let mut seen_other = false;
    for _ in 0..200 {
        let v = return_min_and_value(-5, 7);
        assert!(-5 <= v && v < 7);
        seen_other |= v != -5 && v != 7;
    }
    assert!(seen_other);
    assert_eq!(return_min_and_value(3, 4), 3);
}

#[test]
fn purposes() {
    assert_eq!(purpose_of("build"), Some(Purpose::Build));
    assert_eq!(purpose_of("fight"), Some(Purpose::Fight));
    assert_eq!(purpose_of("trade"), Some(Purpose::Trade));
    assert_eq!(purpose_of("auxiliary"), Some(Purpose::Auxiliary));
    assert_eq!(purpose_of("mine"), None);
    assert_eq!(purpose_of(""), None);
}

#[test]
fn midpoints_follow_the_purpose() {
    assert_eq!(midpoint(Purpose::Build, 1000, 3000), 2000);
    assert_eq!(midpoint(Purpose::Fight, 1000, 3000), 2500);
    assert_eq!(midpoint(Purpose::Trade, -7, -3), -8);
    assert_eq!(midpoint(Purpose::Build, -7, 2), -2);
}

#[test]
fn bounds_follow_the_previous_roll() {
    assert_eq!(cargo_bounds(Purpose::Build, true, 2000, 8000), (5000, 8000));
    assert_eq!(cargo_bounds(Purpose::Build, false, 2000, 8000), (2000, 5000));
    assert_eq!(hull_bounds(Purpose::Build, true, 5000, 10000), (5000, 7500));
    assert_eq!(hull_bounds(Purpose::Build, false, 5000, 10000), (7500, 10000));
    assert_eq!(cargo_bounds(Purpose::Fight, true, 2000, 8000), (6000, 8000));
}

#[test]
fn first_order_rolls_are_ordered() {
    for _ in 0..200 {
        let r = roll_first_order(Purpose::Build, (1000, 3000), (2000, 8000), (5000, 10000));
        assert!(1000 <= r.mass.value && r.mass.value < 3000);
        if r.mass.value >= 2000 {
            assert_eq!((r.cargo.min, r.cargo.max), (5000, 8000));
            assert_eq!((r.hull.min, r.hull.max), (5000, 7500));
        } else {
            assert_eq!((r.cargo.min, r.cargo.max), (2000, 5000));
            assert_eq!((r.hull.min, r.hull.max), (7500, 10000));
        }
        assert!(r.cargo.min <= r.cargo.value && r.cargo.value < r.cargo.max);
        assert!(r.hull.min <= r.hull.value && r.hull.value < r.hull.max);
    }
}

fn sample_physics() -> Physics {
    Physics {
        mass: 1,
        i_pitch: 2,
        i_yaw: 3,
        i_roll: 4,
        forward: 5,
        reverse: 6,
        horizontal: 7,
        vertical: 8,
        d_pitch: 9,
        d_yaw: 10,
        d_roll: -11,
    }
}

#[test]
fn physics_block_text() {
    assert_eq!(
        physics_xml(&sample_physics()),
        "<physics mass=\"1\">
        <inertia pitch=\"2\" yaw=\"3\" roll=\"4\"/>
        <drag forward=\"5\" reverse=\"6\" horizontal=\"7\" vertical=\"8\" pitch=\"9\" yaw=\"10\" roll=\"-11\"/>
      </physics>"
    );
}

#[test]
fn apply_physics_replaces_the_block() {
    let m = "<a>\n<physics mass=\"9\">\n<x/>\n</physics>\n</a>";
    assert_eq!(apply_physics(m, "<physics/>"), Ok("<a>\n<physics/>\n</a>".to_string()));
    assert_eq!(apply_physics("<a/>", "<physics/>"), Ok("<a/>".to_string()));
}

#[test]
fn apply_stat_writes_the_value() {
    let m = "<hull max=\"1000\"/>".to_string();
    assert_eq!(apply_stat(&m, &"1000".to_string(), 2345), "<hull max=\"2345\"/>");
    assert_eq!(apply_stat(&m, &"".to_string(), 2345), "<hull max=\"1000\"/>");
}
