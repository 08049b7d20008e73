use ladder_logic::tile::{BoolElement, ContactOrCoil, Polarity, Tile, Wire, WIRE_COUNT};

const ALL_WIRES: [Wire; 11] = [
    Wire::Horz,
    Wire::Vert,
    Wire::LeftDown,
    Wire::LeftUp,
    Wire::RightDown,
    Wire::RightUp,
    Wire::T000,
    Wire::T090,
    Wire::T180,
    Wire::T270,
    Wire::Cross,
];

fn element(contact_or_coil: ContactOrCoil, polarity: Polarity) -> BoolElement {
    BoolElement { contact_or_coil, address: "Z09".to_string(), polarity }
}

#[test]
fn wire_paths_are_the_fixed_table() {
    assert_eq!(Wire::Horz.path_string(), "M 0,0.5 H 1.0");
    assert_eq!(Wire::Vert.path_string(), "M 0.5,0 V 1.0");
    assert_eq!(Wire::LeftDown.path_string(), "M 0,0.5 H 0.5 V 1.0");
    assert_eq!(Wire::LeftUp.path_string(), "M 0,0.5 H 0.5 V 0");
    assert_eq!(Wire::RightDown.path_string(), "M 1.0,0.5 H 0.5 V 1.0");
    assert_eq!(Wire::RightUp.path_string(), "M 1.0,0.5 H 0.5 V 0");
    assert_eq!(Wire::T000.path_string(), "M 0,0.5 H 1.0 M 0.5,0.5 V 1.0");
    assert_eq!(Wire::T090.path_string(), "M 0.5,0 V 1.0 M 0.5,0.5 H 1.0");
    assert_eq!(Wire::T180.path_string(), "M 0,0.5 H 1.0 M 0.5,0.5 V 0");
    assert_eq!(Wire::T270.path_string(), "M 0.5,0 V 1.0 M 0.5,0.5 H 0");
    assert_eq!(Wire::Cross.path_string(), "M 0,0.5 H 1.0 M 0.5,0 V 1.0");
}

#[test]
fn bool_element_paths_are_the_fixed_table() {
    assert_eq!(
        element(ContactOrCoil::Contact, Polarity::NO).path_string(),
        "M 0.625,0.5 H 1.0 M 0.625,0.1875 V 0.8125 M 0.375,0.1875 V 0.8125 M 0,0.5 H 0.375"
    );
    assert_eq!(
        element(ContactOrCoil::Contact, Polarity::NC).path_string(),
        "M 0.6875,0.25L 0.3125,0.75 M 0.375,0.5 H 0 M 0.625,0.5 H 1.0 M 0.625,0.1875 V 0.8125 M 0.375,0.1875 V 0.8125"
    );
    assert_eq!(
        element(ContactOrCoil::Coil, Polarity::NO).path_string(),
        "M 0.75,0.5 H 1.0 M 0.25,0.5 H 0 M 0.5625,0.75 A 0.26046875,0.26046875 0 0 1 0.5625,0.25M 0.4375,0.25A 0.26046875,0.26046875 0 0 1 0.4375,0.75"
    );
    assert_eq!(
        element(ContactOrCoil::Coil, Polarity::NC).path_string(),
        "M 0.6875,0.25L 0.3125,0.75 M 0.5625,0.75 A 0.26046875,0.26046875 0 0 1 0.5625,0.25M 0.4375,0.25A 0.26046875,0.26046875 0 0 1 0.4375,0.75 M 1.0,0.5 H 0.75 M 0,0.5 H 0.25"
    );
}

#[test]
fn tile_path_follows_its_variant() {
    assert_eq!(Tile::Empty.path_string(), "");
    assert_eq!(Tile::Wire(Wire::T090).path_string(), Wire::T090.path_string());
    let coil = element(ContactOrCoil::Coil, Polarity::NC);
    assert_eq!(Tile::BoolElement(coil.clone()).path_string(), coil.path_string());
}

#[test]
fn only_a_bool_element_has_a_label() {
    assert_eq!(Tile::Empty.label_string(), "");
    for wire in ALL_WIRES {
        assert_eq!(Tile::Wire(wire).label_string(), "");
    }
    let tile = Tile::BoolElement(BoolElement {
        contact_or_coil: ContactOrCoil::Contact,
        address: "X0".to_string(),
        polarity: Polarity::NC,
    });
    assert_eq!(tile.label_string(), "X0");
}

#[test]
fn defaults() {
    assert_eq!(Tile::default(), Tile::Empty);
    assert_eq!(Wire::default(), Wire::Horz);
    assert_eq!(Polarity::default(), Polarity::NO);
    assert_eq!(ContactOrCoil::default(), ContactOrCoil::Contact);
}

#[test]
fn wire_index_round_trips() {
    assert_eq!(WIRE_COUNT, 11);
    for (i, wire) in ALL_WIRES.iter().enumerate() {
        assert_eq!(wire.to_index(), i as u32);
        assert_eq!(Wire::from_index(i as u32), Some(*wire));
    }
    assert_eq!(Wire::from_index(11), None);
    assert_eq!(Wire::from_index(u32::MAX), None);
}

#[test]
fn scroll_by_zero_changes_nothing() {
    for wire in ALL_WIRES {
        let mut scrolled = wire;
        scrolled.scroll(0);
        assert_eq!(scrolled, wire);
    }
}

#[test]
fn scroll_steps_through_the_cycle() {
    let mut wire = Wire::Horz;
    wire.scroll(1);
    assert_eq!(wire, Wire::Vert);
    wire.scroll(3);
    assert_eq!(wire, Wire::RightDown);
    wire.scroll(6);
    assert_eq!(wire, Wire::Cross);
    wire.scroll(1);
    assert_eq!(wire, Wire::Horz);
}

#[test]
fn scroll_wraps_backwards() {
    let mut wire = Wire::Horz;
    wire.scroll(-1);
    assert_eq!(wire, Wire::Cross);
    wire.scroll(-10);
    assert_eq!(wire, Wire::Horz);
    wire.scroll(-12);
    assert_eq!(wire, Wire::Cross);
    let mut wire = Wire::Vert;
    // 1 - 25 = -24 = 9 - 3 * 11
    wire.scroll(-25);
    assert_eq!(wire, Wire::T270);
}

#[test]
fn scroll_depends_on_the_remainder_by_eleven() {
    for wire in ALL_WIRES {
        for n in [-1000, -45, -23, -11, -1, 0, 1, 5, 10, 11, 12, 22, 23, 1000, i32::MAX, i32::MIN] {
            let mut by_n = wire;
            by_n.scroll(n);
            let mut by_remainder = wire;
            by_remainder.scroll(n.rem_euclid(11));
            assert_eq!(by_n, by_remainder);
        }
    }
}

#[test]
fn scroll_at_the_ends_of_the_range() {
    // i32::MAX is 1 more than a multiple of 11, i32::MIN is 9 more.
    let mut wire = Wire::Horz;
    wire.scroll(i32::MAX);
    assert_eq!(wire, Wire::Vert);
    let mut wire = Wire::Horz;
    wire.scroll(i32::MIN);
    assert_eq!(wire, Wire::T270);
    let mut wire = Wire::Cross;
    wire.scroll(i32::MAX);
    assert_eq!(wire, Wire::Horz);
    let mut wire = Wire::Cross;
    wire.scroll(i32::MIN);
    assert_eq!(wire, Wire::T180);
}

#[test]
fn eleven_single_steps_are_a_full_turn() {
    for wire in ALL_WIRES {
        let mut scrolled = wire;
        for step in 1..=11 {
            scrolled.scroll(1);
            if step < 11 {
                assert_ne!(scrolled, wire);
            }
        }
        assert_eq!(scrolled, wire);
    }
}

#[test]
fn invert_swaps_the_polarity() {
    let mut polarity = Polarity::NO;
    polarity.invert();
    assert_eq!(polarity, Polarity::NC);
    polarity.invert();
    assert_eq!(polarity, Polarity::NO);
}

#[test]
fn tile_scroll_acts_by_variant() {
    let mut empty = Tile::Empty;
    empty.scroll(3);
    assert_eq!(empty, Tile::Empty);

    let mut wire = Tile::Wire(Wire::Horz);
    wire.scroll(2);
    assert_eq!(wire, Tile::Wire(Wire::LeftDown));

    let mut contact = Tile::BoolElement(element(ContactOrCoil::Contact, Polarity::NO));
    contact.scroll(2);
    assert_eq!(contact, Tile::BoolElement(element(ContactOrCoil::Contact, Polarity::NC)));
    contact.scroll(0);
    assert_eq!(contact, Tile::BoolElement(element(ContactOrCoil::Contact, Polarity::NO)));
}
