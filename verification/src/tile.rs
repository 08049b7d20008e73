//! The value of one grid cell: empty, a wire segment, or a boolean element
//! (contact or coil), and the geometry and label derived from it.

use vstd::prelude::*;
use vstd::arithmetic::div_mod::{
    lemma_add_mod_noop,
    lemma_fundamental_div_mod,
    lemma_mod_multiples_vanish,
    lemma_mod_twice,
};

verus! {

/// Number of wire orientations.
pub const WIRE_COUNT: u32 = 11;

/// Orientation of a wire segment inside its cell.
#[derive(Clone, Copy, Debug, PartialEq, Eq, Structural)]
pub enum Wire {
    Horz,
    Vert,
    LeftDown,
    LeftUp,
    RightDown,
    RightUp,
    T000,
    T090,
    T180,
    T270,
    Cross,
}

impl Wire {
    /// Position of the orientation in the scroll cycle, from 0 to 10.
    pub open spec fn index(self) -> int {
        match self {
            Wire::Horz => 0,
            Wire::Vert => 1,
            Wire::LeftDown => 2,
            Wire::LeftUp => 3,
            Wire::RightDown => 4,
            Wire::RightUp => 5,
            Wire::T000 => 6,
            Wire::T090 => 7,
            Wire::T180 => 8,
            Wire::T270 => 9,
            Wire::Cross => 10,
        }
    }

    /// The orientation at position `i mod 11` of the scroll cycle.
    pub open spec fn at(i: int) -> Wire {
        let r = i % 11;
        if r == 0 {
            Wire::Horz
        } else if r == 1 {
            Wire::Vert
        } else if r == 2 {
            Wire::LeftDown
        } else if r == 3 {
            Wire::LeftUp
        } else if r == 4 {
            Wire::RightDown
        } else if r == 5 {
            Wire::RightUp
        } else if r == 6 {
            Wire::T000
        } else if r == 7 {
            Wire::T090
        } else if r == 8 {
            Wire::T180
        } else if r == 9 {
            Wire::T270
        } else {
            Wire::Cross
        }
    }

    /// The orientation reached from `self` by `delta` steps through the cycle,
    /// forwards for a positive `delta` and backwards for a negative one.
    pub open spec fn scrolled(self, delta: int) -> Wire {
        Wire::at(self.index() + delta)
    }

    /// The path description of the orientation, in the unit square.
    pub open spec fn path(self) -> Seq<char> {
        match self {
            Wire::Horz => "M 0,0.5 H 1.0"@,
            Wire::Vert => "M 0.5,0 V 1.0"@,
            Wire::LeftDown => "M 0,0.5 H 0.5 V 1.0"@,
            Wire::LeftUp => "M 0,0.5 H 0.5 V 0"@,
            Wire::RightDown => "M 1.0,0.5 H 0.5 V 1.0"@,
            Wire::RightUp => "M 1.0,0.5 H 0.5 V 0"@,
            Wire::T000 => "M 0,0.5 H 1.0 M 0.5,0.5 V 1.0"@,
            Wire::T090 => "M 0.5,0 V 1.0 M 0.5,0.5 H 1.0"@,
            Wire::T180 => "M 0,0.5 H 1.0 M 0.5,0.5 V 0"@,
            Wire::T270 => "M 0.5,0 V 1.0 M 0.5,0.5 H 0"@,
            Wire::Cross => "M 0,0.5 H 1.0 M 0.5,0 V 1.0"@,
        }
    }

    /// Position of the orientation in the scroll cycle.
    pub fn to_index(&self) -> (i: u32)
        ensures
            i == self.index(),
            i < WIRE_COUNT,
    {
        match self {
            Wire::Horz => 0,
            Wire::Vert => 1,
            Wire::LeftDown => 2,
            Wire::LeftUp => 3,
            Wire::RightDown => 4,
            Wire::RightUp => 5,
            Wire::T000 => 6,
            Wire::T090 => 7,
            Wire::T180 => 8,
            Wire::T270 => 9,
            Wire::Cross => 10,
        }
    }

    /// The orientation at position `i` of the scroll cycle, if there is one.
    pub fn from_index(i: u32) -> (w: Option<Wire>)
        ensures
            w == (if i < WIRE_COUNT {
                Some(Wire::at(i as int))
            } else {
                None
            }),
    {
        match i {
            0 => Some(Wire::Horz),
            1 => Some(Wire::Vert),
            2 => Some(Wire::LeftDown),
            3 => Some(Wire::LeftUp),
            4 => Some(Wire::RightDown),
            5 => Some(Wire::RightUp),
            6 => Some(Wire::T000),
            7 => Some(Wire::T090),
            8 => Some(Wire::T180),
            9 => Some(Wire::T270),
            10 => Some(Wire::Cross),
            _ => None,
        }
    }

    /// The path description of the orientation.
    pub fn path_string(&self) -> (s: String)
        ensures
            s@ == self.path(),
    {
        match self {
            Wire::Horz => "M 0,0.5 H 1.0".to_owned(),
            Wire::Vert => "M 0.5,0 V 1.0".to_owned(),
            Wire::LeftDown => "M 0,0.5 H 0.5 V 1.0".to_owned(),
            Wire::LeftUp => "M 0,0.5 H 0.5 V 0".to_owned(),
            Wire::RightDown => "M 1.0,0.5 H 0.5 V 1.0".to_owned(),
            Wire::RightUp => "M 1.0,0.5 H 0.5 V 0".to_owned(),
            Wire::T000 => "M 0,0.5 H 1.0 M 0.5,0.5 V 1.0".to_owned(),
            Wire::T090 => "M 0.5,0 V 1.0 M 0.5,0.5 H 1.0".to_owned(),
            Wire::T180 => "M 0,0.5 H 1.0 M 0.5,0.5 V 0".to_owned(),
            Wire::T270 => "M 0.5,0 V 1.0 M 0.5,0.5 H 0".to_owned(),
            Wire::Cross => "M 0,0.5 H 1.0 M 0.5,0 V 1.0".to_owned(),
        }
    }

    /// Moves the orientation `delta` steps through the cycle, wrapping in
    /// both directions.
    pub fn scroll(&mut self, delta: i32)
        ensures
            *final(self) == old(self).scrolled(delta as int),
    {
        // 195225787 * 11 is the least multiple of 11 above every |delta|.
        let shifted: u64 = (delta as i64 + 2147483657i64 + self.to_index() as i64) as u64;
        let r: u64 = shifted % 11;
        proof {
            lemma_mod_multiples_vanish(195225787, self.index() + delta as int, 11);
        }
        let next = Wire::from_index(r as u32);
        match next {
            Some(w) => {
                *self = w;
            },
            None => {},
        }
    }
}

/// Scrolling by no step leaves the orientation as it is.
pub proof fn lemma_scroll_zero(wire: Wire)
    ensures
        wire.scrolled(0) == wire,
{
}

/// Only the remainder of the step count by 11 matters.
pub proof fn lemma_scroll_mod(wire: Wire, delta: int)
    ensures
        wire.scrolled(delta) == wire.scrolled(delta % 11),
{
    lemma_mod_multiples_vanish(delta / 11, wire.index() + delta % 11, 11);
    assert(11 * (delta / 11) + (wire.index() + delta % 11) == wire.index() + delta) by {
        lemma_fundamental_div_mod(delta, 11);
    }
}

/// Two scrolls in a row are one scroll by the sum of their steps.
pub proof fn lemma_scroll_add(wire: Wire, first: int, second: int)
    ensures
        wire.scrolled(first).scrolled(second) == wire.scrolled(first + second),
{
    let middle = wire.scrolled(first);
    assert(middle.index() == (wire.index() + first) % 11);
    lemma_add_mod_noop(wire.index() + first, second, 11);
    lemma_mod_twice(second, 11);
    lemma_add_mod_noop(middle.index(), second, 11);
    lemma_mod_twice(wire.index() + first, 11);
}

/// Eleven single steps come back to the orientation they began with.
pub proof fn lemma_scroll_full_turn(wire: Wire)
    ensures
        wire.scrolled(1).scrolled(1).scrolled(1).scrolled(1).scrolled(1).scrolled(1).scrolled(1).scrolled(
            1,
        ).scrolled(1).scrolled(1).scrolled(1) == wire,
{
    lemma_scroll_add(wire, 1, 1);
    lemma_scroll_add(wire, 2, 1);
    lemma_scroll_add(wire, 3, 1);
    lemma_scroll_add(wire, 4, 1);
    lemma_scroll_add(wire, 5, 1);
    lemma_scroll_add(wire, 6, 1);
    lemma_scroll_add(wire, 7, 1);
    lemma_scroll_add(wire, 8, 1);
    lemma_scroll_add(wire, 9, 1);
    lemma_scroll_add(wire, 10, 1);
    lemma_scroll_mod(wire, 11);
}

impl Default for Wire {
    fn default() -> (w: Wire)
        ensures
            w == Wire::Horz,
    {
        Wire::Horz
    }
}

/// Whether an element conducts at rest: normally open, or normally closed.
#[derive(Clone, Copy, Debug, PartialEq, Eq, Structural)]
pub enum Polarity {
    NO,
    NC,
}

impl Polarity {
    /// The other polarity.
    pub open spec fn inverted(self) -> Polarity {
        match self {
            Polarity::NO => Polarity::NC,
            Polarity::NC => Polarity::NO,
        }
    }

    /// Swaps normally open and normally closed.
    pub fn invert(&mut self)
        ensures
            *final(self) == old(self).inverted(),
    {
        *self = match *self {
            Polarity::NO => Polarity::NC,
            Polarity::NC => Polarity::NO,
        };
    }
}

impl Default for Polarity {
    fn default() -> (p: Polarity)
        ensures
            p == Polarity::NO,
    {
        Polarity::NO
    }
}

/// The two kinds of boolean element: a contact reads a bit, a coil drives one.
#[derive(Clone, Copy, Debug, PartialEq, Eq, Structural)]
pub enum ContactOrCoil {
    Contact,
    Coil,
}

impl Default for ContactOrCoil {
    fn default() -> (k: ContactOrCoil)
        ensures
            k == ContactOrCoil::Contact,
    {
        ContactOrCoil::Contact
    }
}

/// The path description of a boolean element of the given kind and polarity.
pub open spec fn bool_element_path(contact_or_coil: ContactOrCoil, polarity: Polarity) -> Seq<char> {
    match (contact_or_coil, polarity) {
        (ContactOrCoil::Contact, Polarity::NO) =>
            "M 0.625,0.5 H 1.0 M 0.625,0.1875 V 0.8125 M 0.375,0.1875 V 0.8125 M 0,0.5 H 0.375"@,
        (ContactOrCoil::Contact, Polarity::NC) =>
            "M 0.6875,0.25L 0.3125,0.75 M 0.375,0.5 H 0 M 0.625,0.5 H 1.0 M 0.625,0.1875 V 0.8125 M 0.375,0.1875 V 0.8125"@,
        (ContactOrCoil::Coil, Polarity::NO) =>
            "M 0.75,0.5 H 1.0 M 0.25,0.5 H 0 M 0.5625,0.75 A 0.26046875,0.26046875 0 0 1 0.5625,0.25M 0.4375,0.25A 0.26046875,0.26046875 0 0 1 0.4375,0.75"@,
        (ContactOrCoil::Coil, Polarity::NC) =>
            "M 0.6875,0.25L 0.3125,0.75 M 0.5625,0.75 A 0.26046875,0.26046875 0 0 1 0.5625,0.25M 0.4375,0.25A 0.26046875,0.26046875 0 0 1 0.4375,0.75 M 1.0,0.5 H 0.75 M 0,0.5 H 0.25"@,
    }
}

/// A relay contact or coil, bound to an I/O bit by its address.
#[derive(Clone, Debug, PartialEq, Eq)]
pub struct BoolElement {
    pub contact_or_coil: ContactOrCoil,
    pub address: String,
    pub polarity: Polarity,
}

/// What a `BoolElement` holds, with the address as a sequence of characters.
pub struct BoolElementView {
    pub contact_or_coil: ContactOrCoil,
    pub address: Seq<char>,
    pub polarity: Polarity,
}

impl View for BoolElement {
    type V = BoolElementView;

    open spec fn view(&self) -> BoolElementView {
        BoolElementView {
            contact_or_coil: self.contact_or_coil,
            address: self.address@,
            polarity: self.polarity,
        }
    }
}

impl BoolElement {
    /// The path description of the element.
    pub fn path_string(&self) -> (s: String)
        ensures
            s@ == bool_element_path(self.contact_or_coil, self.polarity),
    {
        match (self.contact_or_coil, self.polarity) {
            (ContactOrCoil::Contact, Polarity::NO) =>
                "M 0.625,0.5 H 1.0 M 0.625,0.1875 V 0.8125 M 0.375,0.1875 V 0.8125 M 0,0.5 H 0.375".to_owned(),
            (ContactOrCoil::Contact, Polarity::NC) =>
                "M 0.6875,0.25L 0.3125,0.75 M 0.375,0.5 H 0 M 0.625,0.5 H 1.0 M 0.625,0.1875 V 0.8125 M 0.375,0.1875 V 0.8125".to_owned(),
            (ContactOrCoil::Coil, Polarity::NO) =>
                "M 0.75,0.5 H 1.0 M 0.25,0.5 H 0 M 0.5625,0.75 A 0.26046875,0.26046875 0 0 1 0.5625,0.25M 0.4375,0.25A 0.26046875,0.26046875 0 0 1 0.4375,0.75".to_owned(),
            (ContactOrCoil::Coil, Polarity::NC) =>
                "M 0.6875,0.25L 0.3125,0.75 M 0.5625,0.75 A 0.26046875,0.26046875 0 0 1 0.5625,0.25M 0.4375,0.25A 0.26046875,0.26046875 0 0 1 0.4375,0.75 M 1.0,0.5 H 0.75 M 0,0.5 H 0.25".to_owned(),
        }
    }
}

/// The value of one grid cell.
#[derive(Clone, Debug, PartialEq, Eq)]
pub enum Tile {
    Empty,
    BoolElement(BoolElement),
    Wire(Wire),
}

/// What a `Tile` holds, with any address as a sequence of characters.
pub enum TileView {
    Empty,
    BoolElement(BoolElementView),
    Wire(Wire),
}

impl View for Tile {
    type V = TileView;

    open spec fn view(&self) -> TileView {
        match self {
            Tile::Empty => TileView::Empty,
            Tile::BoolElement(bool_element) => TileView::BoolElement(bool_element@),
            Tile::Wire(wire) => TileView::Wire(*wire),
        }
    }
}

impl TileView {
    /// The path description drawn for the cell: none for an empty cell.
    pub open spec fn path(self) -> Seq<char> {
        match self {
            TileView::Empty => Seq::empty(),
            TileView::BoolElement(bool_element) => bool_element_path(
                bool_element.contact_or_coil,
                bool_element.polarity,
            ),
            TileView::Wire(wire) => wire.path(),
        }
    }

    /// The label written on the cell: the address of a boolean element, and
    /// nothing on a wire or an empty cell.
    pub open spec fn label(self) -> Seq<char> {
        match self {
            TileView::Empty => Seq::empty(),
            TileView::Wire(_) => Seq::empty(),
            TileView::BoolElement(bool_element) => bool_element.address,
        }
    }

    /// The cell after one scroll event of `delta` steps: a wire turns through
    /// its orientations, a boolean element swaps its polarity whatever the
    /// `delta`, an empty cell stays empty.
    pub open spec fn scrolled(self, delta: int) -> TileView {
        match self {
            TileView::Empty => TileView::Empty,
            TileView::BoolElement(bool_element) => TileView::BoolElement(
                BoolElementView { polarity: bool_element.polarity.inverted(), ..bool_element },
            ),
            TileView::Wire(wire) => TileView::Wire(wire.scrolled(delta)),
        }
    }
}

/// Only a boolean element has a label, and an empty cell has no path.
pub proof fn lemma_label_and_path(tile: TileView)
    ensures
        !(tile is BoolElement) ==> tile.label().len() == 0,
        tile matches TileView::BoolElement(bool_element) ==> tile.label() == bool_element.address,
        tile is Empty ==> tile.path().len() == 0,
{
}

impl Tile {
    /// The path description drawn for the cell.
    pub fn path_string(&self) -> (s: String)
        ensures
            s@ == self@.path(),
    {
        match self {
            Tile::Empty => String::new(),
            Tile::BoolElement(bool_element) => bool_element.path_string(),
            Tile::Wire(wire) => wire.path_string(),
        }
    }

    /// The label written on the cell.
    pub fn label_string(&self) -> (s: String)
        ensures
            s@ == self@.label(),
    {
        match self {
            Tile::Empty => String::new(),
            Tile::Wire(_) => String::new(),
            Tile::BoolElement(bool_element) => bool_element.address.clone(),
        }
    }

    /// Applies one scroll event of `delta` steps to the cell.
    pub fn scroll(&mut self, delta: i32)
        ensures
            final(self)@ == old(self)@.scrolled(delta as int),
    {
        match self {
            Tile::Empty => {},
            Tile::BoolElement(bool_element) => {
                bool_element.polarity.invert();
            },
            Tile::Wire(wire) => {
                wire.scroll(delta);
            },
        }
    }
}

impl Default for Tile {
    fn default() -> (t: Tile)
        ensures
            t == Tile::Empty,
    {
        Tile::Empty
    }
}

} // verus!
