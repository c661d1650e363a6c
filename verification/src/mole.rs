//! Moles: what gets whacked.

use vstd::prelude::*;
use vstd::string::*;

verus! {

/// The name a mole has before it is given one from the pool.
pub open spec fn default_mole_name() -> Seq<char> {
    seq!['E', 'd']
}

pub const MOLE_DEFAULT_HP: u32 = 100;
pub const MOLE_DEFAULT_MIN_DWELL: u32 = 500;
pub const MOLE_DEFAULT_MAX_DWELL: u32 = 1500;
pub const MOLE_DEFAULT_STARTING_POS_X: u32 = 0;
pub const MOLE_DEFAULT_STARTING_POS_Y: u32 = 0;

/// A mole: its name, hit points, how long it stays up, and where it is.
#[derive(Debug, Clone)]
pub struct Mole {
    name: String,  // human-readable name
    hp: u32,  // hit points
    min_dwell_time: u32,  // minimum time the mole will stay up, ms
    max_dwell_time: u32,  // maximum time the mole will stay up, ms
    pub is_up: bool,
    pub pos_x: u32,
    pub pos_y: u32,
    hole_index: Option<usize>,  // the hole the mole sits in, once placed
}

/// What a mole is, as the contracts speak of it.
pub struct MoleView {
    pub name: Seq<char>,
    pub hp: u32,
    pub min_dwell_time: u32,
    pub max_dwell_time: u32,
    pub is_up: bool,
    pub pos_x: u32,
    pub pos_y: u32,
    pub hole_index: Option<usize>,
}

impl View for Mole {
    type V = MoleView;

    closed spec fn view(&self) -> MoleView {
        MoleView {
            name: self.name@,
            hp: self.hp,
            min_dwell_time: self.min_dwell_time,
            max_dwell_time: self.max_dwell_time,
            is_up: self.is_up,
            pos_x: self.pos_x,
            pos_y: self.pos_y,
            hole_index: self.hole_index,
        }
    }
}

/// A fresh mole: called "Ed", full hit points, down, at the origin and in no hole.
pub open spec fn is_default_mole(m: MoleView) -> bool {
    &&& m.name == default_mole_name()
    &&& m.hp == MOLE_DEFAULT_HP
    &&& m.min_dwell_time == MOLE_DEFAULT_MIN_DWELL
    &&& m.max_dwell_time == MOLE_DEFAULT_MAX_DWELL
    &&& !m.is_up
    &&& m.pos_x == MOLE_DEFAULT_STARTING_POS_X
    &&& m.pos_y == MOLE_DEFAULT_STARTING_POS_Y
    &&& m.hole_index is None
}

impl Default for Mole {
    fn default() -> (mole: Self)
        ensures
            is_default_mole(mole@),
    {
        let name = String::from_str("Ed");
        proof {
            reveal_strlit("Ed");
        }
        let mole = Self {
            name,
            hp: MOLE_DEFAULT_HP,
            min_dwell_time: MOLE_DEFAULT_MIN_DWELL,
            max_dwell_time: MOLE_DEFAULT_MAX_DWELL,
            is_up: false,
            pos_x: MOLE_DEFAULT_STARTING_POS_X,
            pos_y: MOLE_DEFAULT_STARTING_POS_Y,
            hole_index: None,
        };
        proof {
            assert(mole@.name == default_mole_name());
        }
        mole
    }
}

impl Mole {
    /// A mole with the default values.
    pub fn new() -> (mole: Self)
        ensures
            is_default_mole(mole@),
    {
        Self::default()
    }

    pub fn name(&self) -> (name: &str)
        ensures
            name@ == self@.name,
    {
        self.name.as_str()
    }

    /// Whether the mole is up (the public field, for verified callers).
    pub fn is_up(&self) -> (up: bool)
        ensures
            up == self@.is_up,
    {
        self.is_up
    }

    /// The mole's position (the public fields, for verified callers).
    pub fn position(&self) -> (pos: (u32, u32))
        ensures
            pos == (self@.pos_x, self@.pos_y),
    {
        (self.pos_x, self.pos_y)
    }

    pub fn hp(&self) -> (hp: u32)
        ensures
            hp == self@.hp,
    {
        self.hp
    }

    pub fn min_dwell_time(&self) -> (t: u32)
        ensures
            t == self@.min_dwell_time,
    {
        self.min_dwell_time
    }

    pub fn max_dwell_time(&self) -> (t: u32)
        ensures
            t == self@.max_dwell_time,
    {
        self.max_dwell_time
    }

    pub fn hole_index(&self) -> (index: Option<usize>)
        ensures
            index == self@.hole_index,
    {
        self.hole_index
    }

    /// Give the mole a new name, leaving all else as it was.
    pub fn set_name(&mut self, name: String)
        ensures
            final(self)@ == (MoleView { name: name@, ..old(self)@ }),
    {
        self.name = name;
    }

    /// Put the mole in hole number `index`, leaving all else as it was.
    pub fn set_hole_index(&mut self, index: usize)
        ensures
            final(self)@ == (MoleView { hole_index: Some(index), ..old(self)@ }),
    {
        self.hole_index = Some(index);
    }
}

} // verus!
