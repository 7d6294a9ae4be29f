use vstd::prelude::*;

verus! {

/// One cell of the toroidal world: alive or dead.
///
/// A cell serializes to a single byte: 255 for alive, 0 for dead. Decoding is
/// lenient: any byte other than 255 reads back as a dead cell.
#[derive(Debug, Clone, Copy, PartialEq, Eq, Structural)]
pub enum CellValue {
    Alive,
    Dead,
}

impl CellValue {
    /// The byte this cell serializes to: 255 for alive, 0 for dead.
    pub open spec fn spec_to_byte(self) -> u8 {
        if self is Alive {
            255
        } else {
            0
        }
    }

    #[verifier::when_used_as_spec(spec_to_byte)]
    pub fn to_byte(self) -> (b: u8)
        ensures
            b == self.spec_to_byte(),
    {
        match self {
            CellValue::Alive => 255,
            CellValue::Dead => 0,
        }
    }

    /// The lenient decoding of one byte: 255 is alive, everything else is dead.
    pub open spec fn spec_from_byte(b: u8) -> CellValue {
        if b == 255 {
            CellValue::Alive
        } else {
            CellValue::Dead
        }
    }

    pub fn is_alive(&self) -> (r: bool)
        ensures
            r == (*self is Alive),
    {
        matches!(self, CellValue::Alive)
    }

    pub fn is_dead(&self) -> (r: bool)
        ensures
            r == (*self is Dead),
    {
        matches!(self, CellValue::Dead)
    }
}

impl From<u8> for CellValue {
    fn from(b: u8) -> (r: Self) {
        if b == 255 {
            CellValue::Alive
        } else {
            CellValue::Dead
        }
    }
}

impl vstd::std_specs::convert::FromSpecImpl<u8> for CellValue {
    open spec fn obeys_from_spec() -> bool {
        true
    }

    open spec fn from_spec(b: u8) -> Self {
        CellValue::spec_from_byte(b)
    }
}

impl View for CellValue {
    type V = CellValue;

    open spec fn view(&self) -> CellValue {
        *self
    }
}

impl DeepView for CellValue {
    type V = CellValue;

    open spec fn deep_view(&self) -> CellValue {
        *self
    }
}

/// Serializing a cell and reading the byte back yields the same cell, for both
/// cell values.
pub proof fn lemma_cell_byte_round_trip(c: CellValue)
    ensures
        CellValue::spec_from_byte(c.spec_to_byte()) == c,
{
}

/// The coordinate of a cell in the world: column `x`, row `y`.
#[derive(Debug, Clone, Copy, PartialEq, Eq, Structural)]
pub struct CellCoord {
    pub x: usize,
    pub y: usize,
}

impl View for CellCoord {
    type V = CellCoord;

    open spec fn view(&self) -> CellCoord {
        *self
    }
}

impl DeepView for CellCoord {
    type V = CellCoord;

    open spec fn deep_view(&self) -> CellCoord {
        *self
    }
}

impl CellCoord {
    /// Create a new cell coordinate.
    pub fn new(x: usize, y: usize) -> (c: Self)
        ensures
            c.x == x,
            c.y == y,
    {
        CellCoord { x, y }
    }
}

} // verus!
