//! Placed words on an integer grid and their bounding-box geometry.

use vstd::prelude::*;

verus! {

/// Axis a word extends along: `Right` grows towards +x, `Down` towards +y.
#[derive(Clone, Copy, Debug, PartialEq, Eq, Structural)]
pub enum Direction {
    Right,
    Down,
}

/// A grid cell coordinate. The grid is unbounded within the `i16` range.
#[derive(Clone, Copy, Debug, PartialEq, Eq, Structural)]
pub struct Position {
    pub x: i16,
    pub y: i16,
}

/// A word placed on the grid: it occupies `value.len()` consecutive cells
/// starting at `position`, extending along `direction`.
#[derive(Clone, Debug)]
pub struct PlacedWord {
    pub position: Position,
    pub direction: Direction,
    pub value: Vec<char>,
}

impl PlacedWord {
    /// Number of cells the word occupies.
    pub open spec fn spec_len(self) -> int {
        self.value@.len() as int
    }

    /// Left edge of the word's bounding box.
    pub open spec fn box_x(self) -> int {
        self.position.x as int
    }

    /// Top edge of the word's bounding box.
    pub open spec fn box_y(self) -> int {
        self.position.y as int
    }

    /// Width of the word's bounding box.
    pub open spec fn box_w(self) -> int {
        match self.direction {
            Direction::Right => self.spec_len(),
            Direction::Down => 1,
        }
    }

    /// Height of the word's bounding box.
    pub open spec fn box_h(self) -> int {
        match self.direction {
            Direction::Right => 1,
            Direction::Down => self.spec_len(),
        }
    }

    /// A word is valid when it has at least one character and every cell it
    /// occupies stays inside the `i16` coordinate range.
    pub open spec fn valid(self) -> bool {
        &&& self.spec_len() >= 1
        &&& self.box_x() + self.box_w() <= i16::MAX + 1
        &&& self.box_y() + self.box_h() <= i16::MAX + 1
    }

    /// x coordinate of the cell holding the character at offset `i`.
    pub open spec fn cell_x(self, i: int) -> int {
        match self.direction {
            Direction::Right => self.box_x() + i,
            Direction::Down => self.box_x(),
        }
    }

    /// y coordinate of the cell holding the character at offset `i`.
    pub open spec fn cell_y(self, i: int) -> int {
        match self.direction {
            Direction::Right => self.box_y(),
            Direction::Down => self.box_y() + i,
        }
    }

    /// A word from its characters, start position and direction.
    pub fn new(value: Vec<char>, position: Position, direction: Direction) -> (w: PlacedWord)
        ensures
            w.value == value,
            w.position == position,
            w.direction == direction,
    {
        PlacedWord { position, direction, value }
    }

    /// Checks validity; `analyze` rejects invalid words up front.
    pub fn is_valid(&self) -> (r: bool)
        ensures
            r == self.valid(),
    {
        let n = self.value.len();
        if n == 0 {
            return false;
        }
        if n > 65536 {
            return false;
        }
        let x = self.position.x as i64;
        let y = self.position.y as i64;
        let len = n as i64;
        match self.direction {
            Direction::Right => x + len <= i16::MAX as i64 + 1,
            Direction::Down => y + len <= i16::MAX as i64 + 1,
        }
    }

    /// The cell holding the character at offset `i`.
    pub fn cell(&self, i: usize) -> (p: Position)
        requires
            self.valid(),
            i < self.value@.len(),
        ensures
            p.x == self.cell_x(i as int),
            p.y == self.cell_y(i as int),
    {
        match self.direction {
            Direction::Right => {
                let x = self.position.x as i32 + i as i32;
                assert(i16::MIN <= x <= i16::MAX);
                Position { x: x as i16, y: self.position.y }
            },
            Direction::Down => {
                let y = self.position.y as i32 + i as i32;
                assert(i16::MIN <= y <= i16::MAX);
                Position { x: self.position.x, y: y as i16 }
            },
        }
    }
}

/// Size of the gap between the x-projections of the two words' bounding
/// boxes: negative when the projections strictly overlap, `0` when the boxes
/// touch edge to edge, `k > 0` when `k` empty columns separate them.
pub open spec fn gap_x(a: PlacedWord, b: PlacedWord) -> int {
    vstd::math::max(a.box_x(), b.box_x()) - vstd::math::min(
        a.box_x() + a.box_w(),
        b.box_x() + b.box_w(),
    )
}

/// Size of the gap between the y-projections of the two words' bounding
/// boxes, with the same sign convention as [`gap_x`].
pub open spec fn gap_y(a: PlacedWord, b: PlacedWord) -> int {
    vstd::math::max(a.box_y(), b.box_y()) - vstd::math::min(
        a.box_y() + a.box_h(),
        b.box_y() + b.box_h(),
    )
}

} // verus!
