//! The states a square of the play-field can be in.

use vstd::prelude::*;

verus! {

/// One square of the play-field.
///
/// `Wall`, `Open` and `Marked` are the states of an interior square while
/// corridors are being carved. The four corners and two edges make up the
/// border ring. `OpenFinal` and `WallFinal` are the two states left once the
/// grid has been relabelled for display.
#[derive(Clone, Copy, Debug, PartialEq, Eq, Hash, Structural)]
pub enum Cell {
    /// An interior square that no corridor has touched.
    Wall,
    /// A square that a corridor runs through.
    Open,
    /// A square next to a corridor that is not itself part of one.
    Marked,
    /// The corner at row 0, column 0.
    TopLeft,
    /// The corner at row 0, last column.
    TopRight,
    /// The corner at the last row, column 0.
    BottomLeft,
    /// The corner at the last row, last column.
    BottomRight,
    /// A square of the top or bottom edge.
    Horizontal,
    /// A square of the left or right edge.
    Vertical,
    /// The display state of a square beside a corridor.
    OpenFinal,
    /// The display state of a corridor square and of an untouched wall.
    WallFinal,
}

impl Cell {
    /// Whether the cell is one of the six border-ring states.
    pub open spec fn is_border(self) -> bool {
        self == Cell::TopLeft || self == Cell::TopRight || self == Cell::BottomLeft
            || self == Cell::BottomRight || self == Cell::Horizontal || self == Cell::Vertical
    }

    /// Whether the cell is one of the three states used while carving.
    pub open spec fn is_working(self) -> bool {
        self == Cell::Wall || self == Cell::Open || self == Cell::Marked
    }

    /// Whether the cell is one of the two display states.
    pub open spec fn is_final(self) -> bool {
        self == Cell::OpenFinal || self == Cell::WallFinal
    }

    /// What a cell becomes when a corridor passes next to it: an untouched
    /// wall is flagged, every other state stays.
    pub open spec fn flagged(self) -> Cell {
        if self == Cell::Wall {
            Cell::Marked
        } else {
            self
        }
    }

    /// The display state of a cell. A square beside a corridor becomes
    /// `OpenFinal`; a corridor square and an untouched wall both become
    /// `WallFinal`. Border and display states stay as they are.
    pub open spec fn relabelled(self) -> Cell {
        match self {
            Cell::Wall => Cell::WallFinal,
            Cell::Open => Cell::WallFinal,
            Cell::Marked => Cell::OpenFinal,
            other => other,
        }
    }

    /// The character a cell is drawn with. `OpenFinal` is drawn as `X`, like
    /// the flagged square it comes from, and `WallFinal` as a blank, like a
    /// corridor square: on the screen, relabelling blanks the untouched walls
    /// and changes nothing else.
    pub open spec fn glyph_of(self) -> char {
        match self {
            Cell::Wall => 'O',
            Cell::Open => ' ',
            Cell::Marked => 'X',
            Cell::TopLeft => '┌',
            Cell::TopRight => '┐',
            Cell::BottomLeft => '└',
            Cell::BottomRight => '┘',
            Cell::Horizontal => '─',
            Cell::Vertical => '│',
            Cell::OpenFinal => 'X',
            Cell::WallFinal => ' ',
        }
    }

    /// Returns the character the cell is drawn with.
    pub fn glyph(self) -> (c: char)
        ensures
            c == self.glyph_of(),
    {
        match self {
            Cell::Wall => 'O',
            Cell::Open => ' ',
            Cell::Marked => 'X',
            Cell::TopLeft => '┌',
            Cell::TopRight => '┐',
            Cell::BottomLeft => '└',
            Cell::BottomRight => '┘',
            Cell::Horizontal => '─',
            Cell::Vertical => '│',
            Cell::OpenFinal => 'X',
            Cell::WallFinal => ' ',
        }
    }
}

/// Relabelling is defined on each of the three carving states and yields one
/// of the two display states; a display state or a border state is left as
/// it is.
pub proof fn lemma_relabelled_is_final(c: Cell)
    ensures
        c.is_working() ==> c.relabelled().is_final(),
        c == Cell::Wall ==> c.relabelled() == Cell::WallFinal,
        c == Cell::Open ==> c.relabelled() == Cell::WallFinal,
        c == Cell::Marked ==> c.relabelled() == Cell::OpenFinal,
        !c.is_working() ==> c.relabelled() == c,
{
}

} // verus!
