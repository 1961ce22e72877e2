use vstd::prelude::*;
use crate::capabilities::{TileMatrixSet, TileMatrixV};
use crate::errors::NavigationError;
use crate::text::{dec_seq, u32_to_string};

verus! {

/// One quarter of the current tile, split by its vertical and horizontal
/// midlines; zooming in descends into the chosen quarter's child tile.
#[derive(Clone, Copy, Debug, PartialEq, Eq, Structural)]
pub enum Quadrant {
    NorthWest,
    NorthEast,
    SouthWest,
    SouthEast,
}

/// A step to an adjacent tile at the same zoom level.
#[derive(Clone, Copy, Debug, PartialEq, Eq, Structural)]
pub enum Direction {
    Up,
    Down,
    Left,
    Right,
}

/// The row a quadrant adds to the doubled cursor row.
pub open spec fn quadrant_row_offset(q: Quadrant) -> int {
    match q {
        Quadrant::NorthWest | Quadrant::NorthEast => 0,
        Quadrant::SouthWest | Quadrant::SouthEast => 1,
    }
}

/// The column a quadrant adds to the doubled cursor column.
pub open spec fn quadrant_col_offset(q: Quadrant) -> int {
    match q {
        Quadrant::NorthWest | Quadrant::SouthWest => 0,
        Quadrant::NorthEast | Quadrant::SouthEast => 1,
    }
}

/// The quad-tree cursor: the zoom level (whose matrix identifier is the
/// level's decimal text) and the 0-based row and column of the shown tile.
#[derive(Clone, Copy, Debug, PartialEq, Eq, Structural)]
pub struct NavigationState {
    pub level: u32,
    pub current_row: u32,
    pub current_column: u32,
}

/// The identifier text under which a level's matrix is looked up.
pub open spec fn matrix_key(level: u32) -> Seq<char> {
    dec_seq(level as nat)
}

/// Where zooming in takes the cursor: one level down, the coordinate doubled
/// and offset by the quadrant. It fails, and the cursor stands, when the next
/// level has no matrix or the child coordinate lies outside its grid.
pub open spec fn spec_zoom_in(
    s: NavigationState,
    q: Quadrant,
    ms: Map<Seq<char>, TileMatrixV>,
) -> Result<NavigationState, NavigationError> {
    let nr = 2 * (s.current_row as int) + quadrant_row_offset(q);
    let nc = 2 * (s.current_column as int) + quadrant_col_offset(q);
    if s.level == u32::MAX || nr > u32::MAX || nc > u32::MAX {
        Err(NavigationError::OutOfBounds)
    } else {
        let key = matrix_key((s.level + 1) as u32);
        if !ms.contains_key(key) {
            Err(NavigationError::OutOfBounds)
        } else if nr < ms[key].matrix_height && nc < ms[key].matrix_width {
            Ok(
                NavigationState {
                    level: (s.level + 1) as u32,
                    current_row: nr as u32,
                    current_column: nc as u32,
                },
            )
        } else {
            Err(NavigationError::OutOfBounds)
        }
    }
}

/// Where zooming out takes the cursor: one level up, the coordinate halved
/// (floor). At level 0 it fails with `AtBottomLevel`; it fails with
/// `OutOfBounds` when the coarser level has no matrix or the parent
/// coordinate lies outside its grid.
pub open spec fn spec_zoom_out(s: NavigationState, ms: Map<Seq<char>, TileMatrixV>) -> Result<
    NavigationState,
    NavigationError,
> {
    if s.level == 0 {
        Err(NavigationError::AtBottomLevel)
    } else {
        let key = matrix_key((s.level - 1) as u32);
        let nr = s.current_row as int / 2;
        let nc = s.current_column as int / 2;
        if !ms.contains_key(key) {
            Err(NavigationError::OutOfBounds)
        } else if nr < ms[key].matrix_height && nc < ms[key].matrix_width {
            Ok(
                NavigationState {
                    level: (s.level - 1) as u32,
                    current_row: nr as u32,
                    current_column: nc as u32,
                },
            )
        } else {
            Err(NavigationError::OutOfBounds)
        }
    }
}

/// Where panning takes the cursor: one tile over at the same level. It fails,
/// and the cursor stands, when the step would leave the matrix's grid on any
/// side, or the level has no matrix.
pub open spec fn spec_pan(
    s: NavigationState,
    d: Direction,
    ms: Map<Seq<char>, TileMatrixV>,
) -> Result<NavigationState, NavigationError> {
    let nr = s.current_row as int + (match d {
        Direction::Up => -1,
        Direction::Down => 1,
        _ => 0,
    });
    let nc = s.current_column as int + (match d {
        Direction::Left => -1,
        Direction::Right => 1,
        _ => 0,
    });
    if nr < 0 || nc < 0 || nr > u32::MAX || nc > u32::MAX {
        Err(NavigationError::OutOfBounds)
    } else {
        let key = matrix_key(s.level);
        if !ms.contains_key(key) {
            Err(NavigationError::OutOfBounds)
        } else if nr < ms[key].matrix_height && nc < ms[key].matrix_width {
            Ok(NavigationState { level: s.level, current_row: nr as u32, current_column: nc as u32 })
        } else {
            Err(NavigationError::OutOfBounds)
        }
    }
}

impl NavigationState {
    /// The initial cursor: matrix "0", row 0, column 0.
    pub fn new() -> (r: NavigationState)
        ensures
            r == (NavigationState { level: 0u32, current_row: 0u32, current_column: 0u32 }),
    {
        NavigationState { level: 0, current_row: 0, current_column: 0 }
    }

    /// The identifier of the current matrix, as decimal text.
    pub fn current_matrix_id(&self) -> (r: String)
        ensures
            r@ == matrix_key(self.level),
    {
        u32_to_string(self.level)
    }

    /// Descends into the chosen quadrant's child tile. On failure the cursor
    /// is unchanged.
    pub fn zoom_in(&mut self, q: Quadrant, set: &TileMatrixSet) -> (r: Result<
        (),
        NavigationError,
    >)
        ensures
            (match spec_zoom_in(*old(self), q, set@) {
                Ok(s2) => r is Ok && *final(self) == s2,
                Err(e) => r == Err::<(), NavigationError>(e) && *final(self) == *old(self),
            }),
    {
        if self.level == u32::MAX {
            return Err(NavigationError::OutOfBounds);
        }
        let (ro, co): (u32, u32) = match q {
            Quadrant::NorthWest => (0, 0),
            Quadrant::NorthEast => (0, 1),
            Quadrant::SouthWest => (1, 0),
            Quadrant::SouthEast => (1, 1),
        };
        let nr64: u64 = 2 * (self.current_row as u64) + (ro as u64);
        let nc64: u64 = 2 * (self.current_column as u64) + (co as u64);
        if nr64 > u32::MAX as u64 || nc64 > u32::MAX as u64 {
            return Err(NavigationError::OutOfBounds);
        }
        let id = u32_to_string(self.level + 1);
        match set.get(id.as_str()) {
            None => Err(NavigationError::OutOfBounds),
            Some(m) => {
                let nr = nr64 as u32;
                let nc = nc64 as u32;
                if nr < m.matrix_height && nc < m.matrix_width {
                    self.level = self.level + 1;
                    self.current_row = nr;
                    self.current_column = nc;
                    Ok(())
                } else {
                    Err(NavigationError::OutOfBounds)
                }
            },
        }
    }

    /// Climbs to the parent tile one level up. On failure the cursor is
    /// unchanged.
    pub fn zoom_out(&mut self, set: &TileMatrixSet) -> (r: Result<(), NavigationError>)
        ensures
            (match spec_zoom_out(*old(self), set@) {
                Ok(s2) => r is Ok && *final(self) == s2,
                Err(e) => r == Err::<(), NavigationError>(e) && *final(self) == *old(self),
            }),
    {
        if self.level == 0 {
            return Err(NavigationError::AtBottomLevel);
        }
        let id = u32_to_string(self.level - 1);
        let nr = self.current_row / 2;
        let nc = self.current_column / 2;
        match set.get(id.as_str()) {
            None => Err(NavigationError::OutOfBounds),
            Some(m) => {
                if nr < m.matrix_height && nc < m.matrix_width {
                    self.level = self.level - 1;
                    self.current_row = nr;
                    self.current_column = nc;
                    Ok(())
                } else {
                    Err(NavigationError::OutOfBounds)
                }
            },
        }
    }

    /// Moves to the adjacent tile in the given direction. On failure the
    /// cursor is unchanged.
    pub fn pan(&mut self, d: Direction, set: &TileMatrixSet) -> (r: Result<(), NavigationError>)
        ensures
            (match spec_pan(*old(self), d, set@) {
                Ok(s2) => r is Ok && *final(self) == s2,
                Err(e) => r == Err::<(), NavigationError>(e) && *final(self) == *old(self),
            }),
    {
        let nr: u32 = match d {
            Direction::Up => {
                if self.current_row == 0 {
                    return Err(NavigationError::OutOfBounds);
                }
                self.current_row - 1
            },
            Direction::Down => {
                if self.current_row == u32::MAX {
                    return Err(NavigationError::OutOfBounds);
                }
                self.current_row + 1
            },
            _ => self.current_row,
        };
        let nc: u32 = match d {
            Direction::Left => {
                if self.current_column == 0 {
                    return Err(NavigationError::OutOfBounds);
                }
                self.current_column - 1
            },
            Direction::Right => {
                if self.current_column == u32::MAX {
                    return Err(NavigationError::OutOfBounds);
                }
                self.current_column + 1
            },
            _ => self.current_column,
        };
        let id = u32_to_string(self.level);
        match set.get(id.as_str()) {
            None => Err(NavigationError::OutOfBounds),
            Some(m) => {
                if nr < m.matrix_height && nc < m.matrix_width {
                    self.current_row = nr;
                    self.current_column = nc;
                    Ok(())
                } else {
                    Err(NavigationError::OutOfBounds)
                }
            },
        }
    }
}

/// Zooming in from a cursor that lies inside its matrix's grid and then
/// zooming out returns exactly the original cursor: the doubled-and-offset
/// coordinate halves back, and the original level's matrix still holds it.
pub proof fn lemma_zoom_in_then_out(
    s: NavigationState,
    q: Quadrant,
    ms: Map<Seq<char>, TileMatrixV>,
    s1: NavigationState,
)
    requires
        spec_zoom_in(s, q, ms) == Ok::<NavigationState, NavigationError>(s1),
        ms.contains_key(matrix_key(s.level)),
        s.current_row < ms[matrix_key(s.level)].matrix_height,
        s.current_column < ms[matrix_key(s.level)].matrix_width,
    ensures
        spec_zoom_out(s1, ms) == Ok::<NavigationState, NavigationError>(s),
{
    assert((2 * (s.current_row as int) + quadrant_row_offset(q)) / 2 == s.current_row as int);
    assert((2 * (s.current_column as int) + quadrant_col_offset(q)) / 2 == s.current_column as int);
}

/// Zooming out at matrix "0" fails with `AtBottomLevel`, whatever the set of
/// matrices; the cursor is left unchanged by the exec transition.
pub proof fn lemma_zoom_out_at_bottom(s: NavigationState, ms: Map<Seq<char>, TileMatrixV>)
    requires
        s.level == 0,
    ensures
        spec_zoom_out(s, ms) == Err::<NavigationState, NavigationError>(
            NavigationError::AtBottomLevel,
        ),
{
}

/// Panning up at row 0 fails with `OutOfBounds`, whatever the set of
/// matrices; the cursor is left unchanged by the exec transition.
pub proof fn lemma_pan_up_at_row_zero(s: NavigationState, ms: Map<Seq<char>, TileMatrixV>)
    requires
        s.current_row == 0,
    ensures
        spec_pan(s, Direction::Up, ms) == Err::<NavigationState, NavigationError>(
            NavigationError::OutOfBounds,
        ),
{
}

} // verus!
