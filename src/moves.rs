use vstd::prelude::*;

pub mod placable;
pub mod promotable;

pub use placable::Placable;
pub use promotable::Promotable;

use vstd::string::StrSliceExecFns;

verus! {

/// A pair of file and rank offsets, unbounded (unlike `Square`).
#[derive(Clone, Copy, PartialEq, Eq, Debug, Structural)]
pub struct Position {
    pub file: i32,
    pub rank: i32,
}

/// What `Position::from_str` reads from two characters: the file counted from
/// `A`, the rank counted down from `8`.
pub open spec fn parse_position(t: Seq<char>) -> Option<Position> {
    if t.len() == 2 {
        Some(
            Position {
                file: ((t[0] as u32) as int - 'A' as u32) as i32,
                rank: ('8' as u32 - (t[1] as u32) as int) as i32,
            },
        )
    } else {
        None
    }
}

impl Position {
    pub fn from_tuple(pos: (i32, i32)) -> (r: Position)
        ensures
            r == (Position { file: pos.0, rank: pos.1 }),
    {
        Position { file: pos.0, rank: pos.1 }
    }

    /// Reads a position from exactly two characters; none for any other length.
    pub fn from_str(pos: &str) -> (r: Option<Position>)
        ensures
            r == parse_position(pos@),
    {
        if pos.unicode_len() != 2 {
            return None;
        }
        let file = pos.get_char(0);
        let rank = pos.get_char(1);
        let file_code = (file as u32) as i32;
        let rank_code = (rank as u32) as i32;
        Some(Position { file: file_code - 'A' as i32, rank: '8' as i32 - rank_code })
    }

    pub fn get_file(&self) -> (r: i32)
        ensures
            r == self.file,
    {
        self.file
    }

    pub fn get_rank(&self) -> (r: i32)
        ensures
            r == self.rank,
    {
        self.rank
    }
}

impl std::ops::Add for Position {
    type Output = Position;

    fn add(self, rhs: Position) -> (r: Position) {
        Position { file: self.file + rhs.file, rank: self.rank + rhs.rank }
    }
}

impl vstd::std_specs::ops::AddSpecImpl for Position {
    open spec fn obeys_add_spec() -> bool {
        true
    }

    /// Both sums fit in an `i32`.
    open spec fn add_req(self, rhs: Position) -> bool {
        i32::MIN <= self.file + rhs.file <= i32::MAX && i32::MIN <= self.rank + rhs.rank <= i32::MAX
    }

    open spec fn add_spec(self, rhs: Position) -> Position {
        Position { file: (self.file + rhs.file) as i32, rank: (self.rank + rhs.rank) as i32 }
    }
}

impl std::ops::Sub for Position {
    type Output = Position;

    fn sub(self, rhs: Position) -> (r: Position) {
        Position { file: self.file - rhs.file, rank: self.rank - rhs.rank }
    }
}

impl vstd::std_specs::ops::SubSpecImpl for Position {
    open spec fn obeys_sub_spec() -> bool {
        true
    }

    /// Both differences fit in an `i32`.
    open spec fn sub_req(self, rhs: Position) -> bool {
        i32::MIN <= self.file - rhs.file <= i32::MAX && i32::MIN <= self.rank - rhs.rank <= i32::MAX
    }

    open spec fn sub_spec(self, rhs: Position) -> Position {
        Position { file: (self.file - rhs.file) as i32, rank: (self.rank - rhs.rank) as i32 }
    }
}

} // verus!
