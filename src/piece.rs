//! A piece: its kind, skin, origin on the board and orientation.
use vstd::prelude::*;
use crate::rotation::{RotationSystem, PIECE_KINDS};

verus! {

#[derive(Clone, Copy, Debug, PartialEq, Eq)]
pub struct Piece {
    pub id: usize,
    pub color: u8,
    pub position: (isize, isize),
    pub rotation: usize,
}

/// Where a piece of kind `id` enters a board of the given size: centred, just
/// above the visible rows, moved by the kind's spawn offset.
pub open spec fn spawn_position(rs: RotationSystem, id: int, board_width: int, board_height: int) -> (int, int) {
    (
        board_width / 2 - 2 + rs.spawn_offsets@[id].0,
        board_height + rs.height_offset + rs.spawn_offsets@[id].1,
    )
}

/// A fresh piece of kind `id` in its spawn pose.
pub open spec fn spawn_piece(rs: RotationSystem, id: int, board_width: int, board_height: int) -> Piece {
    Piece {
        id: id as usize,
        color: rs.colours@[id],
        position: (
            spawn_position(rs, id, board_width, board_height).0 as isize,
            spawn_position(rs, id, board_width, board_height).1 as isize,
        ),
        rotation: 0,
    }
}

/// Each piece of `s` is a fresh piece of a kind of the rotation system.
pub open spec fn spawn_pieces(rs: RotationSystem, board_width: int, board_height: int, s: Seq<Piece>) -> bool {
    forall|i: int|
        0 <= i < s.len() ==> (#[trigger] s[i]).id < PIECE_KINDS && s[i] == spawn_piece(
            rs,
            s[i].id as int,
            board_width,
            board_height,
        )
}

impl Piece {
    pub fn create(pieces_data: &RotationSystem, id: usize, board_width: u8, board_height: u8) -> (r: Piece)
        requires
            pieces_data.wf(),
            id < PIECE_KINDS,
        ensures
            r == spawn_piece(*pieces_data, id as int, board_width as int, board_height as int),
    {
        let offset = pieces_data.spawn_offsets[id];
        let x: isize = board_width as isize / 2 - 2 + offset.0 as isize;
        let y: isize = board_height as isize + pieces_data.height_offset as isize + offset.1 as isize;
        Piece { id, color: pieces_data.colours[id], position: (x, y), rotation: 0 }
    }
}

} // verus!
