//! The game state and its rules: the active piece's moves, rotations, drops,
//! hold and spawn, gravity and lock delay, locking and line clearing.
use vstd::prelude::*;
use vstd::string::StringSliceAdditionalSpecFns;
use crate::board::{
    Board, Mino, POSITION_LIMIT, covers, fits_at, lowest_y, fall, fall_budget, lemma_fit_bounds,
    lemma_fall_rests, lemma_lowest_rests,
};
use crate::handling::Handling;
use crate::piece::{Piece, spawn_piece, spawn_pieces};
use crate::randomizers::{Bag, Randomizer};
use crate::rotation::{RotationSystem, LockDelayMode, PIECE_KINDS, ORIENTATIONS};

verus! {

/// Gravity is counted in parts of a cell: this many make one cell.
pub const GRAVITY_UNIT: u64 = 3600;

/// From this gravity on (20 cells per tick), a new piece appears at its lowest row.
pub const INSTANT_GRAVITY: u32 = 72000;

/// The next queue never grows past this length.
pub const QUEUE_LIMIT: usize = 1024;

#[derive(Clone, Copy, Debug, PartialEq, Eq, Structural)]
pub enum GameStates {
    Init,
    Gameplay,
    Pause,
    GameOver,
}

#[derive(Clone, Copy, Debug, PartialEq, Eq, Structural)]
pub enum GameloopStates {
    Init,
    Spawn,
    Falling,
    AfterLocking,
}

pub struct Engine {
    pub current_piece: Option<Piece>,
    pub board: Board,
    pub handling: Handling,
    pub rotation_system: RotationSystem,
    pub randomizer: Randomizer,
    /// Front first: the next piece to enter.
    pub next_queue: Vec<Piece>,
    pub hold: Option<Piece>,
    /// Hold has not been used since the last spawn.
    pub can_hold: bool,
    /// The game allows hold at all.
    pub hold_enabled: bool,
    /// Gravity in parts of a cell per tick (see `GRAVITY_UNIT`).
    pub gravity: u32,
    /// Gravity gathered and not yet spent on falls.
    pub g_bucket: u64,
    pub lock_delay: u8,
    pub lock_delay_left: u8,
    pub lock_delay_resets: u8,
    pub lock_delay_resets_left: u8,
    /// The piece rested at the end of the last tick.
    pub lock_delay_active: bool,
    /// The lock delay policy asks for the piece to lock as soon as it rests.
    pub need_to_lock: bool,
    /// Ticks between a lock and the next spawn.
    pub spawn_delay: u8,
    pub spawn_delay_left: u8,
    pub state: GameStates,
    pub gameloop_state: GameloopStates,
}

/// A piece of a known kind and orientation, with its origin near the board.
pub open spec fn piece_ok(p: Piece) -> bool {
    &&& p.id < PIECE_KINDS
    &&& p.rotation < ORIENTATIONS
    &&& -POSITION_LIMIT <= p.position.0 <= POSITION_LIMIT
    &&& -POSITION_LIMIT <= p.position.1 <= POSITION_LIMIT
}

/// `p` moved by `offset`.
pub open spec fn shifted(p: (isize, isize), dx: int, dy: int) -> (isize, isize) {
    ((p.0 + dx) as isize, (p.1 + dy) as isize)
}

impl Engine {
    pub open spec fn piece_cells(&self, p: Piece) -> Seq<(i8, i8)> {
        self.rotation_system.cells(p.id as int, p.rotation as int)
    }

    /// The active piece, turned to `rotation` with its origin at `position`,
    /// lies on the board over free cells only.
    pub open spec fn valid_at(&self, position: (isize, isize), rotation: usize) -> bool {
        match self.current_piece {
            Some(p) => {
                &&& rotation < ORIENTATIONS
                &&& fits_at(
                    self.board.board@,
                    self.rotation_system.cells(p.id as int, rotation as int),
                    position.0 as int,
                    position.1 as int,
                )
            },
            None => false,
        }
    }

    /// The active piece cannot move one row down.
    pub open spec fn resting(&self) -> bool {
        match self.current_piece {
            Some(p) => !self.valid_at(shifted(p.position, 0, -1), p.rotation),
            None => false,
        }
    }

    /// `p` fits where it stands on this board.
    pub open spec fn fits_piece(&self, p: Piece) -> bool {
        fits_at(self.board.board@, self.piece_cells(p), p.position.0 as int, p.position.1 as int)
    }

    pub open spec fn wf(&self) -> bool {
        &&& self.board.wf()
        &&& self.rotation_system.wf()
        &&& self.handling.wf()
        &&& self.randomizer.wf()
        &&& self.current_piece matches Some(p) ==> piece_ok(p) && self.fits_piece(p)
        &&& self.hold matches Some(p) ==> piece_ok(p)
        &&& self.next_queue@.len() <= QUEUE_LIMIT
        &&& forall|i: int| 0 <= i < self.next_queue@.len() ==> piece_ok(#[trigger] self.next_queue@[i])
        &&& self.g_bucket < GRAVITY_UNIT
    }

    /// The state with `p` as the active piece.
    pub open spec fn with_piece(self, p: Piece) -> Engine {
        Engine { current_piece: Some(p), ..self }
    }

    /// The lock delay policy applied after a sideways move or a rotation.
    pub open spec fn after_lock_reset(self) -> Engine {
        match self.rotation_system.lock_delay_mode {
            LockDelayMode::Gravity => if !self.resting() {
                Engine { lock_delay_active: false, ..self }
            } else {
                self
            },
            LockDelayMode::ResetOnMovementLimited => if self.resting() {
                if self.lock_delay_resets_left == 0 {
                    Engine { lock_delay_left: self.lock_delay, need_to_lock: true, ..self }
                } else {
                    Engine {
                        lock_delay_left: self.lock_delay,
                        lock_delay_resets_left: (self.lock_delay_resets_left - 1) as u8,
                        lock_delay_active: false,
                        ..self
                    }
                }
            } else {
                self
            },
            LockDelayMode::ResetOnMovement => if self.resting() {
                Engine { lock_delay_left: self.lock_delay, lock_delay_active: false, ..self }
            } else {
                self
            },
            _ => self,
        }
    }

    /// The state and result of `move_current_piece(shift)`.
    pub open spec fn moved(self, shift: (i8, i8)) -> (Engine, bool) {
        match self.current_piece {
            Some(p) => if shift.0 == 0 && shift.1 == 0 {
                (self, true)
            } else {
                let target = shifted(p.position, shift.0 as int, shift.1 as int);
                if self.valid_at(target, p.rotation) {
                    let next = self.with_piece(Piece { position: target, ..p });
                    (if shift.0 != 0 {
                        next.after_lock_reset()
                    } else {
                        next
                    }, true)
                } else {
                    (self, false)
                }
            },
            None => (self, true),
        }
    }

    /// The index of the first kick candidate, from `i` on, at which the active
    /// piece fits turned to `rotation`; the list's length if there is none.
    pub open spec fn kick_index(self, kicks: Seq<(i8, i8)>, rotation: usize, i: int) -> int
        decreases kicks.len() - i,
    {
        if i < 0 || i >= kicks.len() {
            kicks.len() as int
        } else {
            match self.current_piece {
                Some(p) => if self.valid_at(shifted(p.position, kicks[i].0 as int, kicks[i].1 as int), rotation) {
                    i
                } else {
                    self.kick_index(kicks, rotation, i + 1)
                },
                None => kicks.len() as int,
            }
        }
    }

    /// The orientation that the active piece turns to in `direction`.
    pub open spec fn target_rotation(p: Piece, direction: i8) -> usize {
        ((p.rotation + direction + ORIENTATIONS) % ORIENTATIONS as int) as usize
    }

    /// The kick candidates of the active piece for a turn in `direction`.
    pub open spec fn kicks_for(self, p: Piece, direction: i8) -> Seq<(i8, i8)> {
        self.rotation_system.kick_list(
            p.id as int,
            p.rotation as int,
            if direction == 1 {
                0
            } else {
                1
            },
        )
    }

    /// The state and result of `rotate_current_piece(direction)`.
    pub open spec fn rotated(self, direction: i8) -> (Engine, bool) {
        match self.current_piece {
            Some(p) => {
                let rotation = Engine::target_rotation(p, direction);
                let kicks = self.kicks_for(p, direction);
                let k = self.kick_index(kicks, rotation, 0);
                if k < kicks.len() {
                    (
                        self.with_piece(
                            Piece {
                                rotation,
                                position: shifted(p.position, kicks[k].0 as int, kicks[k].1 as int),
                                ..p
                            },
                        ).after_lock_reset(),
                        true,
                    )
                } else {
                    (self, false)
                }
            },
            None => (self, false),
        }
    }

    /// The lowest row that the active piece reaches by falling.
    pub open spec fn lowest_row(self) -> int {
        match self.current_piece {
            Some(p) => lowest_y(self.board.board@, self.piece_cells(p), p.position.0 as int, p.position.1 as int),
            None => 0,
        }
    }

    /// The active piece moved straight down to its lowest row.
    pub open spec fn at_lowest(self) -> Engine {
        match self.current_piece {
            Some(p) => self.with_piece(Piece { position: (p.position.0, self.lowest_row() as isize), ..p }),
            None => self,
        }
    }

    /// The state and result of `sonic_drop()`.
    pub open spec fn dropped(self) -> (Engine, bool) {
        match self.current_piece {
            Some(p) => if self.resting() {
                (self, false)
            } else {
                (self.at_lowest(), true)
            },
            None => (self, false),
        }
    }

    /// `after` is `before` with its active piece written into the board in its
    /// skin, no active piece, and no lock asked for.
    pub open spec fn locked(before: Engine, after: Engine) -> bool {
        match before.current_piece {
            Some(p) => {
                let cells = before.piece_cells(p);
                &&& after == Engine { board: after.board, current_piece: None, need_to_lock: false, ..before }
                &&& after.board.wf()
                &&& after.board.width == before.board.width
                &&& after.board.height == before.board.height
                &&& after.board.buffer_height == before.board.buffer_height
                &&& after.board.show_grid == before.board.show_grid
                &&& after.board.show_shadow == before.board.show_shadow
                &&& after.board.show_next == before.board.show_next
                &&& after.board.board@.len() == before.board.board@.len()
                &&& forall|y: int, x: int|
                    0 <= y < after.board.board@.len() && 0 <= x < after.board.width ==> (#[trigger] after.board.board@[y]@[x])
                        == if covers(cells, p.position.0 as int, p.position.1 as int, x, y) {
                        Some(Mino { color: before.rotation_system.colours@[p.id as int] })
                    } else {
                        before.board.board@[y]@[x]
                    }
            },
            None => false,
        }
    }
}

/// A state whose active piece fits stays well formed when the piece moves to
/// another place where it fits.
proof fn lemma_with_piece_wf(e: Engine, p: Piece)
    requires
        e.wf(),
        p.id < PIECE_KINDS,
        p.rotation < ORIENTATIONS,
        e.fits_piece(p),
    ensures
        e.with_piece(p).wf(),
        piece_ok(p),
{
    lemma_fit_bounds(e.board.board@, e.piece_cells(p), p.position.0 as int, p.position.1 as int);
}

proof fn lemma_lock_reset_wf(e: Engine)
    requires
        e.wf(),
    ensures
        e.after_lock_reset().wf(),
        e.after_lock_reset().current_piece == e.current_piece,
        e.after_lock_reset().board == e.board,
{
}

impl Engine {
    /// Whether the active piece, turned to `future_rotation` with its origin at
    /// `future_position`, lies on the board over free cells only; false when
    /// there is no active piece.
    pub fn position_is_valid(&self, future_position: (isize, isize), future_rotation: usize) -> (r: bool)
        requires
            self.wf(),
        ensures
            r == self.valid_at(future_position, future_rotation),
    {
        match self.current_piece {
            Some(p) => {
                if future_rotation >= ORIENTATIONS {
                    return false;
                }
                assert(crate::rotation::offsets_ok(self.rotation_system.cells(p.id as int, future_rotation as int)));
                self.board.fits(&self.rotation_system.pieces[p.id][future_rotation], future_position.0, future_position.1)
            },
            None => false,
        }
    }

    /// Whether the active piece rests: it cannot move one row down.
    pub fn is_resting(&self) -> (r: bool)
        requires
            self.wf(),
        ensures
            r == self.resting(),
    {
        match self.current_piece {
            Some(p) => !self.position_is_valid((p.position.0, p.position.1 - 1), p.rotation),
            None => false,
        }
    }

    /// Applies the lock delay policy after a sideways move or a rotation: while
    /// the piece rests, the countdown refills, within the allowance of resets
    /// where the policy limits them.
    fn reset_lock_delay(&mut self)
        requires
            old(self).wf(),
        ensures
            *final(self) == old(self).after_lock_reset(),
            final(self).wf(),
    {
        proof {
            lemma_lock_reset_wf(*self);
        }
        match self.rotation_system.lock_delay_mode {
            LockDelayMode::Disabled => {},
            LockDelayMode::Gravity => {
                if !self.is_resting() {
                    self.lock_delay_active = false;
                }
            },
            LockDelayMode::ResetOnYChange => {},
            LockDelayMode::ResetOnMovementLimited => {
                if self.is_resting() {
                    self.lock_delay_left = self.lock_delay;
                    if self.lock_delay_resets_left == 0 {
                        self.need_to_lock = true;
                    } else {
                        self.lock_delay_resets_left = self.lock_delay_resets_left - 1;
                        self.lock_delay_active = false;
                    }
                }
            },
            LockDelayMode::ResetOnMovement => {
                if self.is_resting() {
                    self.lock_delay_left = self.lock_delay;
                    self.lock_delay_active = false;
                }
            },
        }
    }

    /// Moves the active piece by `shift` if it fits there. A zero shift, or no
    /// active piece, succeeds without change; a sideways move applies the lock
    /// delay policy.
    pub fn move_current_piece(&mut self, shift: (i8, i8)) -> (r: bool)
        requires
            old(self).wf(),
        ensures
            final(self).wf(),
            (*final(self), r) == old(self).moved(shift),
    {
        let p = match self.current_piece {
            Some(p) => p,
            None => return true,
        };
        if shift.0 == 0 && shift.1 == 0 {
            return true;
        }
        let future_position: (isize, isize) = (p.position.0 + shift.0 as isize, p.position.1 + shift.1 as isize);
        if self.position_is_valid(future_position, p.rotation) {
            proof {
                lemma_with_piece_wf(*self, Piece { position: future_position, ..p });
            }
            self.current_piece = Some(Piece { position: future_position, ..p });
            if shift.0 != 0 {
                self.reset_lock_delay();
            }
            true
        } else {
            false
        }
    }

    /// Turns the active piece clockwise (1) or counter-clockwise (-1): the
    /// kick candidates of its kind, orientation and direction are tried in
    /// order, and the first at which it fits is taken. Success applies the
    /// lock delay policy; failure changes nothing.
    pub fn rotate_current_piece(&mut self, rotation: i8) -> (r: bool)
        requires
            old(self).wf(),
            rotation == 1 || rotation == -1,
        ensures
            final(self).wf(),
            (*final(self), r) == old(self).rotated(rotation),
    {
        let p = match self.current_piece {
            Some(p) => p,
            None => return false,
        };
        let future_rotation: usize = if rotation == 1 {
            (p.rotation + 1) % ORIENTATIONS
        } else {
            (p.rotation + ORIENTATIONS - 1) % ORIENTATIONS
        };
        let id_for_kicks: usize = if rotation == 1 {
            0
        } else {
            1
        };
        let ghost kicks = self.kicks_for(p, rotation);
        assert(crate::rotation::offsets_ok(kicks));
        let n = self.rotation_system.kicks[p.id][p.rotation][id_for_kicks].len();
        let ghost start = *self;
        let mut i: usize = 0;
        while i < n
            invariant
                self.wf(),
                *self == start,
                start == *old(self),
                self.current_piece == Some(p),
                piece_ok(p),
                kicks == self.kicks_for(p, rotation),
                crate::rotation::offsets_ok(kicks),
                n == kicks.len(),
                future_rotation == Engine::target_rotation(p, rotation),
                id_for_kicks == (if rotation == 1 { 0usize } else { 1usize }),
                i <= n,
                self.kick_index(kicks, future_rotation, 0) == self.kick_index(kicks, future_rotation, i as int),
            decreases n - i,
        {
            let test = self.rotation_system.kicks[p.id][p.rotation][id_for_kicks][i];
            assert(crate::rotation::offset_ok(kicks[i as int]));
            let future_position: (isize, isize) = (p.position.0 + test.0 as isize, p.position.1 + test.1 as isize);
            if self.position_is_valid(future_position, future_rotation) {
                proof {
                    lemma_with_piece_wf(*self, Piece { rotation: future_rotation, position: future_position, ..p });
                }
                self.current_piece = Some(Piece { rotation: future_rotation, position: future_position, ..p });
                self.reset_lock_delay();
                return true;
            }
            i += 1;
        }
        false
    }

    /// The lowest row that the active piece reaches by falling straight down.
    pub fn lowest_point_under_current_piece(&self) -> (r: isize)
        requires
            self.wf(),
            self.current_piece is Some,
        ensures
            r == self.lowest_row(),
    {
        let p = self.current_piece.unwrap();
        let ghost rows = self.board.board@;
        let ghost cells = self.piece_cells(p);
        let ghost y0 = p.position.1 as int;
        let mut y: isize = p.position.1;
        proof {
            lemma_fit_bounds(rows, cells, p.position.0 as int, y0);
        }
        while self.position_is_valid((p.position.0, y - 1), p.rotation)
            invariant
                self.wf(),
                self.current_piece == Some(p),
                rows == self.board.board@,
                cells == self.piece_cells(p),
                -4 <= y <= y0 <= POSITION_LIMIT,
                fall(rows, cells, p.position.0 as int, y0, fall_budget(y0)) == fall(
                    rows,
                    cells,
                    p.position.0 as int,
                    y as int,
                    fall_budget(y as int),
                ),
            decreases y + 8,
        {
            proof {
                lemma_fit_bounds(rows, cells, p.position.0 as int, y - 1);
            }
            y = y - 1;
        }
        proof {
            lemma_fall_rests(rows, cells, p.position.0 as int, y as int, fall_budget(y as int));
        }
        y
    }

    /// Moves the active piece straight down to its lowest row. Fails, without
    /// change, when there is no active piece or it already rests.
    pub fn sonic_drop(&mut self) -> (r: bool)
        requires
            old(self).wf(),
        ensures
            final(self).wf(),
            (*final(self), r) == old(self).dropped(),
    {
        let p = match self.current_piece {
            Some(p) => p,
            None => return false,
        };
        if !self.position_is_valid((p.position.0, p.position.1 - 1), p.rotation) {
            return false;
        }
        let y = self.lowest_point_under_current_piece();
        proof {
            crate::board::lemma_fall_fits(self.board.board@, self.piece_cells(p), p.position.0 as int, p.position.1 as int, fall_budget(p.position.1 as int));
            lemma_with_piece_wf(*self, Piece { position: (p.position.0, y), ..p });
        }
        self.current_piece = Some(Piece { position: (p.position.0, y), ..p });
        true
    }

    /// Writes the active piece into the board, if it rests: its cells take the
    /// skin of its kind, and it stops being active. Fails, without change, when
    /// there is no active piece or it could still move down.
    pub fn lock_current_piece(&mut self) -> (r: bool)
        requires
            old(self).wf(),
        ensures
            final(self).wf(),
            r == (old(self).current_piece is Some && old(self).resting()),
            r ==> Engine::locked(*old(self), *final(self)),
            !r ==> *final(self) == *old(self),
    {
        let p = match self.current_piece {
            Some(p) => p,
            None => return false,
        };
        if self.position_is_valid((p.position.0, p.position.1 - 1), p.rotation) {
            return false;
        }
        let ghost before = *self;
        let ghost cells = self.piece_cells(p);
        let color = self.rotation_system.colours[p.id];
        let n = self.rotation_system.pieces[p.id][p.rotation].len();
        let mut i: usize = 0;
        while i < n
            invariant
                before.wf(),
                before.current_piece == Some(p),
                piece_ok(p),
                cells == before.piece_cells(p),
                n == cells.len(),
                crate::rotation::offsets_ok(cells),
                color == before.rotation_system.colours@[p.id as int],
                i <= n,
                *self == (Engine { board: self.board, ..before }),
                self.board.wf(),
                self.board.width == before.board.width,
                self.board.height == before.board.height,
                self.board.buffer_height == before.board.buffer_height,
                self.board.show_grid == before.board.show_grid,
                self.board.show_shadow == before.board.show_shadow,
                self.board.show_next == before.board.show_next,
                self.board.board@.len() == before.board.board@.len(),
                forall|y: int, x: int|
                    0 <= y < self.board.board@.len() && 0 <= x < self.board.width ==> (#[trigger] self.board.board@[y]@[x])
                        == if covers(cells.subrange(0, i as int), p.position.0 as int, p.position.1 as int, x, y) {
                        Some(Mino { color })
                    } else {
                        before.board.board@[y]@[x]
                    },
            decreases n - i,
        {
            let mino = self.rotation_system.pieces[p.id][p.rotation][i];
            assert(crate::board::cell_free(before.board.board@, p.position.0 + cells[i as int].0, p.position.1 + cells[i as int].1));
            let x: usize = (p.position.0 + mino.0 as isize) as usize;
            let y: usize = (p.position.1 + mino.1 as isize) as usize;
            let ghost prev = self.board.board@;
            self.board.set_cell(x, y, Some(Mino { color }));
            proof {
                assert forall|yy: int, xx: int|
                    0 <= yy < self.board.board@.len() && 0 <= xx < self.board.width implies (
                    #[trigger] self.board.board@[yy]@[xx]) == if covers(
                    cells.subrange(0, i + 1),
                    p.position.0 as int,
                    p.position.1 as int,
                    xx,
                    yy,
                ) {
                    Some(Mino { color })
                } else {
                    before.board.board@[yy]@[xx]
                } by {
                    let c1 = covers(cells.subrange(0, i as int), p.position.0 as int, p.position.1 as int, xx, yy);
                    let c2 = covers(cells.subrange(0, i + 1), p.position.0 as int, p.position.1 as int, xx, yy);
                    if c1 {
                        let j = choose|j: int|
                            0 <= j < cells.subrange(0, i as int).len() && p.position.0 + (
                            #[trigger] cells.subrange(0, i as int)[j]).0 == xx && p.position.1 + cells.subrange(
                                0,
                                i as int,
                            )[j].1 == yy;
                        assert(cells.subrange(0, i + 1)[j] == cells.subrange(0, i as int)[j]);
                    }
                    if xx == x && yy == y {
                        assert(cells.subrange(0, i + 1)[i as int] == cells[i as int]);
                    }
                    if c2 && !(xx == x && yy == y) {
                        let j = choose|j: int|
                            0 <= j < cells.subrange(0, i + 1).len() && p.position.0 + (#[trigger] cells.subrange(
                                0,
                                i + 1,
                            )[j]).0 == xx && p.position.1 + cells.subrange(0, i + 1)[j].1 == yy;
                        assert(j != i);
                        assert(cells.subrange(0, i + 1)[j] == cells.subrange(0, i as int)[j]);
                    }
                }
            }
            i += 1;
        }
        assert(cells.subrange(0, n as int) == cells);
        self.current_piece = None;
        self.need_to_lock = false;
        true
    }
}

/// A fresh piece of a kind of the rotation system is near the board.
proof fn lemma_spawn_piece_ok(rs: RotationSystem, id: int, w: int, h: int)
    requires
        rs.wf(),
        0 <= id < PIECE_KINDS,
        0 <= w <= 255,
        0 <= h <= 255,
    ensures
        piece_ok(spawn_piece(rs, id, w, h)),
{
    assert(crate::rotation::offset_ok(rs.spawn_offsets@[id]));
}

proof fn lemma_spawn_pieces_ok(rs: RotationSystem, w: int, h: int, s: Seq<Piece>)
    requires
        rs.wf(),
        spawn_pieces(rs, w, h, s),
        0 <= w <= 255,
        0 <= h <= 255,
    ensures
        forall|i: int| 0 <= i < s.len() ==> piece_ok(#[trigger] s[i]),
{
    assert forall|i: int| 0 <= i < s.len() implies piece_ok(#[trigger] s[i]) by {
        lemma_spawn_piece_ok(rs, s[i].id as int, w, h);
    }
}

impl Engine {
    /// The queue after a refill that drew `batch`: the batch is appended when
    /// the queue is no longer than the preview count.
    pub open spec fn refilled(self, batch: Seq<Piece>) -> Seq<Piece> {
        if self.next_queue@.len() <= self.board.show_next {
            self.next_queue@ + batch
        } else {
            self.next_queue@
        }
    }

    /// `batch` is what a refill of `self` drew, leaving the generator `after`.
    pub open spec fn drew(self, after: Randomizer, batch: Seq<Piece>) -> bool {
        if self.next_queue@.len() <= self.board.show_next {
            &&& 1 <= batch.len() <= 2 * PIECE_KINDS
            &&& spawn_pieces(self.rotation_system, self.board.width as int, self.board.height as int, batch)
            &&& Randomizer::batch_ok(self.randomizer, after, batch)
        } else {
            after == self.randomizer
        }
    }

    /// `after` is `before` with its next piece, `next`, taken from the queue
    /// after a refill.
    pub open spec fn took(before: Engine, after: Engine, next: Piece) -> bool {
        exists|batch: Seq<Piece>|
            {
                &&& before.drew(after.randomizer, batch)
                &&& next == before.refilled(batch)[0]
                &&& after.next_queue@ == before.refilled(batch).drop_first()
                &&& after == Engine { next_queue: after.next_queue, randomizer: after.randomizer, ..before }
            }
    }

    /// Tops the queue up from the generator when it holds no more than the
    /// preview count, so that it is never empty.
    fn refill_queue(&mut self)
        requires
            old(self).wf(),
        ensures
            final(self).wf(),
            final(self).next_queue@.len() >= 1,
            old(self).next_queue@.len() <= old(self).board.show_next ==> final(self).next_queue@.len() > old(
                self,
            ).next_queue@.len(),
            exists|batch: Seq<Piece>|
                {
                    &&& old(self).drew(final(self).randomizer, batch)
                    &&& final(self).next_queue@ == old(self).refilled(batch)
                    &&& *final(self) == (Engine {
                        next_queue: final(self).next_queue,
                        randomizer: final(self).randomizer,
                        ..*old(self)
                    })
                },
    {
        if self.next_queue.len() <= self.board.show_next as usize {
            let ghost before = *self;
            let mut batch = self.randomizer.populate_next(&self.rotation_system, self.board.width, self.board.height);
            let ghost drawn = batch@;
            proof {
                lemma_spawn_pieces_ok(self.rotation_system, self.board.width as int, self.board.height as int, drawn);
            }
            self.next_queue.append(&mut batch);
            assert(before.drew(self.randomizer, drawn));
            assert(self.next_queue@ == before.refilled(drawn));
        } else {
            assert(old(self).drew(self.randomizer, Seq::empty()));
            assert(self.next_queue@ == old(self).refilled(Seq::empty()));
        }
    }

    /// Takes the front of the queue, refilling it first.
    fn from_next_to_current(&mut self) -> (next: Piece)
        requires
            old(self).wf(),
        ensures
            final(self).wf(),
            piece_ok(next),
            Engine::took(*old(self), *final(self), next),
    {
        self.refill_queue();
        let ghost mid = *self;
        let next = self.next_queue.remove(0);
        let ghost batch = choose|batch: Seq<Piece>|
            {
                &&& old(self).drew(mid.randomizer, batch)
                &&& mid.next_queue@ == old(self).refilled(batch)
                &&& mid == Engine { next_queue: mid.next_queue, randomizer: mid.randomizer, ..*old(self) }
            };
        assert(self.next_queue@ =~= old(self).refilled(batch).drop_first());
        assert(piece_ok(mid.next_queue@[0]));
        next
    }

    /// `after` is `before` after a spawn that returned `r`: the next piece was
    /// taken from the queue and, where it fits, became the active piece (at its
    /// lowest row under instant gravity) with hold available again.
    pub open spec fn spawned(before: Engine, after: Engine, r: bool) -> bool {
        exists|next: Piece, taken: Engine|
            {
                &&& Engine::took(before, taken, next)
                &&& r == taken.fits_piece(next)
                &&& after == if r {
                    let placed = if before.gravity >= INSTANT_GRAVITY {
                        taken.with_piece(next).at_lowest()
                    } else {
                        taken.with_piece(next)
                    };
                    Engine { can_hold: true, ..placed }
                } else {
                    Engine { current_piece: None, ..taken }
                }
            }
    }

    /// Makes the next queued piece the active one. Returns false, and leaves no
    /// active piece, when the piece does not fit where it enters: the game is over.
    pub fn spawn_sequence(&mut self) -> (r: bool)
        requires
            old(self).wf(),
        ensures
            final(self).wf(),
            Engine::spawned(*old(self), *final(self), r),
    {
        let next = self.from_next_to_current();
        let ghost taken = *self;
        assert(crate::rotation::offsets_ok(self.piece_cells(next)));
        if !self.board.fits(&self.rotation_system.pieces[next.id][next.rotation], next.position.0, next.position.1) {
            self.current_piece = None;
            assert(Engine::took(*old(self), taken, next));
            assert(!taken.fits_piece(next));
            assert(*self == Engine { current_piece: None, ..taken });
            assert(Engine::spawned(*old(self), *self, false));
            return false;
        }
        self.current_piece = Some(next);
        self.can_hold = true;
        if self.gravity >= INSTANT_GRAVITY {
            let y = self.lowest_point_under_current_piece();
            proof {
                crate::board::lemma_fall_fits(
                    self.board.board@,
                    self.piece_cells(next),
                    next.position.0 as int,
                    next.position.1 as int,
                    fall_budget(next.position.1 as int),
                );
                lemma_with_piece_wf(*self, Piece { position: (next.position.0, y), ..next });
            }
            self.current_piece = Some(Piece { position: (next.position.0, y), ..next });
        }
        assert(Engine::took(*old(self), taken, next));
        assert(taken.fits_piece(next));
        assert(*self == Engine {
            can_hold: true,
            ..if old(self).gravity >= INSTANT_GRAVITY {
                taken.with_piece(next).at_lowest()
            } else {
                taken.with_piece(next)
            }
        });
        assert(Engine::spawned(*old(self), *self, true));
        true
    }

    /// `after` is `before` after a hold that returned `r`.
    pub open spec fn held(before: Engine, after: Engine, r: bool) -> bool {
        match before.current_piece {
            Some(p) => if !before.hold_enabled || !before.can_hold {
                !r && after == before
            } else {
                let parked = spawn_piece(
                    before.rotation_system,
                    p.id as int,
                    before.board.width as int,
                    before.board.height as int,
                );
                match before.hold {
                    Some(h) => {
                        &&& r == before.fits_piece(h)
                        &&& r ==> after == Engine {
                            current_piece: Some(h),
                            hold: Some(parked),
                            can_hold: false,
                            ..before
                        }
                        &&& !r ==> after == before
                    },
                    None => exists|batch: Seq<Piece>|
                        {
                            let next = before.refilled(batch)[0];
                            &&& #[trigger] before.drew(after.randomizer, batch)
                            &&& r == before.fits_piece(next)
                            &&& r ==> after.next_queue@ == before.refilled(batch).drop_first()
                            &&& r ==> after == Engine {
                                current_piece: Some(next),
                                hold: Some(parked),
                                can_hold: false,
                                next_queue: after.next_queue,
                                randomizer: after.randomizer,
                                ..before
                            }
                            &&& !r ==> after.next_queue@ == before.refilled(batch)
                            &&& !r ==> after == (Engine {
                                next_queue: after.next_queue,
                                randomizer: after.randomizer,
                                ..before
                            })
                        },
                }
            },
            None => !r && after == before,
        }
    }

    /// Puts the active piece, back in its spawn pose, into hold. A held piece
    /// comes out in its place; with none held, the next queued piece does. Fails
    /// when hold is disabled, was used since the last spawn, there is no active
    /// piece, or the incoming piece does not fit.
    pub fn hold_current_piece(&mut self) -> (r: bool)
        requires
            old(self).wf(),
        ensures
            final(self).wf(),
            Engine::held(*old(self), *final(self), r),
    {
        let p = match self.current_piece {
            Some(p) => p,
            None => return false,
        };
        if !self.hold_enabled || !self.can_hold {
            return false;
        }
        let parked = Piece::create(&self.rotation_system, p.id, self.board.width, self.board.height);
        proof {
            lemma_spawn_piece_ok(self.rotation_system, p.id as int, self.board.width as int, self.board.height as int);
        }
        match self.hold {
            Some(h) => {
                assert(crate::rotation::offsets_ok(self.piece_cells(h)));
                if !self.board.fits(&self.rotation_system.pieces[h.id][h.rotation], h.position.0, h.position.1) {
                    return false;
                }
                proof {
                    lemma_with_piece_wf(*self, h);
                }
                self.current_piece = Some(h);
                self.hold = Some(parked);
                self.can_hold = false;
                true
            },
            None => {
                self.refill_queue();
                let ghost refilled = *self;
                let ghost batch = choose|batch: Seq<Piece>|
                    {
                        &&& old(self).drew(refilled.randomizer, batch)
                        &&& refilled.next_queue@ == old(self).refilled(batch)
                        &&& refilled == Engine {
                            next_queue: refilled.next_queue,
                            randomizer: refilled.randomizer,
                            ..*old(self)
                        }
                    };
                let next = self.next_queue[0];
                assert(piece_ok(self.next_queue@[0]));
                assert(crate::rotation::offsets_ok(self.piece_cells(next)));
                if !self.board.fits(&self.rotation_system.pieces[next.id][next.rotation], next.position.0, next.position.1) {
                    return false;
                }
                self.next_queue.remove(0);
                assert(self.next_queue@ =~= old(self).refilled(batch).drop_first());
                proof {
                    lemma_with_piece_wf(*self, next);
                }
                self.current_piece = Some(next);
                self.hold = Some(parked);
                self.can_hold = false;
                true
            },
        }
    }
}

impl Engine {
    /// Gravity gathered in one tick, multiplied while soft drop is held.
    pub open spec fn gravity_gain(self) -> int {
        if self.handling.sdf_active {
            self.gravity * self.handling.sdf
        } else {
            self.gravity as int
        }
    }

    /// Gravity held after this tick's gain.
    pub open spec fn gravity_total(self) -> int {
        self.g_bucket + self.gravity_gain()
    }

    /// Gravity of the tick spent: one single-row fall tried per whole cell,
    /// the remainder kept.
    pub open spec fn fallen(self) -> Engine {
        match self.current_piece {
            Some(p) => Engine {
                g_bucket: (self.gravity_total() % GRAVITY_UNIT as int) as u64,
                ..self.with_piece(
                    Piece {
                        position: (
                            p.position.0,
                            fall(
                                self.board.board@,
                                self.piece_cells(p),
                                p.position.0 as int,
                                p.position.1 as int,
                                (self.gravity_total() / GRAVITY_UNIT as int) as nat,
                            ) as isize,
                        ),
                        ..p
                    },
                )
            },
            None => self,
        }
    }

    /// The lock delay policy applied at the end of a tick; `gravity_pulled`
    /// tells whether gravity tried a fall during the tick.
    pub open spec fn lock_delay_updated(self, gravity_pulled: bool) -> Engine {
        let previously = self.lock_delay_active;
        let resting = self.resting();
        let e = Engine { lock_delay_active: resting, ..self };
        if resting {
            match self.rotation_system.lock_delay_mode {
                LockDelayMode::Disabled => Engine { need_to_lock: true, ..e },
                LockDelayMode::Gravity => if gravity_pulled && previously {
                    Engine { need_to_lock: true, ..e }
                } else {
                    e
                },
                _ => Engine {
                    lock_delay_left: if e.lock_delay_left > 0 {
                        (e.lock_delay_left - 1) as u8
                    } else {
                        0
                    },
                    ..e
                },
            }
        } else if previously {
            match self.rotation_system.lock_delay_mode {
                LockDelayMode::Disabled => e,
                LockDelayMode::Gravity => e,
                _ => Engine { lock_delay_left: e.lock_delay, ..e },
            }
        } else {
            e
        }
    }

    /// The piece rests, and the policy or the countdown says it locks now.
    pub open spec fn must_lock(self) -> bool {
        (self.lock_delay_left == 0 || self.need_to_lock) && self.resting()
    }

    /// `after` is `before` after a tick of `gameloop` that returned `r`.
    pub open spec fn looped(before: Engine, after: Engine, r: bool) -> bool {
        if before.current_piece is None {
            !r && after == before
        } else {
            let m = before.fallen().lock_delay_updated(before.gravity_total() >= GRAVITY_UNIT);
            &&& r == m.must_lock()
            &&& r ==> Engine::locked(Engine { gameloop_state: GameloopStates::AfterLocking, ..m }, after)
            &&& !r ==> after == m
        }
    }

    /// One fixed tick of a falling piece: gravity, then the lock delay policy,
    /// then the lock if it is due. Returns whether the piece locked; then the
    /// loop moves on to clearing lines.
    #[verifier::rlimit(60)]
    pub fn gameloop(&mut self) -> (r: bool)
        requires
            old(self).wf(),
        ensures
            final(self).wf(),
            Engine::looped(*old(self), *final(self), r),
    {
        let p = match self.current_piece {
            Some(p) => p,
            None => return false,
        };
        let gain: u64 = if self.handling.sdf_active {
            let g = self.gravity as u64;
            let f = self.handling.sdf as u64;
            assert(g * f <= 0xFFFF_FFFFu64 * 0xFFFF_FFFFu64) by (nonlinear_arith)
                requires
                    g <= 0xFFFF_FFFFu64,
                    f <= 0xFFFF_FFFFu64,
            ;
            g * f
        } else {
            self.gravity as u64
        };
        let ghost total = old(self).gravity_total();
        let ghost rows = self.board.board@;
        let ghost cells = self.piece_cells(p);
        self.g_bucket = self.g_bucket + gain;
        let ghost start = *self;
        proof {
            lemma_fit_bounds(rows, cells, p.position.0 as int, p.position.1 as int);
        }
        let mut gravity_tick_happened = false;
        let ghost mut k: nat = 0;
        while self.g_bucket >= GRAVITY_UNIT
            invariant
                self.wf_but_bucket(),
                rows == self.board.board@,
                cells == self.piece_cells(p),
                piece_ok(p),
                start.current_piece == Some(p),
                self.g_bucket + k * GRAVITY_UNIT == total,
                gravity_tick_happened == (k > 0),
                fits_at(rows, cells, p.position.0 as int, p.position.1 as int),
                -4 <= fall(rows, cells, p.position.0 as int, p.position.1 as int, k) <= 600,
                *self == (Engine {
                    g_bucket: self.g_bucket,
                    ..start.with_piece(
                        Piece {
                            position: (
                                p.position.0,
                                fall(rows, cells, p.position.0 as int, p.position.1 as int, k) as isize,
                            ),
                            ..p
                        },
                    )
                }),
            decreases self.g_bucket,
        {
            proof {
                crate::board::lemma_fall_step(rows, cells, p.position.0 as int, p.position.1 as int, k);
                crate::board::lemma_fall_fits(rows, cells, p.position.0 as int, p.position.1 as int, k + 1);
                lemma_fit_bounds(
                    rows,
                    cells,
                    p.position.0 as int,
                    fall(rows, cells, p.position.0 as int, p.position.1 as int, k + 1),
                );
            }
            let bucket = self.g_bucket;
            self.g_bucket = 0;
            self.move_current_piece((0, -1));
            self.g_bucket = bucket - GRAVITY_UNIT;
            gravity_tick_happened = true;
            proof {
                k = k + 1;
            }
        }
        proof {
            vstd::arithmetic::div_mod::lemma_fundamental_div_mod_converse(
                total,
                GRAVITY_UNIT as int,
                k as int,
                self.g_bucket as int,
            );
        }
        assert(*self == old(self).fallen());
        let previously = self.lock_delay_active;
        let resting = self.is_resting();
        self.lock_delay_active = resting;
        if resting {
            match self.rotation_system.lock_delay_mode {
                LockDelayMode::Disabled => {
                    self.need_to_lock = true;
                },
                LockDelayMode::Gravity => {
                    if gravity_tick_happened && previously {
                        self.need_to_lock = true;
                    }
                },
                _ => {
                    if self.lock_delay_left > 0 {
                        self.lock_delay_left = self.lock_delay_left - 1;
                    }
                },
            }
        } else if previously {
            match self.rotation_system.lock_delay_mode {
                LockDelayMode::Disabled => {},
                LockDelayMode::Gravity => {},
                _ => {
                    self.lock_delay_left = self.lock_delay;
                },
            }
        }
        if (self.lock_delay_left == 0 || self.need_to_lock) && resting {
            self.gameloop_state = GameloopStates::AfterLocking;
            self.lock_current_piece();
            true
        } else {
            false
        }
    }

    /// The invariant, with any amount of gravity held.
    pub open spec fn wf_but_bucket(&self) -> bool {
        Engine { g_bucket: 0, ..*self }.wf()
    }
}

/// A decoded player action.
#[derive(Clone, Copy, Debug, PartialEq, Eq, Structural)]
pub enum Intent {
    MoveLeftPressed,
    MoveLeftReleased,
    MoveRightPressed,
    MoveRightReleased,
    RotateCw,
    RotateCcw,
    SoftDropOn,
    SoftDropOff,
    HardDrop,
    Hold,
}

impl Engine {
    /// `after` is `before` with its full lines cleared and the spawn delay started.
    pub open spec fn lines_done(before: Engine, after: Engine) -> bool {
        &&& Board::lines_cleared(before.board, after.board)
        &&& after == Engine {
            board: after.board,
            gameloop_state: GameloopStates::Spawn,
            spawn_delay_left: before.spawn_delay,
            ..before
        }
    }

    /// Clears full lines after a lock and starts the spawn delay.
    pub fn after_locking_routine(&mut self)
        requires
            old(self).wf(),
            old(self).current_piece is None,
        ensures
            final(self).wf(),
            Engine::lines_done(*old(self), *final(self)),
    {
        self.board.clear_full_lines();
        self.gameloop_state = GameloopStates::Spawn;
        self.spawn_delay_left = self.spawn_delay;
    }

    /// The lock delay made ready for a new piece.
    pub open spec fn fresh_lock_delay(self) -> Engine {
        Engine {
            lock_delay_left: self.lock_delay,
            lock_delay_resets_left: self.lock_delay_resets,
            lock_delay_active: false,
            need_to_lock: false,
            ..self
        }
    }

    /// `after` is `before` after `spawn_routine` returned `r`: a spawn with a
    /// fresh lock delay, then falling, or game over where the piece did not fit.
    pub open spec fn respawned(before: Engine, after: Engine, r: bool) -> bool {
        exists|mid: Engine|
            {
                &&& #[trigger] Engine::spawned(before.fresh_lock_delay(), mid, r)
                &&& after == if r {
                    Engine { gameloop_state: GameloopStates::Falling, ..mid }
                } else {
                    Engine { state: GameStates::GameOver, ..mid }
                }
            }
    }

    /// Readies the lock delay and spawns the next piece: the loop goes on
    /// falling, or the game is over.
    pub fn spawn_routine(&mut self) -> (r: bool)
        requires
            old(self).wf(),
        ensures
            final(self).wf(),
            Engine::respawned(*old(self), *final(self), r),
    {
        self.lock_delay_left = self.lock_delay;
        self.lock_delay_resets_left = self.lock_delay_resets;
        self.lock_delay_active = false;
        self.need_to_lock = false;
        let r = self.spawn_sequence();
        let ghost mid = *self;
        if r {
            self.gameloop_state = GameloopStates::Falling;
        } else {
            self.state = GameStates::GameOver;
        }
        assert(Engine::spawned(old(self).fresh_lock_delay(), mid, r));
        r
    }

    /// `after` is `before` after a tick of the spawn delay that returned `r`.
    pub open spec fn delay_ran(before: Engine, after: Engine, r: bool) -> bool {
        if before.spawn_delay_left > 0 {
            !r && after == Engine { spawn_delay_left: (before.spawn_delay_left - 1) as u8, ..before }
        } else {
            exists|spawned: bool|
                r && #[trigger] Engine::respawned(Engine { spawn_delay_left: before.spawn_delay, ..before }, after, spawned)
        }
    }

    /// One tick of the spawn delay; when it has run out, the next piece spawns
    /// and the result is true.
    pub fn run_spawn_delay(&mut self) -> (r: bool)
        requires
            old(self).wf(),
        ensures
            final(self).wf(),
            Engine::delay_ran(*old(self), *final(self), r),
    {
        if self.spawn_delay_left > 0 {
            self.spawn_delay_left = self.spawn_delay_left - 1;
            false
        } else {
            self.spawn_delay_left = self.spawn_delay;
            let spawned = self.spawn_routine();
            assert(Engine::respawned(Engine { spawn_delay_left: old(self).spawn_delay, ..*old(self) }, *self, spawned));
            true
        }
    }

    /// `after` is `before` after one fixed tick of `fixed_update`.
    pub open spec fn updated(before: Engine, after: Engine) -> bool {
        if before.state != GameStates::Gameplay {
            after == before
        } else {
            match before.gameloop_state {
                GameloopStates::Falling => exists|r: bool| #[trigger] Engine::looped(before, after, r),
                GameloopStates::AfterLocking => if before.current_piece is None {
                    Engine::lines_done(before, after)
                } else {
                    after == before
                },
                GameloopStates::Spawn => exists|r: bool| #[trigger] Engine::delay_ran(before, after, r),
                GameloopStates::Init => after == before,
            }
        }
    }

    /// One fixed simulation tick: the phase of the loop decides what runs.
    pub fn fixed_update(&mut self)
        requires
            old(self).wf(),
        ensures
            final(self).wf(),
            Engine::updated(*old(self), *final(self)),
    {
        if self.state != GameStates::Gameplay {
            return;
        }
        match self.gameloop_state {
            GameloopStates::Falling => {
                let r = self.gameloop();
                assert(Engine::looped(*old(self), *self, r));
            },
            GameloopStates::AfterLocking => {
                if self.current_piece.is_none() {
                    self.after_locking_routine();
                }
            },
            GameloopStates::Spawn => {
                let r = self.run_spawn_delay();
                assert(Engine::delay_ran(*old(self), *self, r));
            },
            GameloopStates::Init => {},
        }
    }
}

impl Engine {
    /// `after` is `before` after the player's `intent`. Moves, rotations, hold
    /// and hard drop act only while a piece is falling.
    pub open spec fn input_applied(before: Engine, after: Engine, intent: Intent) -> bool {
        let falling = before.gameloop_state == GameloopStates::Falling;
        match intent {
            Intent::MoveLeftPressed => {
                let m = if falling {
                    before.moved((-1i8, 0i8)).0
                } else {
                    before
                };
                after == Engine { handling: m.handling.pressed(true, false), ..m }
            },
            Intent::MoveRightPressed => {
                let m = if falling {
                    before.moved((1i8, 0i8)).0
                } else {
                    before
                };
                after == Engine { handling: m.handling.pressed(false, true), ..m }
            },
            Intent::MoveLeftReleased => after == Engine { handling: before.handling.released(true, false), ..before },
            Intent::MoveRightReleased => after == Engine { handling: before.handling.released(false, true), ..before },
            Intent::RotateCw => after == if falling {
                before.rotated(1i8).0
            } else {
                before
            },
            Intent::RotateCcw => after == if falling {
                before.rotated(-1i8).0
            } else {
                before
            },
            Intent::SoftDropOn => after == Engine {
                handling: Handling { sdf_active: true, ..before.handling },
                ..before
            },
            Intent::SoftDropOff => after == Engine {
                handling: Handling { sdf_active: false, ..before.handling },
                ..before
            },
            Intent::HardDrop => if falling && before.current_piece is Some {
                Engine::locked(Engine { gameloop_state: GameloopStates::AfterLocking, ..before.dropped().0 }, after)
            } else {
                after == before
            },
            Intent::Hold => if falling {
                exists|r: bool| #[trigger] Engine::held(before, after, r)
            } else {
                after == before
            },
        }
    }

    /// Applies one decoded player action.
    pub fn receive_input(&mut self, intent: Intent)
        requires
            old(self).wf(),
        ensures
            final(self).wf(),
            Engine::input_applied(*old(self), *final(self), intent),
    {
        let falling = self.gameloop_state == GameloopStates::Falling;
        match intent {
            Intent::MoveLeftPressed => {
                if falling {
                    self.move_current_piece((-1, 0));
                }
                self.handling.movement_key_pressed(true, false);
            },
            Intent::MoveRightPressed => {
                if falling {
                    self.move_current_piece((1, 0));
                }
                self.handling.movement_key_pressed(false, true);
            },
            Intent::MoveLeftReleased => {
                self.handling.movement_key_released(true, false);
            },
            Intent::MoveRightReleased => {
                self.handling.movement_key_released(false, true);
            },
            Intent::RotateCw => {
                if falling {
                    self.rotate_current_piece(1);
                }
            },
            Intent::RotateCcw => {
                if falling {
                    self.rotate_current_piece(-1);
                }
            },
            Intent::SoftDropOn => {
                self.handling.sdf_active = true;
            },
            Intent::SoftDropOff => {
                self.handling.sdf_active = false;
            },
            Intent::HardDrop => {
                if falling && self.current_piece.is_some() {
                    self.sonic_drop();
                    let p = self.current_piece.unwrap();
                    proof {
                        lemma_lowest_rests(
                            old(self).board.board@,
                            old(self).piece_cells(p),
                            p.position.0 as int,
                            old(self).current_piece.unwrap().position.1 as int,
                        );
                    }
                    self.gameloop_state = GameloopStates::AfterLocking;
                    self.lock_current_piece();
                }
            },
            Intent::Hold => {
                if falling {
                    let r = self.hold_current_piece();
                    assert(Engine::held(*old(self), *self, r));
                }
            },
        }
    }

    /// Runs the auto-repeat for `delta` microseconds and, while a piece falls,
    /// makes the sideways move that is due.
    pub fn das_and_arr(&mut self, delta: u32)
        requires
            old(self).wf(),
        ensures
            final(self).wf(),
            *final(self) == if old(self).gameloop_state == GameloopStates::Falling {
                (Engine { handling: old(self).handling.ticked(delta as int), ..*old(self) }).moved(
                    (old(self).handling.pulse(delta as int), 0i8),
                ).0
            } else {
                Engine { handling: old(self).handling.ticked(delta as int), ..*old(self) }
            },
    {
        let direction = self.handling.movement_tick(delta);
        if self.gameloop_state == GameloopStates::Falling {
            self.move_current_piece((direction, 0));
        }
    }

    /// Starts a game with the rotation system called `rotation_system` and with
    /// `randomizer`: no active or held piece, a queue longer than the preview
    /// count, and the first spawn.
    pub fn init(&mut self, rotation_system: &str, randomizer: Randomizer)
        requires
            old(self).wf(),
            crate::rotation::known_name(rotation_system.spec_bytes()),
            randomizer.wf(),
        ensures
            final(self).wf(),
            exists|ready: Engine, r: bool|
                {
                    &&& #[trigger] Engine::respawned(ready, *final(self), r)
                    &&& rotation_system.spec_bytes() == crate::rotation::srs_name() ==> ready.rotation_system.lock_delay_mode
                        == LockDelayMode::ResetOnMovementLimited
                    &&& rotation_system.spec_bytes() == crate::rotation::ars_name() ==> ready.rotation_system.lock_delay_mode
                        == LockDelayMode::ResetOnYChange
                    &&& ready.board == old(self).board
                    &&& ready.current_piece is None
                    &&& ready.hold is None
                    &&& ready.can_hold
                    &&& ready.state == GameStates::Gameplay
                    &&& ready.next_queue@.len() > ready.board.show_next
                },
    {
        let rotation_system = RotationSystem::lookup(rotation_system).unwrap();
        self.rotation_system = rotation_system;
        self.randomizer = randomizer;
        self.current_piece = None;
        self.hold = None;
        self.can_hold = true;
        self.next_queue = Vec::new();
        while self.next_queue.len() <= self.board.show_next as usize
            invariant
                self.wf(),
                self.rotation_system == rotation_system,
                self.board == old(self).board,
                self.current_piece is None,
                self.hold is None,
                self.can_hold,
            decreases QUEUE_LIMIT - self.next_queue@.len(),
        {
            self.refill_queue();
        }
        self.state = GameStates::Gameplay;
        let ghost ready = *self;
        let r = self.spawn_routine();
        assert(Engine::respawned(ready, *self, r));
    }
}

impl Default for Engine {
    /// A game of ten columns and twenty rows (twenty more hidden above), three
    /// pieces of preview, the Super Rotation System with a bag, gravity of a
    /// sixtieth of a cell per tick, 30 ticks of lock delay with 15 resets.
    fn default() -> (r: Engine)
        ensures
            r.wf(),
            r.current_piece is None,
            r.hold is None,
            r.next_queue@.len() == 0,
            r.board.width == 10,
            r.board.height == 20,
            r.board.buffer_height == 20,
            r.board.show_next == 3,
            r.handling == Handling::create_spec(200_000, 33_000, 20),
            r.rotation_system.lock_delay_mode == LockDelayMode::ResetOnMovementLimited,
            r.randomizer is Bag,
            r.can_hold,
            r.hold_enabled,
            r.gravity == 60,
            r.g_bucket == 0,
            r.lock_delay == 30,
            r.lock_delay_left == 30,
            r.lock_delay_resets == 15,
            r.lock_delay_resets_left == 15,
            !r.lock_delay_active,
            !r.need_to_lock,
            r.spawn_delay == 0,
            r.spawn_delay_left == 0,
            r.state == GameStates::Init,
            r.gameloop_state == GameloopStates::Init,
    {
        Engine {
            current_piece: None,
            board: Board::create(10, 20, 20, true, true, 3),
            handling: Handling::create(200_000, 33_000, 20),
            rotation_system: RotationSystem::srs(),
            randomizer: Randomizer::Bag(Bag::create()),
            next_queue: Vec::new(),
            hold: None,
            can_hold: true,
            hold_enabled: true,
            gravity: 60,
            g_bucket: 0,
            lock_delay: 30,
            lock_delay_left: 30,
            lock_delay_resets: 15,
            lock_delay_resets_left: 15,
            lock_delay_active: false,
            need_to_lock: false,
            spawn_delay: 0,
            spawn_delay_left: 0,
            state: GameStates::Init,
            gameloop_state: GameloopStates::Init,
        }
    }
}

} // verus!
