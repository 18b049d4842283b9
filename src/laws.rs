//! Properties that hold across the engine's operations.
use vstd::prelude::*;
use crate::board::{
    Board, Mino, covers, fall, fall_budget, fits_at, kept_rows, full_count, row_full, empty_row, lemma_kept_rows,
    lemma_fall_reaches_lowest, lemma_fall_rests, lemma_fit_bounds,
};
use crate::engine::Engine;
use crate::piece::Piece;
use crate::rotation::LockDelayMode;

verus! {

/// The rows kept by a line clear are exactly the rows that are not full, in order.
pub proof fn lemma_kept_rows_are_filter(rows: Seq<Vec<Option<Mino>>>)
    ensures
        kept_rows(rows) == rows.filter(|r: Vec<Option<Mino>>| !row_full(r@)),
    decreases rows.len(),
{
    let pred = |r: Vec<Option<Mino>>| !row_full(r@);
    reveal(Seq::filter);
    if rows.len() > 0 {
        lemma_kept_rows_are_filter(rows.drop_last());
        assert(rows.filter(pred) == if pred(rows.last()) {
            rows.drop_last().filter(pred).push(rows.last())
        } else {
            rows.drop_last().filter(pred)
        });
    }
}

/// Clearing lines removes exactly the full rows: the rows that are not full
/// stay, unchanged and in order, at the bottom, and as many empty rows as
/// there were full rows fill the top.
pub proof fn law_clear_full_lines(before: Board, after: Board)
    requires
        before.wf(),
        Board::lines_cleared(before, after),
    ensures
        after.board@.len() == before.board@.len(),
        after.board@.subrange(0, before.board@.len() - full_count(before.board@)) == before.board@.filter(
            |r: Vec<Option<Mino>>| !row_full(r@),
        ),
        forall|y: int|
            before.board@.len() - full_count(before.board@) <= y < after.board@.len() ==> (#[trigger] after.board@[y])@
                == empty_row(before.width as nat),
        forall|y: int|
            0 <= y < before.board@.len() - full_count(before.board@) ==> !row_full(#[trigger] after.board@[y]@),
{
    lemma_kept_rows(before.board@);
    lemma_kept_rows_are_filter(before.board@);
    let kept = kept_rows(before.board@);
    assert forall|y: int| 0 <= y < kept.len() implies !row_full(#[trigger] after.board@[y]@) by {
        assert(after.board@.subrange(0, kept.len() as int)[y] == kept[y]);
    }
}

/// Every state that the operations leave behind is well formed, so an active
/// piece always stands where `position_is_valid` accepts it.
pub proof fn law_active_piece_is_valid(e: Engine)
    requires
        e.wf(),
    ensures
        e.current_piece matches Some(p) ==> e.valid_at(p.position, p.rotation),
{
}

/// The kick candidate that a rotation takes depends only on the board, the
/// active piece and the tables, and it is the first candidate that fits.
pub proof fn law_kick_choice(e1: Engine, e2: Engine, direction: i8)
    requires
        e1.wf(),
        e1.current_piece is Some,
        e1.board == e2.board,
        e1.current_piece == e2.current_piece,
        e1.rotation_system == e2.rotation_system,
    ensures
        ({
            let p = e1.current_piece.unwrap();
            let rotation = Engine::target_rotation(p, direction);
            let kicks = e1.kicks_for(p, direction);
            let k = e1.kick_index(kicks, rotation, 0);
            &&& k == e2.kick_index(kicks, rotation, 0)
            &&& 0 <= k <= kicks.len()
            &&& forall|j: int|
                0 <= j < k ==> !e1.valid_at(
                    crate::engine::shifted(p.position, (#[trigger] kicks[j]).0 as int, kicks[j].1 as int),
                    rotation,
                )
            &&& k < kicks.len() ==> e1.valid_at(
                crate::engine::shifted(p.position, kicks[k].0 as int, kicks[k].1 as int),
                rotation,
            )
        }),
{
    let p = e1.current_piece.unwrap();
    let rotation = Engine::target_rotation(p, direction);
    let kicks = e1.kicks_for(p, direction);
    lemma_kick_index(e1, e2, kicks, rotation, 0);
}

proof fn lemma_kick_index(e1: Engine, e2: Engine, kicks: Seq<(i8, i8)>, rotation: usize, i: int)
    requires
        e1.current_piece is Some,
        e1.board == e2.board,
        e1.current_piece == e2.current_piece,
        e1.rotation_system == e2.rotation_system,
        0 <= i <= kicks.len(),
    ensures
        ({
            let p = e1.current_piece.unwrap();
            let k = e1.kick_index(kicks, rotation, i);
            &&& k == e2.kick_index(kicks, rotation, i)
            &&& i <= k <= kicks.len()
            &&& forall|j: int|
                i <= j < k ==> !e1.valid_at(
                    crate::engine::shifted(p.position, (#[trigger] kicks[j]).0 as int, kicks[j].1 as int),
                    rotation,
                )
            &&& k < kicks.len() ==> e1.valid_at(
                crate::engine::shifted(p.position, kicks[k].0 as int, kicks[k].1 as int),
                rotation,
            )
        }),
    decreases kicks.len() - i,
{
    if i < kicks.len() {
        lemma_kick_index(e1, e2, kicks, rotation, i + 1);
    }
}

impl Engine {
    /// The state after `n` tries of a one-row move down.
    pub open spec fn soft_dropped(self, n: nat) -> Engine
        decreases n,
    {
        if n == 0 {
            self
        } else {
            self.moved((0i8, -1i8)).0.soft_dropped((n - 1) as nat)
        }
    }
}

proof fn lemma_soft_dropped(e: Engine, p: Piece, n: nat)
    requires
        e.wf(),
        e.current_piece == Some(p),
    ensures
        e.soft_dropped(n) == e.with_piece(
            Piece {
                position: (
                    p.position.0,
                    fall(e.board.board@, e.piece_cells(p), p.position.0 as int, p.position.1 as int, n) as isize,
                ),
                ..p
            },
        ),
    decreases n,
{
    let rows = e.board.board@;
    let cells = e.piece_cells(p);
    lemma_fit_bounds(rows, cells, p.position.0 as int, p.position.1 as int);
    if n == 0 {
        assert(e.with_piece(p) == e);
    } else if fits_at(rows, cells, p.position.0 as int, p.position.1 - 1) {
        let q = Piece { position: (p.position.0, (p.position.1 - 1) as isize), ..p };
        let e2 = e.with_piece(q);
        lemma_fit_bounds(rows, cells, p.position.0 as int, p.position.1 - 1);
        assert(e2.wf());
        lemma_soft_dropped(e2, q, (n - 1) as nat);
    } else {
        lemma_soft_dropped(e, p, (n - 1) as nat);
        lemma_fall_rests(rows, cells, p.position.0 as int, p.position.1 as int, n);
        lemma_fall_rests(rows, cells, p.position.0 as int, p.position.1 as int, (n - 1) as nat);
    }
}

/// A hard drop lands where enough one-row soft drops land, so locking after
/// either writes the same board.
pub proof fn law_hard_drop_is_repeated_soft_drop(e: Engine, n: nat)
    requires
        e.wf(),
        e.current_piece is Some,
        n >= fall_budget(e.current_piece.unwrap().position.1 as int),
    ensures
        e.soft_dropped(n) == e.dropped().0,
        forall|a1: Engine, a2: Engine|
            Engine::locked(e.dropped().0, a1) && Engine::locked(e.soft_dropped(n), a2) ==> forall|y: int, x: int|
                0 <= y < a1.board.board@.len() && 0 <= x < a1.board.width ==> #[trigger] a1.board.board@[y]@[x]
                    == a2.board.board@[y]@[x],
{
    let p = e.current_piece.unwrap();
    let rows = e.board.board@;
    let cells = e.piece_cells(p);
    lemma_soft_dropped(e, p, n);
    lemma_fall_reaches_lowest(rows, cells, p.position.0 as int, p.position.1 as int, n);
    if e.resting() {
        lemma_fall_rests(rows, cells, p.position.0 as int, p.position.1 as int, fall_budget(p.position.1 as int));
        assert(e.with_piece(p) == e);
    }
}

/// Under limited resets, a move or rotation while resting refills the countdown
/// and spends one reset; once none are left, it makes the piece lock instead.
pub proof fn law_limited_resets(e: Engine)
    requires
        e.wf(),
        e.rotation_system.lock_delay_mode == LockDelayMode::ResetOnMovementLimited,
        e.resting(),
    ensures
        e.after_lock_reset().lock_delay_left == e.lock_delay,
        e.lock_delay_resets_left > 0 ==> e.after_lock_reset().lock_delay_resets_left == e.lock_delay_resets_left - 1
            && e.after_lock_reset().need_to_lock == e.need_to_lock,
        e.lock_delay_resets_left == 0 ==> e.after_lock_reset().need_to_lock && e.after_lock_reset().must_lock(),
{
}

/// Locking only fills free cells: a cell that held a locked mino keeps it.
pub proof fn law_lock_keeps_locked_cells(before: Engine, after: Engine)
    requires
        before.wf(),
        Engine::locked(before, after),
    ensures
        forall|y: int, x: int|
            0 <= y < before.board.board@.len() && 0 <= x < before.board.width && (
            #[trigger] before.board.board@[y]@[x]) is Some ==> after.board.board@[y]@[x] == before.board.board@[y]@[x],
{
    let p = before.current_piece.unwrap();
    let cells = before.piece_cells(p);
    assert forall|y: int, x: int|
        0 <= y < before.board.board@.len() && 0 <= x < before.board.width && (
        #[trigger] before.board.board@[y]@[x]) is Some implies after.board.board@[y]@[x]
        == before.board.board@[y]@[x] by {
        if covers(cells, p.position.0 as int, p.position.1 as int, x, y) {
            let i = choose|i: int|
                0 <= i < cells.len() && p.position.0 + (#[trigger] cells[i]).0 == x && p.position.1 + cells[i].1 == y;
            assert(crate::board::cell_free(before.board.board@, p.position.0 + cells[i].0, p.position.1 + cells[i].1));
        }
    }
}

/// Once the queue holds the preview count, taking the next piece leaves it
/// holding at least that many.
pub proof fn law_queue_keeps_preview(before: Engine, after: Engine, next: Piece)
    requires
        Engine::took(before, after, next),
        before.next_queue@.len() >= before.board.show_next,
    ensures
        after.next_queue@.len() >= after.board.show_next,
{
}

} // verus!
