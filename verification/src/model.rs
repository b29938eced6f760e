//! The mathematical model of the simulator.
//!
//! A [`MachineView`] is the ghost value of a machine: the tape as a sequence
//! of symbols, the undo history as a sequence of inverse transitions, the
//! control state, the transition table as a map, and the cursor. The spec
//! functions here say exactly how each command transforms that value; the
//! executable methods promise to follow them, and the laws are proved from
//! them alone.

use crate::tmachine::{Direction, TmError};
use vstd::prelude::*;

verus! {

/// Number of cells in the fixed-capacity tape.
pub const TAPE_CAPACITY: usize = 2048;

/// The reserved blank symbol that fills unwritten tape cells.
pub const BLANK: char = '_';

/// Ghost value of one transition: the symbol it writes, the direction it
/// moves, and the name of the control state it enters.
#[verifier::ext_equal]
pub struct TransitionView {
    pub output: char,
    pub direction: Direction,
    pub next: Seq<char>,
}

/// Ghost value of a whole machine.
///
/// `state` is `Some(name)` while the machine is in the control state called
/// `name` (including the reserved names `START` and `HALT`) and `None` once a
/// configuration had no matching transition (the stuck sentinel).
#[verifier::ext_equal]
pub struct MachineView {
    pub tape: Seq<char>,
    pub undo: Seq<TransitionView>,
    pub state: Option<Seq<char>>,
    pub table: Map<(Seq<char>, char), TransitionView>,
    pub cursor: int,
}

/// Where a cursor lands after one move in direction `d`.
pub open spec fn moved_position(cursor: int, d: Direction) -> int {
    match d {
        Direction::Left => cursor - 1,
        Direction::Right => cursor + 1,
    }
}

/// The undo history can be replayed without ever leaving a tape of length
/// `len`: starting from `cursor`, each entry's move (taken newest first)
/// stays inside the tape.
pub open spec fn undo_fits(undo: Seq<TransitionView>, cursor: int, len: int) -> bool
    decreases undo.len(),
{
    undo.len() == 0 || {
        let landing = moved_position(cursor, undo.last().direction);
        &&& 0 <= landing < len
        &&& undo_fits(undo.drop_last(), landing, len)
    }
}

impl MachineView {
    /// Basic well-formedness: the tape has its fixed capacity and the cursor
    /// is a valid index into it.
    pub open spec fn wf(self) -> bool {
        &&& self.tape.len() == TAPE_CAPACITY
        &&& 0 <= self.cursor < self.tape.len()
    }

    /// The undo history is consistent with the cursor, so replaying it never
    /// leaves the tape.
    pub open spec fn undo_ok(self) -> bool {
        undo_fits(self.undo, self.cursor, self.tape.len() as int)
    }

    /// The machine reached the terminal accepting state.
    pub open spec fn is_halted(self) -> bool {
        self.state == Some("HALT"@)
    }

    /// The machine reached the stuck sentinel: some configuration had no
    /// matching transition.
    pub open spec fn is_stuck(self) -> bool {
        self.state is None
    }

    /// The machine is in an ordinary control state and still looks
    /// transitions up.
    pub open spec fn is_running(self) -> bool {
        self.state is Some && !self.is_halted()
    }

    /// The symbol under the cursor.
    pub open spec fn read_symbol(self) -> char {
        self.tape[self.cursor]
    }

    /// The table key of the current configuration: the control state paired
    /// with the symbol under the cursor.
    pub open spec fn current_key(self) -> (Seq<char>, char) {
        (self.state.unwrap(), self.read_symbol())
    }

    /// The transition the table holds for the current configuration.
    pub open spec fn matched(self) -> TransitionView {
        self.table[self.current_key()]
    }

    /// The value of a freshly constructed machine: an all-blank tape, the
    /// cursor at cell zero, the `START` state, and no transitions or history.
    pub open spec fn initial() -> MachineView {
        MachineView {
            tape: Seq::new(TAPE_CAPACITY as nat, |i: int| BLANK),
            undo: Seq::empty(),
            state: Some("START"@),
            table: Map::empty(),
            cursor: 0,
        }
    }
}

/// What `set_tape` does: overwrite the leading cells with `text`, leave every
/// other cell, the cursor, the state, the table and the history untouched;
/// refuse a text longer than the tape, changing nothing.
pub open spec fn spec_set_tape(m: MachineView, text: Seq<char>) -> (MachineView, Result<
    (),
    TmError,
>) {
    if text.len() <= m.tape.len() {
        (
            MachineView {
                tape: Seq::new(
                    m.tape.len(),
                    |i: int|
                        if i < text.len() {
                            text[i]
                        } else {
                            m.tape[i]
                        },
                ),
                ..m
            },
            Ok(()),
        )
    } else {
        (m, Err(TmError::OutOfBounds))
    }
}

/// What `write` does: replace the symbol under the cursor, or fail without
/// mutation when the cursor is outside the tape.
pub open spec fn spec_write(m: MachineView, e: char) -> (MachineView, Result<(), TmError>) {
    if 0 <= m.cursor < m.tape.len() {
        (MachineView { tape: m.tape.update(m.cursor, e), ..m }, Ok(()))
    } else {
        (m, Err(TmError::OutOfBounds))
    }
}

/// What `step` does: write `e` under the cursor and move one cell in
/// direction `d`, or fail without any mutation when the cursor is already
/// outside the tape or the move would leave it.
pub open spec fn spec_step(m: MachineView, e: char, d: Direction) -> (MachineView, Result<
    (),
    TmError,
>) {
    if 0 <= m.cursor < m.tape.len() {
        let landing = moved_position(m.cursor, d);
        if 0 <= landing < m.tape.len() {
            (MachineView { tape: m.tape.update(m.cursor, e), cursor: landing, ..m }, Ok(()))
        } else {
            (m, Err(TmError::OutOfBounds))
        }
    } else {
        (m, Err(TmError::OutOfBounds))
    }
}

/// What one `forward` call does.
///
/// On `HALT` or on the stuck sentinel it is a no-op. When the current
/// configuration has no table entry it only sets the stuck sentinel. When a
/// transition applies and its move stays on the tape, it pushes the inverse
/// entry (the overwritten symbol, the opposite move, the previous state),
/// writes, moves, and enters the next state. A move off the tape fails
/// before any mutation.
pub open spec fn spec_forward(m: MachineView) -> (MachineView, Result<(), TmError>) {
    if m.is_halted() || m.is_stuck() {
        (m, Ok(()))
    } else if !m.table.contains_key(m.current_key()) {
        (MachineView { state: None, ..m }, Ok(()))
    } else {
        let t = m.matched();
        let landing = moved_position(m.cursor, t.direction);
        if 0 <= landing < m.tape.len() {
            (
                MachineView {
                    tape: m.tape.update(m.cursor, t.output),
                    undo: m.undo.push(
                        TransitionView {
                            output: m.read_symbol(),
                            direction: t.direction.flipped(),
                            next: m.state.unwrap(),
                        },
                    ),
                    state: Some(t.next),
                    table: m.table,
                    cursor: landing,
                },
                Ok(()),
            )
        } else {
            (m, Err(TmError::OutOfBounds))
        }
    }
}

/// What one `backward` call does.
///
/// With an empty history it is a no-op. Otherwise it pops the newest inverse
/// entry, moves in the entry's direction (physically reversing the recorded
/// forward move), restores the overwritten symbol at the restored cursor and
/// re-enters the recorded state. A restore move that would leave the tape
/// (possible only after raw `step` calls that bypass the history) fails
/// before any mutation.
pub open spec fn spec_backward(m: MachineView) -> (MachineView, Result<(), TmError>) {
    if m.undo.len() == 0 {
        (m, Ok(()))
    } else {
        let e = m.undo.last();
        let landing = moved_position(m.cursor, e.direction);
        if 0 <= landing < m.tape.len() {
            (
                MachineView {
                    tape: m.tape.update(landing, e.output),
                    undo: m.undo.drop_last(),
                    state: Some(e.next),
                    table: m.table,
                    cursor: landing,
                },
                Ok(()),
            )
        } else {
            (m, Err(TmError::OutOfBounds))
        }
    }
}

/// `n` forward calls in a row (each call's error, if any, leaves the value
/// unchanged, exactly as the executable method does).
pub open spec fn forward_n(m: MachineView, n: nat) -> MachineView
    decreases n,
{
    if n == 0 {
        m
    } else {
        spec_forward(forward_n(m, (n - 1) as nat)).0
    }
}

/// `n` backward calls in a row.
pub open spec fn backward_n(m: MachineView, n: nat) -> MachineView
    decreases n,
{
    if n == 0 {
        m
    } else {
        backward_n(spec_backward(m).0, (n - 1) as nat)
    }
}

/// The next forward call commits a step: the machine is running, a
/// transition matches, and its move stays on the tape.
pub open spec fn commits(m: MachineView) -> bool {
    &&& m.is_running()
    &&& m.table.contains_key(m.current_key())
    &&& 0 <= moved_position(m.cursor, m.matched().direction) < m.tape.len()
}

/// `n` forward calls in a row all commit.
pub open spec fn commits_n(m: MachineView, n: nat) -> bool
    decreases n,
{
    n == 0 || {
        &&& commits_n(m, (n - 1) as nat)
        &&& commits(forward_n(m, (n - 1) as nat))
    }
}

} // verus!
