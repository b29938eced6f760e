//! The executable simulator: a fixed-capacity tape of symbols, a transition
//! table keyed by control state and read symbol, a cursor, and a LIFO undo
//! history of inverse transitions.
//!
//! Every method's contract relates the machine's ghost value (a
//! [`MachineView`]) before and after the call to the spec functions of
//! [`crate::model`], so the laws proved there hold of this code.

use crate::model::{
    spec_backward, spec_forward, spec_set_tape, spec_step, spec_write, MachineView, TransitionView,
    BLANK, TAPE_CAPACITY,
};
use vstd::prelude::*;
use vstd::string::StrSliceExecFns;

verus! {

/// A direction of one cursor move along the tape.
#[derive(Clone, Copy, Debug, PartialEq, Eq, Structural)]
pub enum Direction {
    Left,
    Right,
}

impl Direction {
    /// The inverse direction, as a spec-level value.
    pub open spec fn flipped(self) -> Direction {
        match self {
            Direction::Left => Direction::Right,
            Direction::Right => Direction::Left,
        }
    }

    /// The inverse direction: `Left` and `Right` exchange.
    pub fn flip(&self) -> (r: Self)
        ensures
            r == self.flipped(),
    {
        match self {
            Direction::Left => Direction::Right,
            Direction::Right => Direction::Left,
        }
    }
}

/// The failure kind of the tape-bound commands: the cursor is, or a move
/// would take it, outside the fixed tape capacity. The failing call mutates
/// nothing.
#[derive(Clone, Copy, Debug, PartialEq, Eq, Structural)]
pub enum TmError {
    OutOfBounds,
}

/// One entry of the transition table: the symbol to write, the direction to
/// move, and the name of the next control state. Also the shape of an undo
/// entry, which stores the inverse of an applied transition.
#[derive(Debug, PartialEq)]
pub struct Transition {
    output: char,
    direction: Direction,
    next: String,
}

impl Clone for Transition {
    /// The copy has the same model as the original.
    fn clone(&self) -> (r: Self)
        ensures
            r@ == self@,
    {
        Transition { output: self.output, direction: self.direction, next: self.next.clone() }
    }
}

impl View for Transition {
    type V = TransitionView;

    closed spec fn view(&self) -> TransitionView {
        TransitionView { output: self.output, direction: self.direction, next: self.next@ }
    }
}

impl DeepView for Transition {
    type V = TransitionView;

    open spec fn deep_view(&self) -> TransitionView {
        self@
    }
}

impl Transition {
    /// Builds the transition that writes `output`, moves in `direction`, and
    /// enters the control state named `next`.
    pub fn from(output: char, direction: Direction, next: String) -> (t: Self)
        ensures
            t@ == (TransitionView { output, direction, next: next@ }),
    {
        Transition { output, direction, next }
    }
}

/// One row of the transition table: the transition registered for the control
/// state `state` reading the symbol `input`.
struct TableEntry {
    state: String,
    input: char,
    transition: Transition,
}

impl TableEntry {
    /// The table key of this row.
    spec fn key(self) -> (Seq<char>, char) {
        (self.state@, self.input)
    }
}

/// The table rows as a map, later rows overwriting earlier ones.
spec fn table_view(entries: Seq<TableEntry>) -> Map<(Seq<char>, char), TransitionView>
    decreases entries.len(),
{
    if entries.len() == 0 {
        Map::empty()
    } else {
        table_view(entries.drop_last()).insert(entries.last().key(), entries.last().transition@)
    }
}

/// No two table rows share a key.
spec fn keys_unique(entries: Seq<TableEntry>) -> bool {
    forall|i: int, j: int|
        0 <= i < j < entries.len() ==> (#[trigger] entries[i].key()) != (#[trigger] entries[j].key())
}

/// A key is in the table map exactly when some row carries it.
proof fn lemma_table_view_contains(entries: Seq<TableEntry>, k: (Seq<char>, char))
    ensures
        table_view(entries).contains_key(k) <==> exists|i: int|
            0 <= i < entries.len() && (#[trigger] entries[i].key()) == k,
    decreases entries.len(),
{
    if entries.len() > 0 {
        lemma_table_view_contains(entries.drop_last(), k);
        if entries.last().key() == k {
            assert(entries[entries.len() - 1].key() == k);
        } else if table_view(entries).contains_key(k) {
            let i = choose|i: int| 0 <= i < entries.drop_last().len() && (#[trigger] entries.drop_last()[i].key()) == k;
            assert(entries[i].key() == k);
        } else if exists|i: int| 0 <= i < entries.len() && (#[trigger] entries[i].key()) == k {
            let i = choose|i: int| 0 <= i < entries.len() && (#[trigger] entries[i].key()) == k;
            assert(entries.drop_last()[i].key() == k);
        }
    }
}

/// With unique keys, the table map sends each row's key to that row's
/// transition.
proof fn lemma_table_view_at(entries: Seq<TableEntry>, i: int)
    requires
        keys_unique(entries),
        0 <= i < entries.len(),
    ensures
        table_view(entries).contains_key(entries[i].key()),
        table_view(entries)[entries[i].key()] == entries[i].transition@,
    decreases entries.len(),
{
    if i < entries.len() - 1 {
        assert(keys_unique(entries.drop_last())) by {
            assert(forall|x: int, y: int|
                0 <= x < y < entries.drop_last().len() ==> (#[trigger] entries.drop_last()[x].key())
                    != (#[trigger] entries.drop_last()[y].key())) by {
                assert(forall|x: int|
                    0 <= x < entries.drop_last().len() ==> (#[trigger] entries.drop_last()[x].key())
                        == entries[x].key());
            }
        }
        lemma_table_view_at(entries.drop_last(), i);
        assert(entries.drop_last()[i] == entries[i]);
        assert(entries.last().key() != entries[i].key());
    }
}

/// With unique keys, replacing the row that carries `e.key()` changes the
/// table map exactly as a map insertion does.
proof fn lemma_table_view_update(entries: Seq<TableEntry>, i: int, e: TableEntry)
    requires
        keys_unique(entries),
        0 <= i < entries.len(),
        e.key() == entries[i].key(),
    ensures
        table_view(entries.update(i, e)) == table_view(entries).insert(e.key(), e.transition@),
    decreases entries.len(),
{
    let s2 = entries.update(i, e);
    if i == entries.len() - 1 {
        assert(s2.drop_last() =~= entries.drop_last());
        assert(s2.last() == e);
        assert(table_view(entries.drop_last()).insert(entries.last().key(), entries.last().transition@).insert(
            e.key(),
            e.transition@,
        ) =~= table_view(entries.drop_last()).insert(e.key(), e.transition@));
    } else {
        assert(s2.drop_last() =~= entries.drop_last().update(i, e));
        assert(keys_unique(entries.drop_last())) by {
            assert(forall|x: int|
                0 <= x < entries.drop_last().len() ==> (#[trigger] entries.drop_last()[x].key())
                    == entries[x].key());
        }
        assert(entries.drop_last()[i] == entries[i]);
        lemma_table_view_update(entries.drop_last(), i, e);
        assert(s2.last() == entries.last());
        assert(entries.last().key() != e.key());
        assert(table_view(entries.drop_last()).insert(e.key(), e.transition@).insert(
            entries.last().key(),
            entries.last().transition@,
        ) =~= table_view(entries.drop_last()).insert(
            entries.last().key(),
            entries.last().transition@,
        ).insert(e.key(), e.transition@));
    }
}

/// The deterministic single-tape Turing machine simulator.
///
/// It owns a tape of [`TAPE_CAPACITY`] symbols, a transition table, the
/// cursor, the current control state (`None` once a configuration had no
/// matching transition), and a LIFO history of inverse transitions that makes
/// every committed forward step reversible.
pub struct TuringMachine {
    memory_tape: Vec<char>,
    undo_stack: Vec<Transition>,
    current_state: Option<String>,
    lookup: Vec<TableEntry>,
    tape_pointer: usize,
}

impl View for TuringMachine {
    type V = MachineView;

    closed spec fn view(&self) -> MachineView {
        MachineView {
            tape: self.memory_tape@,
            undo: self.undo_stack.deep_view(),
            state: self.current_state.deep_view(),
            table: table_view(self.lookup@),
            cursor: self.tape_pointer as int,
        }
    }
}

impl TuringMachine {
    /// The machine's invariant: its model is well-formed and the table holds
    /// at most one row per key.
    pub closed spec fn wf(&self) -> bool {
        &&& self@.wf()
        &&& keys_unique(self.lookup@)
    }

    /// A well-formed machine has a well-formed model.
    pub proof fn lemma_wf_view(&self)
        requires
            self.wf(),
        ensures
            self@.wf(),
    {
    }

    /// Allocates a machine with an all-blank tape, the cursor on cell zero,
    /// the `START` state, and an empty table and history.
    pub fn new() -> (tm: Self)
        ensures
            tm.wf(),
            tm@ == MachineView::initial(),
    {
        let mut memory_tape: Vec<char> = Vec::with_capacity(TAPE_CAPACITY);
        while memory_tape.len() < TAPE_CAPACITY
            invariant
                memory_tape@.len() <= TAPE_CAPACITY,
                forall|i: int| 0 <= i < memory_tape@.len() ==> memory_tape@[i] == BLANK,
            decreases TAPE_CAPACITY - memory_tape.len(),
        {
            memory_tape.push(BLANK);
        }
        let undo_stack: Vec<Transition> = Vec::with_capacity(4096);
        let lookup: Vec<TableEntry> = Vec::new();
        let tm = TuringMachine {
            current_state: Some("START".to_owned()),
            undo_stack,
            tape_pointer: 0,
            memory_tape,
            lookup,
        };
        proof {
            assert(tm@.tape =~= MachineView::initial().tape);
            assert(tm@.undo =~= MachineView::initial().undo);
            assert(tm@.table =~= MachineView::initial().table);
            assert(tm@ =~= MachineView::initial());
        }
        tm
    }

    /// A read-only view of the whole tape, for display.
    pub fn tape(&self) -> (r: &Vec<char>)
        ensures
            r@ == self@.tape,
    {
        &self.memory_tape
    }

    /// The cursor: the index of the cell the machine reads and writes next.
    pub fn tape_pointer(&self) -> (r: usize)
        ensures
            r as int == self@.cursor,
    {
        self.tape_pointer
    }

    /// The current control state, or `None` once the machine is stuck.
    pub fn current_state(&self) -> (r: Option<String>)
        ensures
            r.deep_view() == self@.state,
    {
        match &self.current_state {
            Some(s) => Some(s.clone()),
            None => None,
        }
    }

    /// A read-only view of the undo history, newest entry last.
    pub fn undo_stack(&self) -> (r: &Vec<Transition>)
        ensures
            r.deep_view() == self@.undo,
    {
        &self.undo_stack
    }

    /// Whether the machine is in the terminal accepting state `HALT`.
    pub fn is_halted(&self) -> (r: bool)
        ensures
            r == self@.is_halted(),
    {
        match &self.current_state {
            Some(s) => {
                let halt: String = "HALT".to_owned();
                *s == halt
            },
            None => false,
        }
    }

    /// Whether the machine is stuck: some configuration had no matching
    /// transition, and forward calls are no-ops until the state is reset.
    pub fn is_stuck(&self) -> (r: bool)
        ensures
            r == self@.is_stuck(),
    {
        match &self.current_state {
            Some(_) => false,
            None => true,
        }
    }

    /// Reads the tape at the cursor. Fails when the cursor is outside the
    /// tape; under the machine's invariant that never happens, but the check
    /// is made defensively.
    pub fn read(&self) -> (r: Result<char, TmError>)
        ensures
            r == (if 0 <= self@.cursor < self@.tape.len() {
                Ok::<char, TmError>(self@.tape[self@.cursor])
            } else {
                Err::<char, TmError>(TmError::OutOfBounds)
            }),
    {
        if self.tape_pointer < self.memory_tape.len() {
            Ok(self.memory_tape[self.tape_pointer])
        } else {
            Err(TmError::OutOfBounds)
        }
    }

    /// Writes the symbol `e` at the cursor, mutating nothing else. Fails
    /// without mutation when the cursor is outside the tape; under the
    /// machine's invariant that never happens, but the check is made
    /// defensively.
    pub fn write(&mut self, e: char) -> (r: Result<(), TmError>)
        ensures
            final(self)@ == spec_write(old(self)@, e).0,
            r == spec_write(old(self)@, e).1,
            old(self).wf() ==> final(self).wf(),
    {
        if self.tape_pointer < self.memory_tape.len() {
            self.memory_tape[self.tape_pointer] = e;
            proof {
                assert(self@ =~= (spec_write(old(self)@, e).0));
            }
            Ok(())
        } else {
            Err(TmError::OutOfBounds)
        }
    }

    /// Writes the symbol `e` at the cursor, then moves the cursor one cell in
    /// direction `dir`. Fails without any mutation when the cursor is outside
    /// the tape or the move would leave it.
    ///
    /// This is a raw tape primitive: it records no undo entry, so it does not
    /// keep the undo history consistent with the cursor the way `forward` and
    /// `backward` do.
    pub fn step(&mut self, e: char, dir: Direction) -> (r: Result<(), TmError>)
        ensures
            final(self)@ == spec_step(old(self)@, e, dir).0,
            r == spec_step(old(self)@, e, dir).1,
            old(self).wf() ==> final(self).wf(),
    {
        if self.tape_pointer >= self.memory_tape.len() {
            return Err(TmError::OutOfBounds);
        }
        let landing: usize = match dir {
            Direction::Left => {
                if self.tape_pointer == 0 {
                    return Err(TmError::OutOfBounds);
                }
                self.tape_pointer - 1
            },
            Direction::Right => {
                if self.tape_pointer + 1 >= self.memory_tape.len() {
                    return Err(TmError::OutOfBounds);
                }
                self.tape_pointer + 1
            },
        };
        self.memory_tape[self.tape_pointer] = e;
        self.tape_pointer = landing;
        proof {
            assert(self@ =~= (spec_step(old(self)@, e, dir).0));
        }
        Ok(())
    }

    /// Writes each symbol of `input` into consecutive cells starting at cell
    /// zero, leaving every other cell, the cursor, the state, the table and
    /// the history untouched. Fails without mutation when `input` has more
    /// symbols than the tape has cells.
    pub fn set_tape(&mut self, input: &str) -> (r: Result<(), TmError>)
        requires
            old(self).wf(),
        ensures
            final(self).wf(),
            final(self)@ == spec_set_tape(old(self)@, input@).0,
            r == spec_set_tape(old(self)@, input@).1,
    {
        let n: usize = input.unicode_len();
        if n > self.memory_tape.len() {
            return Err(TmError::OutOfBounds);
        }
        let mut i: usize = 0;
        while i < n
            invariant
                n == input@.len(),
                i <= n <= self.memory_tape@.len(),
                self.memory_tape@.len() == old(self).memory_tape@.len(),
                forall|j: int| 0 <= j < i ==> self.memory_tape@[j] == input@[j],
                forall|j: int|
                    i <= j < self.memory_tape@.len() ==> self.memory_tape@[j] == old(
                        self,
                    ).memory_tape@[j],
                self.undo_stack == old(self).undo_stack,
                self.current_state == old(self).current_state,
                self.lookup == old(self).lookup,
                self.tape_pointer == old(self).tape_pointer,
            decreases n - i,
        {
            let c: char = input.get_char(i);
            self.memory_tape[i] = c;
            i = i + 1;
        }
        proof {
            assert(self@.tape =~= (spec_set_tape(old(self)@, input@).0.tape));
            assert(self@ =~= (spec_set_tape(old(self)@, input@).0));
        }
        Ok(())
    }

    /// The index of the table row that carries the key `(name, input)`, if
    /// any row does.
    fn position_of(&self, name: &String, input: char) -> (r: Option<usize>)
        ensures
            match r {
                Some(i) => i < self.lookup@.len() && self.lookup@[i as int].key() == (name@, input),
                None => forall|i: int|
                    0 <= i < self.lookup@.len() ==> (#[trigger] self.lookup@[i].key()) != (
                    name@,
                    input,
                ),
            },
    {
        let mut i: usize = 0;
        while i < self.lookup.len()
            invariant
                i <= self.lookup@.len(),
                forall|j: int| 0 <= j < i ==> (#[trigger] self.lookup@[j].key()) != (name@, input),
            decreases self.lookup@.len() - i,
        {
            if self.lookup[i].state == *name && self.lookup[i].input == input {
                return Some(i);
            }
            i = i + 1;
        }
        None
    }

    /// Registers `transition` for the control state `name` reading the symbol
    /// `expected_input`, replacing any transition previously registered under
    /// that pair: insertion is an overwrite and always succeeds.
    pub fn add_state(&mut self, name: &str, expected_input: char, transition: Transition)
        requires
            old(self).wf(),
        ensures
            final(self).wf(),
            final(self)@ == (MachineView {
                table: old(self)@.table.insert((name@, expected_input), transition@),
                ..old(self)@
            }),
    {
        let owned: String = name.to_owned();
        let found = self.position_of(&owned, expected_input);
        let ghost t0 = self.lookup@;
        let entry = TableEntry { state: owned, input: expected_input, transition };
        match found {
            Some(i) => {
                self.lookup[i] = entry;
                proof {
                    lemma_table_view_update(t0, i as int, self.lookup@[i as int]);
                    assert(keys_unique(self.lookup@)) by {
                        assert(forall|x: int|
                            0 <= x < self.lookup@.len() && x != i
                                ==> (#[trigger] self.lookup@[x].key()) == t0[x].key());
                    }
                }
            },
            None => {
                self.lookup.push(entry);
                proof {
                    assert(self.lookup@.drop_last() =~= t0);
                    assert(keys_unique(self.lookup@)) by {
                        assert(forall|x: int|
                            0 <= x < t0.len() ==> (#[trigger] self.lookup@[x].key())
                                == t0[x].key());
                    }
                }
            },
        }
        proof {
            assert(self@ =~= (MachineView {
                table: old(self)@.table.insert((name@, expected_input), transition@),
                ..old(self)@
            }));
        }
    }

    /// The transition the table currently holds for the control state `name`
    /// reading the symbol `input`, if one is registered.
    pub fn transition_for(&self, name: &str, input: char) -> (r: Option<Transition>)
        requires
            self.wf(),
        ensures
            match r {
                Some(t) => self@.table.contains_key((name@, input)) && t@ == self@.table[(
                    name@,
                    input,
                )],
                None => !self@.table.contains_key((name@, input)),
            },
    {
        let owned: String = name.to_owned();
        match self.position_of(&owned, input) {
            Some(i) => {
                proof {
                    lemma_table_view_at(self.lookup@, i as int);
                }
                Some(self.lookup[i].transition.clone())
            },
            None => {
                proof {
                    lemma_table_view_contains(self.lookup@, (name@, input));
                }
                None
            },
        }
    }

    /// Advances the machine by one transition.
    ///
    /// On `HALT` or on the stuck sentinel this is a no-op. When the current
    /// state and the symbol under the cursor match no table entry, the state
    /// becomes the stuck sentinel and nothing else changes: a rejecting
    /// outcome, not an error. When a transition matches and its move stays on
    /// the tape, the inverse entry is pushed onto the undo history, the
    /// transition's symbol is written, the cursor moves, and the machine
    /// enters the next state. A move off the tape fails with
    /// [`TmError::OutOfBounds`] before any mutation.
    pub fn forward(&mut self) -> (r: Result<(), TmError>)
        requires
            old(self).wf(),
        ensures
            final(self).wf(),
            final(self)@ == spec_forward(old(self)@).0,
            r == spec_forward(old(self)@).1,
    {
        let current: String = match &self.current_state {
            None => {
                return Ok(());
            },
            Some(s) => s.clone(),
        };
        let halt: String = "HALT".to_owned();
        if current == halt {
            return Ok(());
        }
        let input: char = self.memory_tape[self.tape_pointer];
        let i: usize = match self.position_of(&current, input) {
            None => {
                proof {
                    lemma_table_view_contains(self.lookup@, (current@, input));
                }
                self.current_state = None;
                proof {
                    assert(self@ =~= (spec_forward(old(self)@).0));
                }
                return Ok(());
            },
            Some(i) => i,
        };
        proof {
            lemma_table_view_at(self.lookup@, i as int);
        }
        let dir: Direction = self.lookup[i].transition.direction;
        let landing: usize = match dir {
            Direction::Left => {
                if self.tape_pointer == 0 {
                    return Err(TmError::OutOfBounds);
                }
                self.tape_pointer - 1
            },
            Direction::Right => {
                if self.tape_pointer + 1 >= self.memory_tape.len() {
                    return Err(TmError::OutOfBounds);
                }
                self.tape_pointer + 1
            },
        };
        let output: char = self.lookup[i].transition.output;
        let next: String = self.lookup[i].transition.next.clone();
        self.undo_stack.push(Transition { output: input, direction: dir.flip(), next: current });
        self.memory_tape[self.tape_pointer] = output;
        self.tape_pointer = landing;
        self.current_state = Some(next);
        proof {
            assert(self@.undo =~= (spec_forward(old(self)@).0.undo));
            assert(self@ =~= (spec_forward(old(self)@).0));
        }
        Ok(())
    }

    /// Undoes the most recent committed forward step.
    ///
    /// With an empty history this is a no-op. Otherwise the newest inverse
    /// entry is popped, the cursor moves in the entry's direction (physically
    /// reversing the recorded forward move), the overwritten symbol is
    /// restored at the restored cursor, and the recorded state is re-entered.
    /// A restore move that would leave the tape (possible only after raw
    /// [`TuringMachine::step`] calls that bypass the history) fails with
    /// [`TmError::OutOfBounds`] before any mutation.
    pub fn backward(&mut self) -> (r: Result<(), TmError>)
        requires
            old(self).wf(),
        ensures
            final(self).wf(),
            final(self)@ == spec_backward(old(self)@).0,
            r == spec_backward(old(self)@).1,
    {
        let n: usize = self.undo_stack.len();
        if n == 0 {
            return Ok(());
        }
        let dir: Direction = self.undo_stack[n - 1].direction;
        let landing: usize = match dir {
            Direction::Left => {
                if self.tape_pointer == 0 {
                    return Err(TmError::OutOfBounds);
                }
                self.tape_pointer - 1
            },
            Direction::Right => {
                if self.tape_pointer + 1 >= self.memory_tape.len() {
                    return Err(TmError::OutOfBounds);
                }
                self.tape_pointer + 1
            },
        };
        let inverse: Transition = self.undo_stack.pop().unwrap();
        self.tape_pointer = landing;
        self.memory_tape[landing] = inverse.output;
        self.current_state = Some(inverse.next);
        proof {
            assert(self@.undo =~= (spec_backward(old(self)@).0.undo));
            assert(self@ =~= (spec_backward(old(self)@).0));
        }
        Ok(())
    }

    /// Allocates a machine as [`TuringMachine::new`] does, then seeds the
    /// leading tape cells with `input`. Fails when `input` has more symbols
    /// than the tape has cells: construction is refused rather than silently
    /// truncated.
    pub fn from(input: &str) -> (r: Result<Self, TmError>)
        ensures
            match r {
                Ok(tm) => {
                    &&& input@.len() <= TAPE_CAPACITY
                    &&& tm.wf()
                    &&& tm@ == spec_set_tape(MachineView::initial(), input@).0
                },
                Err(e) => {
                    &&& input@.len() > TAPE_CAPACITY
                    &&& e == TmError::OutOfBounds
                },
            },
    {
        let mut tm = Self::new();
        match tm.set_tape(input) {
            Ok(()) => Ok(tm),
            Err(e) => Err(e),
        }
    }
}

} // verus!
