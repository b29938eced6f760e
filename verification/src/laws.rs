//! The laws of the simulator, proved over the model alone.
//!
//! Each law is stated against the spec functions of [`crate::model`], which
//! every executable method's contract follows exactly; so what is proved here
//! holds of any sequence of calls on a [`crate::tmachine::TuringMachine`].

use crate::model::{
    backward_n, commits, commits_n, forward_n, moved_position, spec_backward, spec_forward,
    MachineView, TransitionView,
};
use crate::tmachine::TmError;
use vstd::prelude::*;

verus! {

/// A forward call on a well-formed machine leaves a well-formed machine.
pub proof fn lemma_forward_preserves_wf(m: MachineView)
    requires
        m.wf(),
    ensures
        spec_forward(m).0.wf(),
{
}

/// A backward call on a well-formed machine leaves a well-formed machine.
pub proof fn lemma_backward_preserves_wf(m: MachineView)
    requires
        m.wf(),
    ensures
        spec_backward(m).0.wf(),
{
}

/// Any run of forward calls on a well-formed machine leaves a well-formed
/// machine.
pub proof fn lemma_forward_n_preserves_wf(m: MachineView, n: nat)
    requires
        m.wf(),
    ensures
        forward_n(m, n).wf(),
    decreases n,
{
    if n > 0 {
        lemma_forward_n_preserves_wf(m, (n - 1) as nat);
        lemma_forward_preserves_wf(forward_n(m, (n - 1) as nat));
    }
}

/// A forward call keeps the undo history consistent with the cursor: every
/// history the simulator itself builds can be replayed without leaving the
/// tape.
pub proof fn lemma_forward_preserves_undo_ok(m: MachineView)
    requires
        m.wf(),
        m.undo_ok(),
    ensures
        spec_forward(m).0.undo_ok(),
{
    let m1 = spec_forward(m).0;
    if commits(m) {
        assert(m1.undo.drop_last() =~= m.undo);
        assert(moved_position(m1.cursor, m1.undo.last().direction) == m.cursor);
    } else {
        assert(m1.undo == m.undo && m1.cursor == m.cursor && m1.tape == m.tape);
    }
}

/// A backward call keeps the undo history consistent with the cursor.
pub proof fn lemma_backward_preserves_undo_ok(m: MachineView)
    requires
        m.wf(),
        m.undo_ok(),
    ensures
        spec_backward(m).0.undo_ok(),
{
}

/// While the undo history is consistent with the cursor, a backward call
/// never fails: an empty history is a no-op and a pop always restores a
/// valid cursor.
pub proof fn lemma_backward_never_fails(m: MachineView)
    requires
        m.wf(),
        m.undo_ok(),
    ensures
        spec_backward(m).1 is Ok,
{
}

/// One committed forward step followed by one backward step restores the
/// machine exactly: tape, cursor, state, table and history are all equal to
/// what they were, and the backward call succeeds.
pub proof fn lemma_backward_undoes_forward(m: MachineView)
    requires
        m.wf(),
        commits(m),
    ensures
        spec_backward(spec_forward(m).0) == (m, Ok::<(), TmError>(())),
{
    let m1 = spec_forward(m).0;
    assert(m1.undo.drop_last() =~= m.undo);
    assert(moved_position(m1.cursor, m1.undo.last().direction) == m.cursor);
    assert(m1.tape.update(m.cursor, m1.undo.last().output) =~= m.tape);
    assert(spec_backward(m1).0 =~= m);
}

/// After a run of committed forward steps, the undo history has grown by
/// exactly one entry per step.
pub proof fn lemma_forward_n_undo_len(m: MachineView, n: nat)
    requires
        m.wf(),
        commits_n(m, n),
    ensures
        forward_n(m, n).undo.len() == m.undo.len() + n,
    decreases n,
{
    if n > 0 {
        lemma_forward_n_undo_len(m, (n - 1) as nat);
        let y = forward_n(m, (n - 1) as nat);
        assert(spec_forward(y).0.undo =~= y.undo.push(
            TransitionView {
                output: y.read_symbol(),
                direction: y.matched().direction.flipped(),
                next: y.state.unwrap(),
            },
        ));
    }
}

/// The forward/backward inverse law: `n` committed forward steps followed by
/// `n` backward steps restore the starting configuration exactly — tape,
/// cursor, state, table and the undo history's prior contents and length.
pub proof fn lemma_backward_n_undoes_forward_n(m: MachineView, n: nat)
    requires
        m.wf(),
        commits_n(m, n),
    ensures
        backward_n(forward_n(m, n), n) == m,
    decreases n,
{
    if n > 0 {
        let y = forward_n(m, (n - 1) as nat);
        lemma_forward_n_preserves_wf(m, (n - 1) as nat);
        lemma_backward_undoes_forward(y);
        lemma_backward_n_undoes_forward_n(m, (n - 1) as nat);
    }
}

/// Once the machine has halted, a forward call succeeds and changes nothing.
pub proof fn lemma_halt_forward_noop(m: MachineView)
    requires
        m.is_halted(),
    ensures
        spec_forward(m) == (m, Ok::<(), TmError>(())),
{
}

/// Halt idempotence: once the machine has halted, any number of forward
/// calls leaves tape, cursor, state and history unchanged.
pub proof fn lemma_halt_forward_noop_n(m: MachineView, n: nat)
    requires
        m.is_halted(),
    ensures
        forward_n(m, n) == m,
    decreases n,
{
    if n > 0 {
        lemma_halt_forward_noop_n(m, (n - 1) as nat);
    }
}

/// A configuration with no matching transition sends the machine to the
/// stuck sentinel and changes nothing else; the call still succeeds.
pub proof fn lemma_missing_transition_stalls(m: MachineView)
    requires
        m.is_running(),
        !m.table.contains_key(m.current_key()),
    ensures
        spec_forward(m) == (MachineView { state: None, ..m }, Ok::<(), TmError>(())),
        spec_forward(m).0.is_stuck(),
{
}

/// Stuck idempotence: once the machine is stuck, any number of forward
/// calls leaves tape, cursor, state and history unchanged.
pub proof fn lemma_stuck_forward_noop_n(m: MachineView, n: nat)
    requires
        m.is_stuck(),
    ensures
        forward_n(m, n) == m,
    decreases n,
{
    if n > 0 {
        lemma_stuck_forward_noop_n(m, (n - 1) as nat);
    }
}

/// Table overwrite: registering two transitions under the same key leaves
/// only the second in effect, exactly as if the first had never been added.
pub proof fn lemma_table_overwrite(
    t: Map<(Seq<char>, char), TransitionView>,
    k: (Seq<char>, char),
    t1: TransitionView,
    t2: TransitionView,
)
    ensures
        t.insert(k, t1).insert(k, t2) == t.insert(k, t2),
{
    assert(t.insert(k, t1).insert(k, t2) =~= t.insert(k, t2));
}

/// A matching transition whose move would leave the tape fails with
/// `OutOfBounds` and mutates nothing; in particular, repeating the call
/// fails the same way forever.
pub proof fn lemma_forward_out_of_bounds(m: MachineView)
    requires
        m.wf(),
        m.is_running(),
        m.table.contains_key(m.current_key()),
        !(0 <= moved_position(m.cursor, m.matched().direction) < m.tape.len()),
    ensures
        spec_forward(m) == (m, Err::<(), TmError>(TmError::OutOfBounds)),
        forall|n: nat| forward_n(m, n) == m,
{
    assert forall|n: nat| forward_n(m, n) == m by {
        lemma_forward_oob_noop_n(m, n);
    }
}

/// Helper for [`lemma_forward_out_of_bounds`]: the failing configuration is
/// preserved under any number of forward calls.
proof fn lemma_forward_oob_noop_n(m: MachineView, n: nat)
    requires
        m.wf(),
        m.is_running(),
        m.table.contains_key(m.current_key()),
        !(0 <= moved_position(m.cursor, m.matched().direction) < m.tape.len()),
    ensures
        forward_n(m, n) == m,
    decreases n,
{
    if n > 0 {
        lemma_forward_oob_noop_n(m, (n - 1) as nat);
    }
}

} // verus!
