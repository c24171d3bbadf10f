//! Runs of state machines.

use vstd::prelude::*;

verus! {

/// A state machine: each input takes it from one state to the next and gives an output.
pub trait Machine: Sized {
    /// What the machine is told.
    type Input;

    /// What the machine asks for.
    type Output;

    /// The next state and the output.
    spec fn next(self, input: Self::Input) -> (Self, Self::Output);
}

/// The state after `inputs`, from `start` on.
pub open spec fn state_after<M: Machine>(start: M, inputs: Seq<M::Input>) -> M
    decreases inputs.len(),
{
    if inputs.len() == 0 {
        start
    } else {
        state_after(start, inputs.drop_last()).next(inputs.last()).0
    }
}

/// The output for the last of `inputs`, from `start` on.
pub open spec fn last_output<M: Machine>(start: M, inputs: Seq<M::Input>) -> M::Output
    recommends
        inputs.len() > 0,
{
    state_after(start, inputs.drop_last()).next(inputs.last()).1
}

/// What a machine last asked for, if it began as `begin` and was then told `inputs`.
pub open spec fn asked<M: Machine>(begin: (M, M::Output), inputs: Seq<M::Input>) -> M::Output {
    if inputs.len() == 0 {
        begin.1
    } else {
        last_output(begin.0, inputs)
    }
}

/// What is asked for after one more input follows from the state before it.
pub proof fn lemma_told_one_more<M: Machine>(start: M, inputs: Seq<M::Input>, input: M::Input)
    ensures
        last_output(start, inputs.push(input)) == state_after(start, inputs).next(input).1,
        state_after(start, inputs.push(input)) == state_after(start, inputs).next(input).0,
        inputs.len() > 0 ==> (state_after(start, inputs), last_output(start, inputs))
            == state_after(start, inputs.drop_last()).next(inputs.last()),
{
    assert(inputs.push(input).drop_last() =~= inputs);
    assert(inputs.push(input).last() == input);
}

} // verus!
