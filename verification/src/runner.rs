use vstd::prelude::*;

verus! {

/// How the tool itself must terminate after the artifact has run: with
/// the artifact's own exit code, or reporting the signal that killed it.
#[derive(Clone, Copy, Debug, PartialEq, Eq, Structural)]
pub enum Termination {
    Code(i32),
    Signal(i32),
}

/// Exit fidelity: the termination the tool must reproduce, from the
/// artifact's wait status (its exit code if it exited normally, else the
/// signal that killed it, on platforms that report one). Spawning and
/// waiting happen at the caller; this is the relay decision alone.
pub fn termination_of(exit_code: Option<i32>, signal: Option<i32>) -> (r: Termination)
    requires
        exit_code is Some || signal is Some,
    ensures
        exit_code matches Some(c) ==> r == Termination::Code(c),
        exit_code is None ==> r == Termination::Signal(signal->Some_0),
{
    match exit_code {
        Some(c) => Termination::Code(c),
        None => Termination::Signal(signal.unwrap()),
    }
}

} // verus!
