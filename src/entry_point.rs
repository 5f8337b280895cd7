use vstd::prelude::*;

verus! {

/// The input of an entry point run on the host: it says how the state it
/// runs against starts and how one run changes it.
pub trait EntryPointInput: Sized {
    type State;

    spec fn initial_state() -> Self::State;

    spec fn next_state(self, state: Self::State) -> Self::State;

    fn init() -> (r: Self::State)
        ensures
            r == Self::initial_state(),
    ;

    fn run(self, state: &mut Self::State)
        ensures
            *final(state) == self.next_state(*old(state)),
    ;
}

/// An entry point run on the host, with the state its runs share.
pub struct EntryPoint<In: EntryPointInput> {
    state: In::State,
}

impl<In: EntryPointInput> EntryPoint<In> {
    pub closed spec fn state(&self) -> In::State {
        self.state
    }

    pub fn new() -> (r: Self)
        ensures
            r.state() == In::initial_state(),
    {
        EntryPoint { state: In::init() }
    }

    pub fn run(&mut self, input: In)
        ensures
            final(self).state() == input.next_state(old(self).state()),
    {
        input.run(&mut self.state);
    }
}

} // verus!
