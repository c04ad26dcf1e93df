use vstd::prelude::*;

verus! {

/// The four stores of the monitor, kept together. `U`, `F`, `C` and `E` are the stores of
/// users, fiefs, chunks and events.
pub struct Repositories<U, F, C, E> {
    user: U,
    chunk: C,
    fief: F,
    event: E,
}

impl<U, F, C, E> Repositories<U, F, C, E> {
    pub closed spec fn spec_user(&self) -> U {
        self.user
    }

    pub closed spec fn spec_chunk(&self) -> C {
        self.chunk
    }

    pub closed spec fn spec_fief(&self) -> F {
        self.fief
    }

    pub closed spec fn spec_event(&self) -> E {
        self.event
    }

    pub fn new(user: U, fief: F, chunk: C, event: E) -> (r: Self)
        ensures
            r.spec_user() == user,
            r.spec_fief() == fief,
            r.spec_chunk() == chunk,
            r.spec_event() == event,
    {
        Self { user, chunk, fief, event }
    }

    pub fn user(&self) -> (r: &U)
        ensures
            *r == self.spec_user(),
    {
        &self.user
    }

    pub fn fief(&self) -> (r: &F)
        ensures
            *r == self.spec_fief(),
    {
        &self.fief
    }

    pub fn chunk(&self) -> (r: &C)
        ensures
            *r == self.spec_chunk(),
    {
        &self.chunk
    }

    pub fn event(&self) -> (r: &E)
        ensures
            *r == self.spec_event(),
    {
        &self.event
    }
}

} // verus!
