//! Small shared types: the exposure curve, worker render requests and named timers.
use vstd::prelude::*;

verus! {

/// How pixel brightness, relative to the brightest pixel, maps to exposure.
#[derive(Clone, Copy, Debug, PartialEq, Eq, Structural)]
pub enum Curve {
    FourthRoot,
    SquareRoot,
    Linear,
}

/// How many rays a worker traces for one render request.
pub const RENDER_RAY_COUNT: usize = 200_000;

/// A render request for a worker: its id, the scene and how many rays to trace.
#[derive(Clone, Debug)]
pub struct Message<C> {
    pub id: usize,
    pub config: C,
    pub count: usize,
}

impl<C> Message<C> {
    /// The request with id `id` to render `config` with `RENDER_RAY_COUNT` rays.
    pub fn new(id: usize, config: C) -> (m: Message<C>)
        ensures
            m.id == id,
            m.config == config,
            m.count == RENDER_RAY_COUNT,
    {
        Message { id, config, count: RENDER_RAY_COUNT }
    }
}

/// The name of a span of time that the caller measures (the page starts and ends a
/// console timer under it).
pub struct Timer<'a> {
    name: &'a str,
}

impl<'a> Timer<'a> {
    /// Starts the timer called `name`.
    pub fn new(name: &'a str) -> (t: Timer<'a>)
        ensures
            t.name()@ == name@,
    {
        Timer { name }
    }

    pub closed spec fn spec_name(&self) -> &'a str {
        self.name
    }

    /// The timer's name.
    #[verifier::when_used_as_spec(spec_name)]
    pub fn name(&self) -> (n: &'a str)
        ensures
            n == self.spec_name(),
    {
        self.name
    }
}

} // verus!
