//! Boxed recursive data, and a counter of calls.

use vstd::prelude::*;

verus! {

/// A boolean formula built from constants with `and` and `or`.
pub enum Formula {
    True,
    False,
    And(Box<Formula>, Box<Formula>),
    Or(Box<Formula>, Box<Formula>),
}

impl Formula {
    /// The truth value of the formula.
    pub open spec fn eval(&self) -> bool
        decreases self,
    {
        match self {
            Formula::True => true,
            Formula::False => false,
            Formula::And(left, right) => left.eval() && right.eval(),
            Formula::Or(left, right) => left.eval() || right.eval(),
        }
    }

    /// Computes the truth value of the formula.
    pub fn resolve(&self) -> (r: bool)
        ensures
            r == self.eval(),
        decreases self,
    {
        match self {
            Formula::True => true,
            Formula::False => false,
            Formula::And(left, right) => left.resolve() && right.resolve(),
            Formula::Or(left, right) => left.resolve() || right.resolve(),
        }
    }
}

/// The conjunction of two formulas.
pub fn and(left: Formula, right: Formula) -> (r: Formula)
    ensures
        r == Formula::And(Box::new(left), Box::new(right)),
        r.eval() == (left.eval() && right.eval()),
{
    Formula::And(Box::new(left), Box::new(right))
}

/// The disjunction of two formulas.
pub fn or(left: Formula, right: Formula) -> (r: Formula)
    ensures
        r == Formula::Or(Box::new(left), Box::new(right)),
        r.eval() == (left.eval() || right.eval()),
{
    Formula::Or(Box::new(left), Box::new(right))
}

/// How many times each call was made.
#[derive(Clone, Copy)]
pub struct Stats {
    hello: u32,
    goodbye: u32,
}

impl Stats {
    /// Number of `hello` calls.
    pub fn hello(&self) -> (r: u32)
        ensures
            r == self.spec_hello(),
    {
        self.hello
    }

    /// Number of `goodbye` calls.
    pub fn goodbye(&self) -> (r: u32)
        ensures
            r == self.spec_goodbye(),
    {
        self.goodbye
    }

    /// Number of `hello` calls.
    pub closed spec fn spec_hello(&self) -> u32 {
        self.hello
    }

    /// Number of `goodbye` calls.
    pub closed spec fn spec_goodbye(&self) -> u32 {
        self.goodbye
    }
}

/// An interface that records how often each of its calls was made.
pub struct Api {
    stats: Stats,
}

impl Api {
    /// Counts of the calls made so far.
    pub closed spec fn counts(&self) -> Stats {
        self.stats
    }

    /// A new interface, with no call recorded.
    pub fn new() -> (r: Api)
        ensures
            r.counts().spec_hello() == 0,
            r.counts().spec_goodbye() == 0,
    {
        Api { stats: Stats { hello: 0, goodbye: 0 } }
    }

    /// A copy of the counts.
    pub fn stats(&self) -> (r: Stats)
        ensures
            r == self.counts(),
    {
        self.stats
    }

    /// Says hello, and counts it.
    pub fn hello(&mut self)
        requires
            old(self).counts().spec_hello() < u32::MAX,
        ensures
            final(self).counts().spec_hello() == old(self).counts().spec_hello() + 1,
            final(self).counts().spec_goodbye() == old(self).counts().spec_goodbye(),
    {
        self.stats.hello = self.stats.hello + 1;
    }

    /// Says goodbye, and counts it.
    pub fn goodbye(&mut self)
        requires
            old(self).counts().spec_goodbye() < u32::MAX,
        ensures
            final(self).counts().spec_goodbye() == old(self).counts().spec_goodbye() + 1,
            final(self).counts().spec_hello() == old(self).counts().spec_hello(),
    {
        self.stats.goodbye = self.stats.goodbye + 1;
    }
}

} // verus!
