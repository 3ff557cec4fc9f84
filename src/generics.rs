//! A generic pair: added component by component, and converted into other
//! types.

use vstd::prelude::*;
use vstd::std_specs::ops::AddSpec;
use core::ops::Add;
use crate::text::{debug_text, push_signed_decimal, push_str, quoted, signed_decimal};

verus! {

/// Two values of possibly different types.
#[derive(Debug, PartialEq)]
pub struct Pair<A, B>(pub A, pub B);

impl<A: Add<Output = A>, B: Add<Output = B>> Add for Pair<A, B> {
    type Output = Self;

    /// Adds the first components together and the second ones together.
    fn add(self, that: Self) -> (r: Self) {
        Pair(self.0 + that.0, self.1 + that.1)
    }
}

impl<A: Add<Output = A>, B: Add<Output = B>> vstd::std_specs::ops::AddSpecImpl for Pair<A, B> {
    open spec fn obeys_add_spec() -> bool {
        A::obeys_add_spec() && B::obeys_add_spec()
    }

    open spec fn add_req(self, rhs: Self) -> bool {
        self.0.add_req(rhs.0) && self.1.add_req(rhs.1)
    }

    open spec fn add_spec(self, rhs: Self) -> Self {
        Pair(self.0.add_spec(rhs.0), self.1.add_spec(rhs.1))
    }
}

/// Turns a value into another type.
pub trait Convert<E> {
    /// `e` is what `self` converts into.
    spec fn converts_to(&self, e: E) -> bool;

    /// The converted value.
    fn convert(&self) -> (r: E)
        ensures
            self.converts_to(r),
    ;
}

/// `{<number>;<text, quoted>}`.
pub open spec fn pair_text(n: int, s: Seq<char>) -> Seq<char> {
    "{"@ + signed_decimal(n) + ";"@ + debug_text(s) + "}"@
}

impl Convert<String> for Pair<i64, String> {
    open spec fn converts_to(&self, e: String) -> bool {
        e@ == pair_text(self.0 as int, self.1@)
    }

    /// Writes the number, then the quoted text, in braces.
    fn convert(&self) -> (r: String) {
        let mut out = String::new();
        push_str(&mut out, "{");
        push_signed_decimal(&mut out, self.0);
        push_str(&mut out, ";");
        let q = quoted(self.1.as_str());
        push_str(&mut out, q.as_str());
        push_str(&mut out, "}");
        proof {
            assert(out@ =~= pair_text(self.0 as int, self.1@));
        }
        out
    }
}

impl<A: Clone, B: Clone> Convert<(A, B)> for Pair<A, B> {
    open spec fn converts_to(&self, e: (A, B)) -> bool {
        cloned(self.0, e.0) && cloned(self.1, e.1)
    }

    /// Clones both components into a tuple.
    fn convert(&self) -> (r: (A, B)) {
        (self.0.clone(), self.1.clone())
    }
}

} // verus!
