//! Things with an identifier and a value, and a uniform way to print them.

use vstd::prelude::*;
use crate::text::{debug_text, decimal, push_decimal, push_str, quoted};

verus! {

/// Something with a textual identifier and a debug description.
pub trait Ident {
    /// The identifier.
    spec fn spec_ident(&self) -> Seq<char>;

    /// What `{:?}` writes for the value.
    spec fn spec_description(&self) -> Seq<char>;

    /// The identifier.
    fn ident(&self) -> (r: String)
        ensures
            r@ == self.spec_ident(),
    ;

    /// The same text as `{:?}` writes for the value.
    fn description(&self) -> (r: String)
        ensures
            r@ == self.spec_description(),
    ;
}

/// Something that carries a value of some type.
pub trait Value {
    type Output;

    /// The value carried.
    spec fn spec_value(&self) -> Self::Output;

    /// The value carried.
    fn value(&self) -> (r: Self::Output)
        ensures
            r == self.spec_value(),
    ;
}

/// `[<identifier, quoted>] <description>`.
pub open spec fn formatted<I: Ident>(ident: &I) -> Seq<char> {
    "["@ + debug_text(ident.spec_ident()) + "] "@ + ident.spec_description()
}

/// Prints the quoted identifier in brackets, then the description.
pub fn format<I: Ident>(ident: &I) -> (r: String)
    ensures
        r@ == formatted(ident),
{
    let id = ident.ident();
    let mut out = String::new();
    push_str(&mut out, "[");
    let q = quoted(id.as_str());
    push_str(&mut out, q.as_str());
    push_str(&mut out, "] ");
    let d = ident.description();
    push_str(&mut out, d.as_str());
    proof {
        assert(out@ =~= formatted(ident));
    }
    out
}

/// A named thing with a numeric identifier.
#[derive(Debug)]
pub struct Entity {
    pub id: u64,
    pub name: String,
}

impl Ident for Entity {
    open spec fn spec_ident(&self) -> Seq<char> {
        decimal(self.id as nat)
    }

    open spec fn spec_description(&self) -> Seq<char> {
        "Entity { id: "@ + decimal(self.id as nat) + ", name: "@ + debug_text(self.name@) + " }"@
    }

    /// The identifier in decimal.
    fn ident(&self) -> (r: String) {
        let mut out = String::new();
        push_decimal(&mut out, self.id);
        proof {
            assert(out@ =~= decimal(self.id as nat));
        }
        out
    }

    fn description(&self) -> (r: String) {
        let mut out = String::new();
        push_str(&mut out, "Entity { id: ");
        push_decimal(&mut out, self.id);
        push_str(&mut out, ", name: ");
        let name = quoted(self.name.as_str());
        push_str(&mut out, name.as_str());
        push_str(&mut out, " }");
        proof {
            assert(out@ =~= self.spec_description());
        }
        out
    }
}

impl Value for Entity {
    type Output = String;

    open spec fn spec_value(&self) -> String {
        self.name
    }

    /// A copy of the name.
    fn value(&self) -> (r: String) {
        self.name.clone()
    }
}

/// The one thing of its kind.
#[derive(Debug)]
pub struct Singleton;

impl Ident for Singleton {
    open spec fn spec_ident(&self) -> Seq<char> {
        "S"@
    }

    open spec fn spec_description(&self) -> Seq<char> {
        "Singleton"@
    }

    fn ident(&self) -> (r: String) {
        "S".to_owned()
    }

    fn description(&self) -> (r: String) {
        "Singleton".to_owned()
    }
}

impl Value for Singleton {
    type Output = ();

    open spec fn spec_value(&self) -> () {
        ()
    }

    fn value(&self) -> (r: ()) {
        ()
    }
}

} // verus!
