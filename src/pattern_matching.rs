//! Describing input events.

use vstd::prelude::*;
use crate::text::{decimal, push_decimal, push_str};

verus! {

/// An input event: a mouse position or a key code.
pub enum Event {
    Mouse { x: u64, y: u64 },
    Keyboard(u64),
}

/// The text that describes `event`: `Mouse(x, y)` or `Keycode: k`.
pub open spec fn diagnosis(event: Event) -> Seq<char> {
    match event {
        Event::Mouse { x, y } => "Mouse("@ + decimal(x as nat) + ", "@ + decimal(y as nat) + ")"@,
        Event::Keyboard(code) => "Keycode: "@ + decimal(code as nat),
    }
}

/// Describes an event in words.
pub fn diagnose(event: Event) -> (r: String)
    ensures
        r@ == diagnosis(event),
{
    let mut out = String::new();
    match event {
        Event::Mouse { x, y } => {
            push_str(&mut out, "Mouse(");
            push_decimal(&mut out, x);
            push_str(&mut out, ", ");
            push_decimal(&mut out, y);
            push_str(&mut out, ")");
        },
        Event::Keyboard(code) => {
            push_str(&mut out, "Keycode: ");
            push_decimal(&mut out, code);
        },
    }
    proof {
        assert(out@ =~= diagnosis(event));
    }
    out
}

} // verus!
