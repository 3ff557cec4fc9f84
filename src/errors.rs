//! Absence and failure as values: `Result`, `Option`, and a function that
//! cannot be called with a zero divisor.

use vstd::prelude::*;
use crate::text::push_str;

verus! {

/// The input could not be read.
pub enum InputError {
    Invalid,
}

/// Why a number could not be doubled.
#[derive(PartialEq, Eq, Debug, Structural)]
pub enum DoubleError {
    /// The input was an error.
    InvalidInput,
    /// The input was zero.
    Zero,
}

/// Doubles a number read from the input; zero and a failed read are errors.
pub fn double_result(input: Result<i64, InputError>) -> (r: Result<i64, DoubleError>)
    requires
        input matches Ok(n) ==> i64::MIN <= 2 * n <= i64::MAX,
    ensures
        match input {
            Err(_) => r == Err::<i64, DoubleError>(DoubleError::InvalidInput),
            Ok(n) => if n == 0 {
                r == Err::<i64, DoubleError>(DoubleError::Zero)
            } else {
                r == Ok::<i64, DoubleError>((2 * n) as i64)
            },
        },
{
    match input {
        Err(_) => Err(DoubleError::InvalidInput),
        Ok(n) => if n == 0 {
            Err(DoubleError::Zero)
        } else {
            Ok(n * 2)
        },
    }
}

/// The quotient of `dividend` by `divisor`, or none for a zero divisor.
pub fn checked_division(dividend: u64, divisor: u64) -> (r: Option<u64>)
    ensures
        divisor == 0 ==> r is None,
        divisor != 0 ==> r == Some((dividend / divisor) as u64),
{
    if divisor == 0 {
        None
    } else {
        Some(dividend / divisor)
    }
}

/// What one says on opening a box: delight at its content, or sadness at
/// an empty box.
pub open spec fn box_reaction(content: Option<Seq<char>>) -> Seq<char> {
    match content {
        Some(c) => "Oh ! I like "@ + c + " !"@,
        None => "Oh... I'm so sad..."@,
    }
}

/// Opens a box that may hold something.
pub fn open_box_with(content: Option<&str>) -> (r: String)
    ensures
        r@ == box_reaction(
            match content {
                Some(c) => Some(c@),
                None => None,
            },
        ),
{
    match content {
        Some(c) => {
            let mut out = String::new();
            push_str(&mut out, "Oh ! I like ");
            push_str(&mut out, c);
            push_str(&mut out, " !");
            proof {
                assert(out@ =~= "Oh ! I like "@ + c@ + " !"@);
            }
            out
        },
        None => "Oh... I'm so sad...".to_owned(),
    }
}

/// Something given to the monkey.
pub enum Present {
    Food(String),
    Drink(String),
    Beer,
}

/// A monkey that only wants beer.
pub struct Monkey;

/// The monkey's answer to a present.
pub open spec fn monkey_answer(present: Option<Present>) -> Seq<char> {
    match present {
        Some(Present::Food(food)) => food@ + " is not so bad, but I prefer to drink beer"@,
        Some(Present::Drink(drink)) => drink@
            + " doesn't make me reach Balmer effect. Give me a beer"@,
        Some(Present::Beer) => "Only one beer ? Give me another one"@,
        None => "Can I have a beer, please ?"@,
    }
}

impl Monkey {
    /// What the monkey says when given `present`.
    pub fn give(self, present: Option<Present>) -> (r: String)
        ensures
            r@ == monkey_answer(present),
    {
        match present {
            Some(Present::Food(food)) => {
                let mut out = food;
                push_str(&mut out, " is not so bad, but I prefer to drink beer");
                out
            },
            Some(Present::Drink(drink)) => {
                let mut out = drink;
                push_str(&mut out, " doesn't make me reach Balmer effect. Give me a beer");
                out
            },
            Some(Present::Beer) => "Only one beer ? Give me another one".to_owned(),
            None => "Can I have a beer, please ?".to_owned(),
        }
    }
}

/// The quotient of `dividend` by a divisor that is not zero.
pub fn division(dividend: u64, divisor: u64) -> (r: u64)
    requires
        divisor != 0,
    ensures
        r == dividend / divisor,
{
    dividend / divisor
}

} // verus!
