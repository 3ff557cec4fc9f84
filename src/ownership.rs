//! Plain data: a copyable colour, a car with getters and setters, and a
//! builder for cars.

use vstd::prelude::*;

verus! {

/// An RGB colour; copied on assignment.
#[derive(Debug, PartialEq, Eq, Clone, Copy, Structural)]
pub struct Color {
    pub red: u8,
    pub green: u8,
    pub blue: u8,
}

/// A car, described by its brand and its model.
pub struct Car {
    pub brand: String,
    pub model: String,
}

impl Car {
    /// The brand, borrowed.
    pub fn brand(&self) -> (r: &String)
        ensures
            r@ == self.brand@,
    {
        &self.brand
    }

    /// The model, borrowed.
    pub fn model(&self) -> (r: &String)
        ensures
            r@ == self.model@,
    {
        &self.model
    }

    /// Replaces the brand with a copy of `brand`; the model is kept.
    pub fn set_brand(&mut self, brand: &str)
        ensures
            final(self).brand@ == brand@,
            final(self).model == old(self).model,
    {
        self.brand = brand.to_owned();
    }

    /// Replaces the model with a copy of `model`; the brand is kept.
    pub fn set_model(&mut self, model: &str)
        ensures
            final(self).model@ == model@,
            final(self).brand == old(self).brand,
    {
        self.model = model.to_owned();
    }
}

/// Collects a brand and a model, then builds cars from them.
pub struct CarBuilder {
    pub brand: String,
    pub model: String,
}

impl CarBuilder {
    /// A builder with an empty brand and an empty model.
    pub fn new() -> (r: CarBuilder)
        ensures
            r.brand@ == Seq::<char>::empty(),
            r.model@ == Seq::<char>::empty(),
    {
        CarBuilder { brand: String::new(), model: String::new() }
    }

    /// The same builder with its brand set to `brand`.
    pub fn brand(self, brand: &str) -> (r: CarBuilder)
        ensures
            r.brand@ == brand@,
            r.model == self.model,
    {
        let mut b = self;
        b.brand = brand.to_owned();
        b
    }

    /// The same builder with its model set to `model`.
    pub fn model(self, model: &str) -> (r: CarBuilder)
        ensures
            r.model@ == model@,
            r.brand == self.brand,
    {
        let mut b = self;
        b.model = model.to_owned();
        b
    }

    /// A car with the builder's brand and model; the builder can be used again.
    pub fn build(&self) -> (r: Car)
        ensures
            r.brand == self.brand,
            r.model == self.model,
    {
        Car { brand: self.brand.clone(), model: self.model.clone() }
    }
}

} // verus!
