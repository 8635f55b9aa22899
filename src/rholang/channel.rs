//! A named channel of a generated contract.
use vstd::prelude::*;

verus! {

#[derive(Debug, Default)]
pub struct Channel {
    pub name: String,
}

impl Channel {
    /// A channel called `name`.
    pub fn new(name: &str) -> (c: Self)
        ensures
            c.name@ == name@,
    {
        Channel { name: name.to_owned() }
    }
}

} // verus!
