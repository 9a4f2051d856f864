//! The configured display brightness.
use vstd::prelude::*;

verus! {

/// A display brightness in percent.
#[derive(Debug)]
pub struct BacklightProfile(u8);

impl BacklightProfile {
    /// The brightness in percent.
    pub closed spec fn percent(&self) -> u8 {
        self.0
    }

    /// The brightness `value` percent.
    pub fn new(value: u8) -> (res: Self)
        ensures
            res.percent() == value,
    {
        Self(value)
    }
}

impl std::ops::Deref for BacklightProfile {
    type Target = u8;

    fn deref(&self) -> (value: &u8)
        ensures
            *value == self.percent(),
    {
        &self.0
    }
}

} // verus!
