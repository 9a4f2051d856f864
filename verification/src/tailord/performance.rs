//! Performance profiles of the daemon.
use vstd::prelude::*;
use vstd::string::*;

verus! {

/// The name of a performance profile.
#[derive(Debug)]
pub struct PerformanceProfile(String);

impl View for PerformanceProfile {
    type V = Seq<char>;

    closed spec fn view(&self) -> Seq<char> {
        self.0@
    }
}

impl PerformanceProfile {
    /// The profile called `value`.
    pub fn new(value: &str) -> (res: Self)
        ensures
            res@ == value@,
    {
        Self(String::from_str(value))
    }

    /// The profile's name.
    pub fn to_string(&self) -> (s: String)
        ensures
            s@ == self@,
    {
        self.0.clone()
    }
}

/// The profile that the daemon starts with: the configured one, or the
/// hardware's default when none is configured.
pub fn initial_performance_profile(
    performance_profile: Option<PerformanceProfile>,
    default_performance_profile: String,
) -> (name: String)
    ensures
        name@ == match performance_profile {
            Some(p) => p@,
            None => default_performance_profile@,
        },
{
    match performance_profile {
        Some(profile) => profile.to_string(),
        None => default_performance_profile,
    }
}

/// The daemon's record of the active performance profile.
#[derive(Debug)]
pub struct PerformanceProfileRuntimeHandle {
    /// Current profile.
    performance_profile: String,
}

impl PerformanceProfileRuntimeHandle {
    /// The record for an active profile called `performance_profile`.
    pub fn new(performance_profile: String) -> (res: Self)
        ensures
            res.active() == performance_profile@,
    {
        Self { performance_profile }
    }

    /// The name of the active profile.
    pub closed spec fn active(&self) -> Seq<char> {
        self.performance_profile@
    }

    /// Records `name` as the active profile.
    pub fn set_active_performance_profile(&mut self, name: &str)
        ensures
            final(self).active() == name@,
    {
        self.performance_profile = String::from_str(name);
    }

    /// The name of the active profile.
    pub fn get_active_performance_profile(&self) -> (name: &str)
        ensures
            name@ == self.active(),
    {
        self.performance_profile.as_str()
    }
}

} // verus!
