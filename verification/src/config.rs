//! User settings and their defaults.
use vstd::prelude::*;

verus! {

/// The settings read from the configuration file.
#[derive(Debug)]
pub struct Config {
    pub default_justification: String,
    pub default_duration_hours: u32,
    pub auto_refresh_secs: u64,
}

/// The justification offered when activating a role, unless configured.
pub fn default_justification() -> (r: String)
    ensures
        r@ == "Local development"@,
{
    crate::text::owned("Local development")
}

/// The activation length in hours, unless configured.
pub fn default_duration_hours() -> (r: u32)
    ensures
        r == 8,
{
    8
}

/// Seconds between automatic refreshes, unless configured.
pub fn default_auto_refresh_secs() -> (r: u64)
    ensures
        r == 60,
{
    60
}

impl Default for Config {
    fn default() -> (r: Self)
        ensures
            r.default_justification@ == "Local development"@,
            r.default_duration_hours == 8,
            r.auto_refresh_secs == 60,
    {
        Config {
            default_justification: default_justification(),
            default_duration_hours: default_duration_hours(),
            auto_refresh_secs: default_auto_refresh_secs(),
        }
    }
}

impl Clone for Config {
    fn clone(&self) -> (r: Self)
        ensures
            r == *self,
    {
        Config {
            default_justification: self.default_justification.clone(),
            default_duration_hours: self.default_duration_hours,
            auto_refresh_secs: self.auto_refresh_secs,
        }
    }
}

} // verus!
