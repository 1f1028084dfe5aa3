//! Persisted user preferences.
use vstd::prelude::*;

verus! {

/// User preferences, stored as JSON in the user's config directory.
#[derive(Debug, Clone, Copy)]
pub struct Config {
    /// Quit the GUI after a successful switch.
    pub quit_on_switch: bool,
}

impl Default for Config {
    fn default() -> (c: Config)
        ensures
            !c.quit_on_switch,
    {
        Config { quit_on_switch: false }
    }
}

} // verus!
