//! Long-lived collaborators started before the manager runs. The library
//! holds their configuration; performing the work (installing a logger,
//! talking to the API) is the surrounding binary's.

use vstd::prelude::*;

use crate::error::ApplicationError;

verus! {

/// A service bootstrapped once at startup.
pub trait Service {
    fn bootstrap(&self) -> Result<(), ApplicationError>;
}

/// Whether a response reports success.
pub trait RequestExt {
    fn is_successful(&self) -> bool;
}

/// The logging configuration: the level the logger is installed with.
pub struct Logging {
    level: String,
}

impl Logging {
    pub closed spec fn spec_level(&self) -> Seq<char> {
        self.level@
    }

    pub fn new(level: &str) -> (logging: Logging)
        ensures
            logging.spec_level() == level@,
    {
        Logging { level: level.to_owned() }
    }

    pub fn level(&self) -> (level: &str)
        ensures
            level@ == self.spec_level(),
    {
        self.level.as_str()
    }
}

} // verus!
