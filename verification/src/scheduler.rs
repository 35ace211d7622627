//! Assembling the scheduler from its parts.
use vstd::prelude::*;

use crate::config::Config;
use crate::error::{Error, SchedulerPart};

verus! {

/// A scheduler being assembled: a configuration and a CPU controller `C`.
pub struct Scheduler<C> {
    pub controller: Option<C>,
    pub config: Option<Config>,
}

impl<C> Scheduler<C> {
    /// Nothing set yet.
    pub fn new() -> (r: Self)
        ensures
            r.controller is None,
            r.config is None,
    {
        Scheduler { controller: None, config: None }
    }

    /// Sets the configuration.
    pub fn config(self, c: Config) -> (r: Self)
        ensures
            r.config == Some(c),
            r.controller == self.controller,
    {
        Scheduler { controller: self.controller, config: Some(c) }
    }

    /// Sets the CPU controller.
    pub fn controller(self, c: C) -> (r: Self)
        ensures
            r.controller == Some(c),
            r.config == self.config,
    {
        Scheduler { controller: Some(c), config: self.config }
    }

    /// The configuration and controller to run with; a missing part is
    /// `Error::SchedulerMissing`, the configuration checked first.
    pub fn into_parts(self) -> (r: Result<(Config, C), Error>)
        ensures
            self.config is None ==> r == Err::<(Config, C), Error>(Error::SchedulerMissing(SchedulerPart::Config)),
            self.config is Some && self.controller is None ==> r == Err::<(Config, C), Error>(
                Error::SchedulerMissing(SchedulerPart::Controller),
            ),
            self.config is Some && self.controller is Some ==> r == Ok::<(Config, C), Error>(
                (self.config.unwrap(), self.controller.unwrap()),
            ),
    {
        let config = match self.config {
            Some(c) => c,
            None => return Err(Error::SchedulerMissing(SchedulerPart::Config)),
        };
        let controller = match self.controller {
            Some(c) => c,
            None => return Err(Error::SchedulerMissing(SchedulerPart::Controller)),
        };
        Ok((config, controller))
    }
}

} // verus!
