//! Checks of the configuration that do not depend on the input data.

use crate::errors::ConfigError;
use vstd::prelude::*;

verus! {

/// Lowest thread count that the model accepts.
pub const MIN_THREADS: u16 = 1;

/// Lowest heap memory limit, in MB, that the model accepts.
pub const MIN_MEMORY: usize = 128;

/// Resources available for the model.
#[derive(Copy, Clone, Debug, PartialEq, Eq, PartialOrd, Structural)]
pub struct Resources {
    /// Thread count used by the model: the worker pool uses up to this
    /// number of workers. Cannot be less than `1`.
    pub threads: u16,
    /// Heap memory limit for the model in MB. Cannot be less than `128`.
    pub memory: usize,
}

impl Resources {
    /// The thread count used when the configuration gives none.
    pub fn default_threads() -> (threads: u16)
        ensures
            threads == 1,
    {
        1
    }

    /// The memory limit used when the configuration gives none: the whole
    /// addressable space, in MB.
    pub fn default_memory() -> (memory: usize)
        ensures
            memory == usize::MAX / 1_048_576,
    {
        usize::MAX / (1024 * 1024)
    }

    /// The resources are within the limits of the model.
    pub open spec fn within_bounds(&self) -> bool {
        self.threads >= MIN_THREADS && self.memory >= MIN_MEMORY
    }

    /// Checks if thread count and memory limit are above limits. The thread
    /// count is checked first.
    pub fn check_bounds(&self) -> (r: Result<(), ConfigError>)
        ensures
            r.is_ok() <==> self.within_bounds(),
            self.threads < MIN_THREADS ==> (r matches Err(ConfigError::OutOfBounds(text))
                && text@ == "Available threads cannot be less than 1"@),
            self.threads >= MIN_THREADS && self.memory < MIN_MEMORY ==> (r matches Err(
                ConfigError::OutOfBounds(text),
            ) && text@ == "Available memory cannot be less than 128 MB"@),
    {
        if self.threads < MIN_THREADS {
            return Err(ConfigError::OutOfBounds("Available threads cannot be less than 1"));
        }
        if self.memory < MIN_MEMORY {
            return Err(ConfigError::OutOfBounds("Available memory cannot be less than 128 MB"));
        }
        Ok(())
    }
}

impl Default for Resources {
    fn default() -> (resources: Self)
        ensures
            resources.threads == 1,
            resources.memory == usize::MAX / 1_048_576,
            resources.within_bounds(),
    {
        Resources { threads: Resources::default_threads(), memory: Resources::default_memory() }
    }
}

} // verus!
