//! Error definitions shared by all parts of the model core.

use vstd::prelude::*;

verus! {

/// Errors related to searching datasets with bisection.
#[derive(Copy, Clone, Debug, PartialEq, Eq, Structural)]
pub enum SearchError {
    /// Provided array is empty.
    EmptyArray,
    /// Provided target is out of array bounds.
    OutOfBounds,
}

/// Errors related to geographic projection.
#[derive(Copy, Clone, Debug)]
pub enum ProjectionError {
    /// Incorrect projection parameters, with the reason.
    IncorrectParams(&'static str),
}

/// Errors related to the decoded input data.
#[derive(Copy, Clone, Debug)]
pub enum InputError {
    /// The type of the named key is incorrect.
    IncorrectKeyType(&'static str),
    /// Provided input data is not sufficient to run the model.
    DataNotSufficient(&'static str),
    /// The number of values does not fit the shape of the grid.
    IncorrectShape,
}

/// Errors related to reading and handling boundary conditions
/// (environment data).
#[derive(Copy, Clone, Debug)]
pub enum EnvironmentError {
    /// Error while handling the projection.
    ProjectionError(ProjectionError),
    /// Error of input handling.
    GRIBInput(InputError),
    /// Could not find the value using bisection.
    SearchUnable(SearchError),
}

/// Errors related to checking the model configuration.
#[derive(Copy, Clone, Debug)]
pub enum ConfigError {
    /// Configuration component is out of bounds, with the reason.
    OutOfBounds(&'static str),
    /// Error while reading the input that the configuration names.
    CannotReadInput(InputError),
}

impl SearchError {
    /// The message that describes the error.
    pub fn message(&self) -> (text: &'static str)
        ensures
            *self == SearchError::EmptyArray ==> text@ == "Provided array is empty"@,
            *self == SearchError::OutOfBounds ==> text@
                == "Provided target is out of array bounds"@,
    {
        match self {
            SearchError::EmptyArray => "Provided array is empty",
            SearchError::OutOfBounds => "Provided target is out of array bounds",
        }
    }
}

impl From<ProjectionError> for EnvironmentError {
    fn from(error: ProjectionError) -> (r: Self) {
        EnvironmentError::ProjectionError(error)
    }
}

impl vstd::std_specs::convert::FromSpecImpl<ProjectionError> for EnvironmentError {
    open spec fn obeys_from_spec() -> bool {
        true
    }

    open spec fn from_spec(error: ProjectionError) -> Self {
        EnvironmentError::ProjectionError(error)
    }
}

impl From<InputError> for EnvironmentError {
    fn from(error: InputError) -> (r: Self) {
        EnvironmentError::GRIBInput(error)
    }
}

impl vstd::std_specs::convert::FromSpecImpl<InputError> for EnvironmentError {
    open spec fn obeys_from_spec() -> bool {
        true
    }

    open spec fn from_spec(error: InputError) -> Self {
        EnvironmentError::GRIBInput(error)
    }
}

impl From<SearchError> for EnvironmentError {
    fn from(error: SearchError) -> (r: Self) {
        EnvironmentError::SearchUnable(error)
    }
}

impl vstd::std_specs::convert::FromSpecImpl<SearchError> for EnvironmentError {
    open spec fn obeys_from_spec() -> bool {
        true
    }

    open spec fn from_spec(error: SearchError) -> Self {
        EnvironmentError::SearchUnable(error)
    }
}

impl From<InputError> for ConfigError {
    fn from(error: InputError) -> (r: Self) {
        ConfigError::CannotReadInput(error)
    }
}

impl vstd::std_specs::convert::FromSpecImpl<InputError> for ConfigError {
    open spec fn obeys_from_spec() -> bool {
        true
    }

    open spec fn from_spec(error: InputError) -> Self {
        ConfigError::CannotReadInput(error)
    }
}

} // verus!
