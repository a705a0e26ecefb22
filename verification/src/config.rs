//! What the remote side hands back about a function, as far as it is read
//! here.

use crate::mapping::{Env, Variables};
use vstd::prelude::*;

verus! {

/// The environment block of a function's configuration.
#[derive(Debug, Clone, PartialEq)]
pub struct EnvironmentResponse {
    /// The variables, where the block lists any.
    pub variables: Option<Env>,
}

/// A function's configuration as the remote side reports it. Only the
/// environment block is held: nothing else is read.
#[derive(Debug, Clone, PartialEq)]
pub struct FunctionConfiguration {
    /// The environment block, where the function has one.
    pub environment: Option<EnvironmentResponse>,
}

impl Default for EnvironmentResponse {
    /// A block that lists no variables.
    fn default() -> (response: EnvironmentResponse)
        ensures
            response.variables is None,
    {
        EnvironmentResponse { variables: None }
    }
}

impl Default for FunctionConfiguration {
    /// A configuration without an environment block.
    fn default() -> (conf: FunctionConfiguration)
        ensures
            conf.environment is None,
    {
        FunctionConfiguration { environment: None }
    }
}

impl FunctionConfiguration {
    /// The variables that the configuration sets: those of its environment
    /// block, and none where the block or its list is missing.
    pub open spec fn variables(self) -> Variables {
        match self.environment {
            Some(response) => match response.variables {
                Some(variables) => variables@,
                None => Map::empty(),
            },
            None => Map::empty(),
        }
    }
}

/// The environment that a configuration carries. A configuration without an
/// environment block, or with a block that lists no variables, carries the
/// empty environment: that a function has none configured is no error.
pub fn env(conf: FunctionConfiguration) -> (variables: Env)
    ensures
        variables@ == conf.variables(),
        conf.environment is None ==> variables@ == Map::<Seq<char>, Seq<char>>::empty(),
        conf.environment matches Some(response) && response.variables is None ==> variables@
            == Map::<Seq<char>, Seq<char>>::empty(),
{
    match conf.environment {
        Some(response) => match response.variables {
            Some(variables) => variables,
            None => Env::new(),
        },
        None => Env::new(),
    }
}

} // verus!
