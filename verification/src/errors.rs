//! Error types surfaced by the serving core.

use vstd::prelude::*;

verus! {

/// A model backend or the sampling layer failed while producing tokens.
#[derive(Debug)]
pub struct GenerationError {
    pub message: String,
}

impl GenerationError {
    pub fn new(message: String) -> (r: GenerationError)
        ensures
            r.message@ == message@,
    {
        GenerationError { message }
    }

    pub fn describe(&self) -> (r: &String)
        ensures
            r@ == self.message@,
    {
        &self.message
    }
}

/// A startup option could not be understood.
#[derive(Debug)]
pub struct ConfigError {
    pub message: String,
}

impl ConfigError {
    pub fn new(message: String) -> (r: ConfigError)
        ensures
            r.message@ == message@,
    {
        ConfigError { message }
    }

    pub fn describe(&self) -> (r: &String)
        ensures
            r@ == self.message@,
    {
        &self.message
    }
}

/// An enqueue was rejected because the prompt queue is at its bound.
#[derive(Debug, PartialEq, Eq, Structural)]
pub struct QueueFullError;

} // verus!
