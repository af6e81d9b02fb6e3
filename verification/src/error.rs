//! The error surfaced when simulation parameters are rejected.
use vstd::prelude::*;

verus! {

#[derive(Debug)]
pub enum Error {
    InvalidInput(String),
}

} // verus!
