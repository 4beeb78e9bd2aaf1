//! The result of a step of the runtime.

use vstd::prelude::*;
use crate::run::error::RunErrorStack;

verus! {

pub type RunResult<T> = Result<T, RunErrorStack>;

} // verus!
