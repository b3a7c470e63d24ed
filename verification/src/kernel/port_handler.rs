use vstd::prelude::*;

verus! {

/// Why an invocation could not be run.
#[derive(Clone, Copy, PartialEq, Eq, Structural, Debug)]
pub enum InvokeError {
    UnknownName,
}

} // verus!
