//! What the web interface answers.

use vstd::prelude::*;
use vstd::std_specs::cmp::PartialEqSpecImpl;

verus! {

/// An error as the web interface reports it: a code for programs and a
/// description for people.
#[derive(Clone, Debug)]
pub struct RspErr {
    pub code: usize,
    pub description: String,
}

impl PartialEq for RspErr {
    /// Two errors are the same error when their codes agree, whatever the
    /// descriptions say.
    fn eq(&self, other: &Self) -> (same: bool) {
        self.code == other.code
    }
}

impl PartialEqSpecImpl for RspErr {
    open spec fn obeys_eq_spec() -> bool {
        true
    }

    open spec fn eq_spec(&self, other: &Self) -> bool {
        self.code == other.code
    }
}

/// An answer of the web interface: the data asked for, or an error.
#[derive(Clone, Debug)]
pub enum RspData<T> {
    Data(T),
    Error(RspErr),
}

} // verus!
