//! The host side of a query: a module that executes what a query asks.

use crate::error::DecodeError;
use crate::query::Query;
use crate::return_value::ReturnValue;
use crate::Module;
use vstd::prelude::*;

verus! {

/// The trait that host function modules use to communicate with the VM.
pub trait HostModule: Module {
    /// Execute a query for the current module: decode the request it holds, run it
    /// against the module, and encode what it gives, or say why the request could not
    /// be decoded.
    fn execute(&self, query: Query) -> Result<ReturnValue, DecodeError>;
}

} // verus!
