//! The protocol between contract code and the host that executes it.
//!
//! A contract and its host share no memory and no call stack: they exchange one scratch
//! buffer of fixed capacity through a small set of host functions. This library holds
//! what both sides have to agree on:
//!
//! - [`ContractId`], the 32 bytes that name a contract;
//! - the envelopes [`ContractState`], [`Query`], [`Transaction`] and [`ReturnValue`],
//!   which carry encoded values as opaque bytes;
//! - [`Encodable`], the capability to turn a typed value into bytes and back, with the
//!   encodings of the basic types;
//! - the two call shapes of [`hosted`], query and transact, which write a request into
//!   the buffer, call the host through a [`Bridge`], and decode its response;
//! - [`Module`] and [`HostModule`], by which host modules are named and called.
//!
//! Every function is verified against a contract over the view of its arguments: the
//! bytes of an envelope, the bytes that a buffer holds.

use vstd::prelude::*;

pub mod bridge;
pub mod contract;
pub mod encoding;
pub mod error;
pub mod hex;
pub mod host;
pub mod hosted;
pub mod order;
pub mod query;
pub mod return_value;
pub mod transaction;
pub mod types;
pub mod varint;

pub use bridge::Bridge;
pub use contract::{ContractId, ContractState};
pub use encoding::Encodable;
pub use error::DecodeError;
pub use host::HostModule;
pub use query::Query;
pub use return_value::ReturnValue;
pub use transaction::Transaction;
pub use types::{Signature, H256};

verus! {

/// The trait that modules use to define their own id, on the side of the host and on
/// the side of the contract.
pub trait Module {
    /// Returns the id that identifies this module.
    fn id() -> ContractId where Self: Sized;

    /// Returns the module's id from the object instance: the id of its type.
    fn module_id(&self) -> (r: ContractId) where Self: Sized
        ensures
            call_ensures(Self::id, (), r),
    {
        Self::id()
    }
}

} // verus!
