//! The one way to the host: a bridge that makes each call and keeps the record of it.
//!
//! The functions of the call protocol reach the host through a [`Bridge`] only. Its
//! fields are private, so each call that they make is a call of [`Bridge::query`] or
//! [`Bridge::transact`]. Each of these makes one call of the host and writes it down in
//! the same step, and its contract ties the two together: the record grows by the call,
//! and the step relation of the host holds between the host before and after it, for
//! the very target, buffer and gas limit that were written down. The record is what
//! the contracts of the protocol speak of: which operation was asked for, with which
//! target, buffer and gas limit, and what the host left in the buffer.

use crate::hosted::{holds_query, holds_transaction, HostCalls, BUFFER_SIZE_LIMIT};
use vstd::prelude::*;

verus! {

/// The operations of the host that take a buffer.
#[derive(Clone, Copy, Debug, PartialEq, Eq, Structural)]
pub enum Operation {
    /// A read-only call.
    Query,
    /// A call that may change the state of the caller.
    Transact,
}

/// One call of the host, as it was made.
pub struct HostCall {
    /// The operation that was called.
    pub operation: Operation,
    /// The 32 bytes of the identity that the call was aimed at.
    pub target: Seq<u8>,
    /// What the buffer held on entry.
    pub buffer: Seq<u8>,
    /// The gas limit of the call.
    pub gas_limit: u64,
}

/// The record of a query call.
pub open spec fn query_call(target: Seq<u8>, buffer: Seq<u8>, gas_limit: u64) -> HostCall {
    HostCall { operation: Operation::Query, target, buffer, gas_limit }
}

/// The record of a transact call.
pub open spec fn transact_call(target: Seq<u8>, buffer: Seq<u8>, gas_limit: u64) -> HostCall {
    HostCall { operation: Operation::Transact, target, buffer, gas_limit }
}

/// A host together with the record of the calls that were made of it.
pub struct Bridge<H: HostCalls> {
    host: H,
    asked: Ghost<Seq<HostCall>>,
    answered: Ghost<Seq<u8>>,
}

impl<H: HostCalls> Bridge<H> {
    /// The calls that were made through this bridge, the first one first.
    pub closed spec fn asked(&self) -> Seq<HostCall> {
        self.asked@
    }

    /// What the host left in the buffer of the last call. Empty before the first call.
    pub closed spec fn answered(&self) -> Seq<u8> {
        self.answered@
    }

    /// The host behind the bridge.
    pub closed spec fn inner(&self) -> H {
        self.host
    }

    /// A bridge to `host`, through which no call was made yet.
    pub fn new(host: H) -> (r: Self)
        ensures
            r.inner() == host,
            r.asked() == Seq::<HostCall>::empty(),
            r.answered() == Seq::<u8>::empty(),
    {
        Bridge { host, asked: Ghost(Seq::empty()), answered: Ghost(Seq::empty()) }
    }

    /// The host behind the bridge, to look at.
    pub fn host(&self) -> (r: &H)
        ensures
            *r == self.inner(),
    {
        &self.host
    }

    /// Gives the host back.
    pub fn into_host(self) -> (r: H)
        ensures
            r == self.inner(),
    {
        self.host
    }

    /// Calls the query operation of the host, once, with what it is given, and writes
    /// the call down.
    pub fn query(&mut self, target: &[u8; 32], buf: &mut [u8; BUFFER_SIZE_LIMIT], gas_limit: u64)
        requires
            holds_query(old(buf)@),
        ensures
            old(self).inner().query_step(
                target@,
                old(buf)@,
                gas_limit,
                &final(self).inner(),
                final(buf)@,
            ),
            final(self).asked() == old(self).asked().push(
                query_call(target@, old(buf)@, gas_limit),
            ),
            final(self).answered() == final(buf)@,
            final(buf)@.len() == BUFFER_SIZE_LIMIT,
    {
        let ghost entry = buf@;
        self.host.query(target, buf, gas_limit);
        self.asked = Ghost(self.asked@.push(query_call(target@, entry, gas_limit)));
        self.answered = Ghost(buf@);
    }

    /// Calls the transact operation of the host, once, with what it is given, and
    /// writes the call down.
    pub fn transact(
        &mut self,
        target: &[u8; 32],
        buf: &mut [u8; BUFFER_SIZE_LIMIT],
        gas_limit: u64,
    )
        requires
            holds_transaction(old(buf)@),
        ensures
            old(self).inner().transact_step(
                target@,
                old(buf)@,
                gas_limit,
                &final(self).inner(),
                final(buf)@,
            ),
            final(self).asked() == old(self).asked().push(
                transact_call(target@, old(buf)@, gas_limit),
            ),
            final(self).answered() == final(buf)@,
            final(buf)@.len() == BUFFER_SIZE_LIMIT,
    {
        let ghost entry = buf@;
        self.host.transact(target, buf, gas_limit);
        self.asked = Ghost(self.asked@.push(transact_call(target@, entry, gas_limit)));
        self.answered = Ghost(buf@);
    }
}

} // verus!
