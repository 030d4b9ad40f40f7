//! The call protocol between a contract and its host.
//!
//! One call uses one scratch buffer of fixed capacity. The contract writes its request
//! at the start of a zeroed buffer, the host overwrites the buffer with its response,
//! and the contract decodes the response from the start of the buffer. Envelopes lie in
//! the buffer one after the other, each as its length followed by its bytes.

use crate::bridge::{query_call, transact_call, Bridge};
use crate::contract::{ContractId, ContractState};
use crate::encoding::{
    bytes_decoding, bytes_encoding, cast_of, lemma_bytes_round_trip, Encodable,
};
use crate::error::DecodeError;
use crate::query::Query;
use crate::return_value::ReturnValue;
use crate::transaction::Transaction;
use crate::varint::{lemma_encoding_shape, varint_encoding};
use vstd::array::array_as_slice;
use vstd::prelude::*;
use vstd::slice::slice_subrange;

verus! {

/// Capacity of the scratch buffer of one call, in bytes.
pub const BUFFER_SIZE_LIMIT: usize = 16384;

/// The operations of the host that exchange a buffer with the contract.
///
/// An implementation may rely on the buffer that it is handed: it holds a request as
/// this module writes it. Nothing is assumed of what it writes back: the two relations
/// `query_step` and `transact_step` say only that a call took place, and an
/// implementation is free in what they hold of. The functions of this module call an
/// implementation through a [`Bridge`], which keeps the record that their contracts
/// speak of.
pub trait HostCalls: Sized {
    /// A call of `query` on this host, with this target, buffer and gas limit, may leave
    /// the host as `after` and the buffer holding `out`.
    open spec fn query_step(
        &self,
        target: Seq<u8>,
        buf: Seq<u8>,
        gas_limit: u64,
        after: &Self,
        out: Seq<u8>,
    ) -> bool {
        true
    }

    /// A call of `transact` on this host, with this target, buffer and gas limit, may
    /// leave the host as `after` and the buffer holding `out`.
    open spec fn transact_step(
        &self,
        target: Seq<u8>,
        buf: Seq<u8>,
        gas_limit: u64,
        after: &Self,
        out: Seq<u8>,
    ) -> bool {
        true
    }

    /// Runs a query on the contract `target`. On entry the buffer holds the encoded
    /// query; the host overwrites it with the encoded return value.
    fn query(&mut self, target: &[u8; 32], buf: &mut [u8; BUFFER_SIZE_LIMIT], gas_limit: u64)
        requires
            holds_query(old(buf)@),
        ensures
            old(self).query_step(target@, old(buf)@, gas_limit, final(self), final(buf)@),
    ;

    /// Runs a transaction on the contract `target`. On entry the buffer holds the encoded
    /// state of the caller, then the encoded transaction; the host overwrites it with
    /// the encoded new state, then the encoded return value.
    fn transact(&mut self, target: &[u8; 32], buf: &mut [u8; BUFFER_SIZE_LIMIT], gas_limit: u64)
        requires
            holds_transaction(old(buf)@),
        ensures
            old(self).transact_step(target@, old(buf)@, gas_limit, final(self), final(buf)@),
    ;
}

/// `buf` is the buffer of a query call: it carries some query that fits it.
pub open spec fn holds_query(buf: Seq<u8>) -> bool {
    exists|query: Seq<u8>|
        query_request(query).len() <= BUFFER_SIZE_LIMIT && buf == #[trigger] request_buffer(
            query_request(query),
        )
}

/// `buf` is the buffer of a transact call: it carries some state and some transaction
/// that fit it together.
pub open spec fn holds_transaction(buf: Seq<u8>) -> bool {
    exists|state: Seq<u8>, transaction: Seq<u8>|
        transact_request(state, transaction).len() <= BUFFER_SIZE_LIMIT && buf
            == #[trigger] request_buffer(transact_request(state, transaction))
}

/// The buffer that carries `request`: the request at offset 0, zeros after it.
pub open spec fn request_buffer(request: Seq<u8>) -> Seq<u8>
    recommends
        request.len() <= BUFFER_SIZE_LIMIT,
{
    Seq::new(
        BUFFER_SIZE_LIMIT as nat,
        |i: int|
            if i < request.len() {
                request[i]
            } else {
                0u8
            },
    )
}

/// The request of a query call: the encoded query.
pub open spec fn query_request(query: Seq<u8>) -> Seq<u8> {
    bytes_encoding(query)
}

/// The request of a transact call: the encoded state, then the encoded transaction.
pub open spec fn transact_request(state: Seq<u8>, transaction: Seq<u8>) -> Seq<u8> {
    bytes_encoding(state) + bytes_encoding(transaction)
}

/// What the response to a query holds: the return value decoded at offset 0.
pub open spec fn query_response(buf: Seq<u8>) -> Result<Seq<u8>, DecodeError> {
    match bytes_decoding(buf) {
        Err(e) => Err(e),
        Ok((value, _)) => Ok(value),
    }
}

/// What the response to a transaction holds: the state decoded at offset 0, and the
/// return value decoded at the offset where the state ends.
pub open spec fn transact_response(buf: Seq<u8>) -> Result<(Seq<u8>, Seq<u8>), DecodeError> {
    match bytes_decoding(buf) {
        Err(e) => Err(e),
        Ok((state, n)) => match bytes_decoding(buf.skip(n as int)) {
            Err(e) => Err(e),
            Ok((value, _)) => Ok((state, value)),
        },
    }
}

/// What a typed query call gives for the response `buf`: the return value, cast to `R`.
pub open spec fn query_result<R: Encodable>(buf: Seq<u8>) -> Result<R::V, DecodeError> {
    match query_response(buf) {
        Err(e) => Err(e),
        Ok(value) => cast_of::<R>(value),
    }
}

/// What a transact call gives for the response `buf`: the state, cast to `Slf`, and the
/// return value. Both envelopes are decoded before the state is cast.
pub open spec fn transact_raw_result<Slf: Encodable>(buf: Seq<u8>) -> Result<
    (Slf::V, Seq<u8>),
    DecodeError,
> {
    match transact_response(buf) {
        Err(e) => Err(e),
        Ok((state, value)) => match cast_of::<Slf>(state) {
            Err(e) => Err(e),
            Ok(s) => Ok((s, value)),
        },
    }
}

/// What a typed transact call gives for the response `buf`: the state, cast to `Slf`, and
/// the return value, cast to `R`.
pub open spec fn transact_result<Slf: Encodable, R: Encodable>(buf: Seq<u8>) -> Result<
    (Slf::V, R::V),
    DecodeError,
> {
    match transact_raw_result::<Slf>(buf) {
        Err(e) => Err(e),
        Ok((s, value)) => match cast_of::<R>(value) {
            Err(e) => Err(e),
            Ok(v) => Ok((s, v)),
        },
    }
}

/// The view of what a call returned.
pub open spec fn result_view<T: View>(r: Result<T, DecodeError>) -> Result<T::V, DecodeError> {
    match r {
        Ok(x) => Ok(x@),
        Err(e) => Err(e),
    }
}

/// The state after a transact call and what the call returned, as views.
pub open spec fn outcome_view<S: View, T: View>(state: S, r: Result<T, DecodeError>) -> Result<
    (S::V, T::V),
    DecodeError,
> {
    match r {
        Ok(x) => Ok((state@, x@)),
        Err(e) => Err(e),
    }
}

/// The largest query that fits the buffer: two bytes go to its length.
pub const MAX_QUERY_BYTES: usize = 16382;

/// A request that fits is found at the start of its buffer, with zeros after it.
pub proof fn lemma_request_buffer_split(request: Seq<u8>)
    requires
        request.len() <= BUFFER_SIZE_LIMIT,
    ensures
        request_buffer(request) == request + Seq::new(
            (BUFFER_SIZE_LIMIT - request.len()) as nat,
            |i: int| 0u8,
        ),
{
    assert(request_buffer(request) =~= request + Seq::new(
        (BUFFER_SIZE_LIMIT - request.len()) as nat,
        |i: int| 0u8,
    ));
}

/// A query fits the buffer exactly where it has no more than `MAX_QUERY_BYTES` bytes:
/// one of that length fills the buffer to its last byte.
pub proof fn lemma_query_fits(query: Seq<u8>)
    ensures
        query_request(query).len() <= BUFFER_SIZE_LIMIT <==> query.len() <= MAX_QUERY_BYTES,
        query.len() == MAX_QUERY_BYTES ==> query_request(query).len() == BUFFER_SIZE_LIMIT,
{
    let n = query.len();
    lemma_encoding_shape(n);
    if n < 128 {
    } else if n < 16384 {
        assert(varint_encoding(n).len() == 2) by {
            reveal_with_fuel(varint_encoding, 3);
        }
    }
}

/// What the host finds in the buffer of a query call: the query, at offset 0.
pub proof fn lemma_host_reads_query(query: Seq<u8>)
    requires
        query_request(query).len() <= BUFFER_SIZE_LIMIT,
    ensures
        bytes_decoding(request_buffer(query_request(query))) == Ok::<
            (Seq<u8>, nat),
            DecodeError,
        >((query, query_request(query).len())),
{
    lemma_request_buffer_split(query_request(query));
    lemma_bytes_round_trip(
        query,
        Seq::new((BUFFER_SIZE_LIMIT - query_request(query).len()) as nat, |i: int| 0u8),
    );
}

/// A response that holds an encoded state, then an encoded return value, whatever
/// follows them, is read as that state and that return value.
pub proof fn lemma_transact_response_of_encoded(state: Seq<u8>, value: Seq<u8>, rest: Seq<u8>)
    requires
        state.len() <= u64::MAX,
        value.len() <= u64::MAX,
    ensures
        transact_response(bytes_encoding(state) + bytes_encoding(value) + rest) == Ok::<
            (Seq<u8>, Seq<u8>),
            DecodeError,
        >((state, value)),
{
    let first = bytes_encoding(state);
    let second = bytes_encoding(value);
    let all = first + second + rest;
    assert(all =~= first + (second + rest));
    lemma_bytes_round_trip(state, second + rest);
    lemma_bytes_round_trip(value, rest);
    assert(all.skip(first.len() as int) =~= second + rest);
}

/// What the host finds in the buffer of a transact call: the state at offset 0, and
/// the transaction where the state ends.
pub proof fn lemma_host_reads_transaction(state: Seq<u8>, transaction: Seq<u8>)
    requires
        transact_request(state, transaction).len() <= BUFFER_SIZE_LIMIT,
    ensures
        transact_response(request_buffer(transact_request(state, transaction))) == Ok::<
            (Seq<u8>, Seq<u8>),
            DecodeError,
        >((state, transaction)),
{
    let request = transact_request(state, transaction);
    lemma_request_buffer_split(request);
    lemma_encoding_shape(state.len());
    lemma_encoding_shape(transaction.len());
    lemma_transact_response_of_encoded(
        state,
        transaction,
        Seq::new((BUFFER_SIZE_LIMIT - request.len()) as nat, |i: int| 0u8),
    );
}

/// A response that holds an encoded return value, whatever follows it, is read as that
/// return value.
pub proof fn lemma_query_response_of_encoded(value: Seq<u8>, rest: Seq<u8>)
    requires
        value.len() <= u64::MAX,
    ensures
        query_response(bytes_encoding(value) + rest) == Ok::<Seq<u8>, DecodeError>(value),
{
    lemma_bytes_round_trip(value, rest);
}

/// Makes the buffer of one call: zeroed, with `request` at offset 0. A request larger
/// than the buffer is refused.
pub fn fill_buffer(request: &[u8]) -> (r: Result<[u8; BUFFER_SIZE_LIMIT], DecodeError>)
    ensures
        request@.len() <= BUFFER_SIZE_LIMIT ==> (r matches Ok(buf) && buf@ == request_buffer(
            request@,
        )),
        request@.len() > BUFFER_SIZE_LIMIT ==> (r matches Err(e) && e
            == DecodeError::BufferOverflow),
{
    if request.len() > BUFFER_SIZE_LIMIT {
        return Err(DecodeError::BufferOverflow);
    }
    let mut buf = [0u8; BUFFER_SIZE_LIMIT];
    let mut i: usize = 0;
    while i < request.len()
        invariant
            i <= request@.len() <= BUFFER_SIZE_LIMIT,
            buf@.len() == BUFFER_SIZE_LIMIT,
            forall|j: int| 0 <= j < i ==> buf@[j] == request@[j],
            forall|j: int| i <= j < BUFFER_SIZE_LIMIT ==> buf@[j] == 0,
        decreases request@.len() - i,
    {
        buf[i] = request[i];
        i += 1;
    }
    assert(buf@ =~= request_buffer(request@));
    Ok(buf)
}

/// Makes the buffer of a query call. A query whose encoding is larger than the buffer is
/// refused.
pub fn write_query(query: &Query) -> (r: Result<[u8; BUFFER_SIZE_LIMIT], DecodeError>)
    ensures
        query_request(query@).len() <= BUFFER_SIZE_LIMIT ==> (r matches Ok(buf) && buf@
            == request_buffer(query_request(query@))),
        query_request(query@).len() > BUFFER_SIZE_LIMIT ==> (r matches Err(e) && e
            == DecodeError::BufferOverflow),
{
    let request = query.encode_to_vec();
    fill_buffer(request.as_slice())
}

/// Makes the buffer of a transact call: the state first, the transaction second. A
/// request larger than the buffer is refused.
pub fn write_transaction(state: &ContractState, transaction: &Transaction) -> (r: Result<
    [u8; BUFFER_SIZE_LIMIT],
    DecodeError,
>)
    ensures
        transact_request(state@, transaction@).len() <= BUFFER_SIZE_LIMIT ==> (r matches Ok(buf)
            && buf@ == request_buffer(transact_request(state@, transaction@))),
        transact_request(state@, transaction@).len() > BUFFER_SIZE_LIMIT ==> (r matches Err(e)
            && e == DecodeError::BufferOverflow),
{
    let mut request = state.encode_to_vec();
    let mut second = transaction.encode_to_vec();
    request.append(&mut second);
    fill_buffer(request.as_slice())
}

/// Decodes the response to a query: the return value at offset 0.
pub fn read_return(buf: &[u8; BUFFER_SIZE_LIMIT]) -> (r: Result<ReturnValue, DecodeError>)
    ensures
        result_view(r) == query_response(buf@),
{
    match ReturnValue::decode(array_as_slice(buf)) {
        Ok((value, _)) => Ok(value),
        Err(e) => Err(e),
    }
}

/// Decodes the response to a transaction: the state at offset 0, then the return value
/// at the offset where the state ends.
pub fn read_state_and_return(buf: &[u8; BUFFER_SIZE_LIMIT]) -> (r: Result<
    (ContractState, ReturnValue),
    DecodeError,
>)
    ensures
        match transact_response(buf@) {
            Ok((s, v)) => r matches Ok((state, value)) && state@ == s && value@ == v,
            Err(e) => r matches Err(f) && f == e,
        },
{
    let bytes = array_as_slice(buf);
    match ContractState::decode(bytes) {
        Err(e) => Err(e),
        Ok((state, n)) => {
            let rest = slice_subrange(bytes, n, bytes.len());
            assert(rest@ =~= buf@.skip(n as int));
            match ReturnValue::decode(rest) {
                Err(e) => Err(e),
                Ok((value, _)) => Ok((state, value)),
            }
        },
    }
}

/// Decodes the response to a query and casts the return value to `R`.
pub fn read_return_as<R: Encodable>(buf: &[u8; BUFFER_SIZE_LIMIT]) -> (r: Result<R, DecodeError>)
    ensures
        result_view(r) == query_result::<R>(buf@),
{
    match read_return(buf) {
        Ok(value) => value.cast::<R>(),
        Err(e) => Err(e),
    }
}

/// Settles a call that may change state: where it gave a new state and a value, `slf`
/// is replaced by that state and the value is returned; where it gave an error, `slf`
/// is left as it was and the error is returned.
pub fn replace_state<S, R, E>(slf: &mut S, outcome: Result<(S, R), E>) -> (r: Result<R, E>)
    ensures
        match outcome {
            Ok((state, value)) => *final(slf) == state && r == Ok::<R, E>(value),
            Err(e) => *final(slf) == *old(slf) && r == Err::<R, E>(e),
        },
{
    match outcome {
        Ok((state, value)) => {
            *slf = state;
            Ok(value)
        },
        Err(e) => Err(e),
    }
}

/// Decodes the response to a transaction into the state of the caller: where the
/// response holds a state that casts to `Slf`, and a return value, `slf` is replaced by
/// that state and the return value is given. On any error `slf` is left as it was.
pub fn read_into_state<Slf: Encodable>(slf: &mut Slf, buf: &[u8; BUFFER_SIZE_LIMIT]) -> (r:
    Result<ReturnValue, DecodeError>)
    ensures
        outcome_view(*final(slf), r) == transact_raw_result::<Slf>(buf@),
        r is Err ==> *final(slf) == *old(slf),
{
    let outcome = match read_state_and_return(buf) {
        Err(e) => Err(e),
        Ok((state, value)) => match state.cast::<Slf>() {
            Err(e) => Err(e),
            Ok(s) => Ok((s, value)),
        },
    };
    replace_state(slf, outcome)
}

/// Decodes the response to a transaction into the state of the caller and casts the
/// return value to `R`: `slf` is replaced only where the state and the return value
/// were both decoded and cast. On any error `slf` is left as it was.
pub fn read_into_state_as<Slf: Encodable, R: Encodable>(
    slf: &mut Slf,
    buf: &[u8; BUFFER_SIZE_LIMIT],
) -> (r: Result<R, DecodeError>)
    ensures
        outcome_view(*final(slf), r) == transact_result::<Slf, R>(buf@),
        r is Err ==> *final(slf) == *old(slf),
{
    let outcome = match read_state_and_return(buf) {
        Err(e) => Err(e),
        Ok((state, value)) => match state.cast::<Slf>() {
            Err(e) => Err(e),
            Ok(s) => match value.cast::<R>() {
                Err(e) => Err(e),
                Ok(v) => Ok((s, v)),
            },
        },
    };
    replace_state(slf, outcome)
}

/// Call another contract at address `target`.
///
/// A query whose encoding does not fit the buffer is refused, and the host is not
/// called. Else the host is called once: with the bytes of `target`, the buffer that
/// holds the whole encoded query and zeros after it, and `gas_limit`. The call gives
/// what the buffer holds when the host returns.
pub fn query_raw<H: HostCalls>(
    host: &mut Bridge<H>,
    target: &ContractId,
    query: &Query,
    gas_limit: u64,
) -> (r: Result<ReturnValue, DecodeError>)
    ensures
        query_request(query@).len() > BUFFER_SIZE_LIMIT ==> (r matches Err(e) && e
            == DecodeError::BufferOverflow) && *final(host) == *old(host),
        query_request(query@).len() <= BUFFER_SIZE_LIMIT ==> final(host).asked() == old(
            host,
        ).asked().push(
            query_call(target@, request_buffer(query_request(query@)), gas_limit),
        ) && result_view(r) == query_response(final(host).answered()),
        query_request(query@).len() <= BUFFER_SIZE_LIMIT ==> old(host).inner().query_step(
            target@,
            request_buffer(query_request(query@)),
            gas_limit,
            &final(host).inner(),
            final(host).answered(),
        ),
{
    let mut buf = match write_query(query) {
        Ok(buf) => buf,
        Err(e) => {
            return Err(e);
        },
    };
    let id = target.to_raw();
    host.query(&id, &mut buf, gas_limit);
    read_return(&buf)
}

/// Call another contract at address `target`, with a typed argument and a typed result.
///
/// The argument is wrapped in a query, which is sent as `query_raw` sends it, with one
/// call of the host, and the return value is cast to `R`.
pub fn query<A: Encodable, R: Encodable, H: HostCalls>(
    host: &mut Bridge<H>,
    target: &ContractId,
    argument: &A,
    gas_limit: u64,
) -> (r: Result<R, DecodeError>)
    ensures
        query_request(A::encoding(argument@)).len() > BUFFER_SIZE_LIMIT ==> (r matches Err(e) && e
            == DecodeError::BufferOverflow) && *final(host) == *old(host),
        query_request(A::encoding(argument@)).len() <= BUFFER_SIZE_LIMIT ==> final(host).asked()
            == old(host).asked().push(
            query_call(
                target@,
                request_buffer(query_request(A::encoding(argument@))),
                gas_limit,
            ),
        ) && result_view(r) == query_result::<R>(final(host).answered()),
        query_request(A::encoding(argument@)).len() <= BUFFER_SIZE_LIMIT ==> old(host).inner().query_step(
            target@,
            request_buffer(query_request(A::encoding(argument@))),
            gas_limit,
            &final(host).inner(),
            final(host).answered(),
        ),
{
    let wrapped = Query::from_canon(argument);
    match query_raw(host, target, &wrapped, gas_limit) {
        Ok(value) => value.cast::<R>(),
        Err(e) => Err(e),
    }
}

/// Hands the state and the transaction to the host and decodes what it answers: the new
/// state and the return value.
///
/// A request that does not fit the buffer is refused, and the host is not called. Else
/// the host is called once: with the bytes of `target`, the buffer that holds the
/// encoded state, then the encoded transaction, then zeros, and `gas_limit`.
pub fn transact_state<H: HostCalls>(
    host: &mut Bridge<H>,
    state: &ContractState,
    target: &ContractId,
    transaction: &Transaction,
    gas_limit: u64,
) -> (r: Result<(ContractState, ReturnValue), DecodeError>)
    ensures
        transact_request(state@, transaction@).len() > BUFFER_SIZE_LIMIT ==> (r matches Err(e)
            && e == DecodeError::BufferOverflow) && *final(host) == *old(host),
        transact_request(state@, transaction@).len() <= BUFFER_SIZE_LIMIT ==> final(host).asked()
            == old(host).asked().push(
            transact_call(
                target@,
                request_buffer(transact_request(state@, transaction@)),
                gas_limit,
            ),
        ) && result_view(r) == transact_response(final(host).answered()),
        transact_request(state@, transaction@).len() <= BUFFER_SIZE_LIMIT ==> old(host).inner().transact_step(
            target@,
            request_buffer(transact_request(state@, transaction@)),
            gas_limit,
            &final(host).inner(),
            final(host).answered(),
        ),
{
    let mut buf = match write_transaction(state, transaction) {
        Ok(buf) => buf,
        Err(e) => {
            return Err(e);
        },
    };
    let id = target.to_raw();
    host.transact(&id, &mut buf, gas_limit);
    read_state_and_return(&buf)
}

/// Call another contract at address `target`, which may change the state of the caller.
///
/// The state `slf` is encoded and handed to the host with the transaction, in one call.
/// Where the response holds a state that casts to `Slf` and a return value, `slf` is
/// replaced by that state. On any error `slf` is left as it was.
pub fn transact_raw<Slf: Encodable, H: HostCalls>(
    host: &mut Bridge<H>,
    slf: &mut Slf,
    target: &ContractId,
    transaction: &Transaction,
    gas_limit: u64,
) -> (r: Result<ReturnValue, DecodeError>)
    ensures
        r is Err ==> *final(slf) == *old(slf),
        transact_request(Slf::encoding(old(slf)@), transaction@).len() > BUFFER_SIZE_LIMIT ==> (
        r matches Err(e) && e == DecodeError::BufferOverflow) && *final(host) == *old(host),
        transact_request(Slf::encoding(old(slf)@), transaction@).len() <= BUFFER_SIZE_LIMIT
            ==> final(host).asked() == old(host).asked().push(
            transact_call(
                target@,
                request_buffer(transact_request(Slf::encoding(old(slf)@), transaction@)),
                gas_limit,
            ),
        ) && outcome_view(*final(slf), r) == transact_raw_result::<Slf>(
            final(host).answered(),
        ),
        transact_request(Slf::encoding(old(slf)@), transaction@).len() <= BUFFER_SIZE_LIMIT ==> old(host).inner().transact_step(
            target@,
            request_buffer(transact_request(Slf::encoding(old(slf)@), transaction@)),
            gas_limit,
            &final(host).inner(),
            final(host).answered(),
        ),
{
    let state = ContractState::from_canon(&*slf);
    let mut buf = match write_transaction(&state, transaction) {
        Ok(buf) => buf,
        Err(e) => {
            return Err(e);
        },
    };
    let id = target.to_raw();
    host.transact(&id, &mut buf, gas_limit);
    read_into_state(slf, &buf)
}

/// Call another contract at address `target`, with a typed transaction and a typed
/// result, which may change the state of the caller.
///
/// The transaction is wrapped in an envelope and sent as `transact_raw` sends it, with
/// one call of the host, and the return value is cast to `R`. `slf` is replaced only
/// where every step has succeeded.
pub fn transact<A: Encodable, R: Encodable, Slf: Encodable, H: HostCalls>(
    host: &mut Bridge<H>,
    slf: &mut Slf,
    target: &ContractId,
    transaction: &A,
    gas_limit: u64,
) -> (r: Result<R, DecodeError>)
    ensures
        r is Err ==> *final(slf) == *old(slf),
        transact_request(Slf::encoding(old(slf)@), A::encoding(transaction@)).len()
            > BUFFER_SIZE_LIMIT ==> (r matches Err(e) && e == DecodeError::BufferOverflow)
            && *final(host) == *old(host),
        transact_request(Slf::encoding(old(slf)@), A::encoding(transaction@)).len()
            <= BUFFER_SIZE_LIMIT ==> final(host).asked() == old(host).asked().push(
            transact_call(
                target@,
                request_buffer(
                    transact_request(Slf::encoding(old(slf)@), A::encoding(transaction@)),
                ),
                gas_limit,
            ),
        ) && outcome_view(*final(slf), r) == transact_result::<Slf, R>(
            final(host).answered(),
        ),
        transact_request(Slf::encoding(old(slf)@), A::encoding(transaction@)).len() <= BUFFER_SIZE_LIMIT ==> old(host).inner().transact_step(
            target@,
            request_buffer(transact_request(Slf::encoding(old(slf)@), A::encoding(transaction@))),
            gas_limit,
            &final(host).inner(),
            final(host).answered(),
        ),
{
    let wrapped = Transaction::from_canon(transaction);
    let state = ContractState::from_canon(&*slf);
    let mut buf = match write_transaction(&state, &wrapped) {
        Ok(buf) => buf,
        Err(e) => {
            return Err(e);
        },
    };
    let id = target.to_raw();
    host.transact(&id, &mut buf, gas_limit);
    read_into_state_as(slf, &buf)
}

} // verus!
