use dusk_abi::hosted::{HostCalls, BUFFER_SIZE_LIMIT};
use dusk_abi::{
    Bridge, ContractId, DecodeError, Encodable, HostModule, Module, Query, ReturnValue,
};

/// A host module that knows the squares of a few numbers.
struct Squares {
    known: Vec<u32>,
}

impl Module for Squares {
    fn id() -> ContractId {
        ContractId::reserved(11)
    }
}

impl HostModule for Squares {
    fn execute(&self, query: Query) -> Result<ReturnValue, DecodeError> {
        let asked: u32 = query.cast()?;
        if self.known.contains(&asked) {
            Ok(ReturnValue::from_canon(&(asked as u64 * asked as u64)))
        } else {
            Err(DecodeError::NotFound)
        }
    }
}

/// A host that hands each query to the module that it names.
struct Dispatcher {
    squares: Squares,
}

impl HostCalls for Dispatcher {
    fn query(&mut self, target: &[u8; 32], buf: &mut [u8; BUFFER_SIZE_LIMIT], _: u64) {
        let answer = if *target == Squares::id().to_raw() {
            let (query, _) = Query::decode(&buf[..]).unwrap();
            self.squares.execute(query)
        } else {
            Err(DecodeError::NotFound)
        };
        if let Ok(value) = answer {
            for b in buf.iter_mut() {
                *b = 0;
            }
            let encoded = value.encode_to_vec();
            buf[..encoded.len()].copy_from_slice(&encoded);
        } else {
            // An answer that no return value can be read from: a length that never ends.
            for b in buf.iter_mut() {
                *b = 0xff;
            }
        }
    }

    fn transact(&mut self, _: &[u8; 32], _: &mut [u8; BUFFER_SIZE_LIMIT], _: u64) {}
}

#[test]
fn host_module_has_the_id_of_its_type() {
    let module = Squares { known: vec![] };
    assert_eq!(module.module_id(), Squares::id());
    assert_eq!(module.module_id(), ContractId::reserved(11));
}

#[test]
fn host_module_executes_a_decoded_query() {
    let module = Squares { known: vec![3, 12] };
    let value = module.execute(Query::from_canon(&12u32)).unwrap();
    assert_eq!(value.cast::<u64>(), Ok(144));
    assert_eq!(value, ReturnValue::from_slice(&[0x90, 0x01]));
}

#[test]
fn host_module_says_what_it_does_not_find() {
    let module = Squares { known: vec![3, 12] };
    assert_eq!(module.execute(Query::from_canon(&4u32)), Err(DecodeError::NotFound));
}

#[test]
fn host_module_passes_on_a_decode_error() {
    let module = Squares { known: vec![3, 12] };
    assert_eq!(module.execute(Query::default()), Err(DecodeError::InvalidEncoding));
    assert_eq!(module.execute(Query::from_slice(&[0x80])), Err(DecodeError::InvalidEncoding));
}

#[test]
fn query_reaches_the_module_that_the_target_names() {
    let mut host = Bridge::new(Dispatcher { squares: Squares { known: vec![7] } });
    let target = Squares::id();
    let answer: Result<u64, DecodeError> = dusk_abi::hosted::query(&mut host, &target, &7u32, 10);
    assert_eq!(answer, Ok(49));
    let other = ContractId::reserved(12);
    let missing: Result<u64, DecodeError> = dusk_abi::hosted::query(&mut host, &other, &7u32, 10);
    assert_eq!(missing, Err(DecodeError::InvalidEncoding));
}

#[test]
fn errors_are_told_apart() {
    assert_ne!(DecodeError::InvalidEncoding, DecodeError::NotFound);
    assert_ne!(DecodeError::InvalidEncoding, DecodeError::BufferOverflow);
    assert_ne!(DecodeError::NotFound, DecodeError::BufferOverflow);
    let copy = DecodeError::BufferOverflow;
    assert_eq!(copy.clone(), DecodeError::BufferOverflow);
}
