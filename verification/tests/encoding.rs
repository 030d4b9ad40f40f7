use dusk_abi::encoding::{decode_bytes, encode_bytes};
use dusk_abi::varint::{decode_varint, encode_varint};
use dusk_abi::{ContractId, DecodeError, Encodable};

#[test]
fn varint_of_small_numbers_is_one_byte() {
    assert_eq!(encode_varint(0), vec![0x00]);
    assert_eq!(encode_varint(1), vec![0x01]);
    assert_eq!(encode_varint(42), vec![0x2a]);
    assert_eq!(encode_varint(127), vec![0x7f]);
}

#[test]
fn varint_of_larger_numbers_sets_the_high_bit() {
    assert_eq!(encode_varint(128), vec![0x80, 0x01]);
    assert_eq!(encode_varint(300), vec![0xac, 0x02]);
    assert_eq!(encode_varint(16383), vec![0xff, 0x7f]);
    assert_eq!(encode_varint(16384), vec![0x80, 0x80, 0x01]);
    assert_eq!(encode_varint(u32::MAX as u64), vec![0xff, 0xff, 0xff, 0xff, 0x0f]);
    assert_eq!(
        encode_varint(u64::MAX),
        vec![0xff, 0xff, 0xff, 0xff, 0xff, 0xff, 0xff, 0xff, 0xff, 0x01]
    );
}

#[test]
fn varint_decodes_what_it_encodes() {
    let samples = [
        0u64,
        1,
        127,
        128,
        255,
        256,
        300,
        16383,
        16384,
        1 << 21,
        (1 << 28) - 1,
        1 << 35,
        1 << 42,
        1 << 49,
        1 << 56,
        (1 << 63) - 1,
        1 << 63,
        u64::MAX - 1,
        u64::MAX,
    ];
    for v in samples {
        let bytes = encode_varint(v);
        assert_eq!(decode_varint(&bytes), Ok((v, bytes.len())));
        let mut longer = bytes.clone();
        longer.extend([0xff, 0x00, 0x13]);
        assert_eq!(decode_varint(&longer), Ok((v, bytes.len())));
    }
}

#[test]
fn varint_without_a_last_byte_is_invalid() {
    assert_eq!(decode_varint(&[]), Err(DecodeError::InvalidEncoding));
    assert_eq!(decode_varint(&[0x80]), Err(DecodeError::InvalidEncoding));
    assert_eq!(decode_varint(&[0xff, 0xff, 0xff]), Err(DecodeError::InvalidEncoding));
}

#[test]
fn varint_of_more_than_ten_bytes_is_invalid() {
    let mut bytes = vec![0x80u8; 10];
    bytes.push(0x01);
    assert_eq!(decode_varint(&bytes), Err(DecodeError::InvalidEncoding));
    let mut longer = vec![0xffu8; 20];
    longer.push(0x00);
    assert_eq!(decode_varint(&longer), Err(DecodeError::InvalidEncoding));
}

#[test]
fn varint_of_ten_bytes_drops_the_bits_above_the_64th() {
    // The tenth byte holds bits 63 to 69: only bit 63 is kept.
    let mut bytes = vec![0x80u8; 9];
    bytes.push(0x01);
    assert_eq!(decode_varint(&bytes), Ok((1 << 63, 10)));
    let mut dropped = vec![0x80u8; 9];
    dropped.push(0x02);
    assert_eq!(decode_varint(&dropped), Ok((0, 10)));
    let mut both = vec![0xffu8; 9];
    both.push(0x7f);
    assert_eq!(decode_varint(&both), Ok((u64::MAX, 10)));
}

#[test]
fn varint_that_is_not_the_shortest_is_still_read() {
    assert_eq!(decode_varint(&[0x80, 0x00]), Ok((0, 2)));
    assert_eq!(decode_varint(&[0xaa, 0x80, 0x00]), Ok((42, 3)));
}

#[test]
fn u64_is_a_varint() {
    assert_eq!(100u64.encode_to_vec(), vec![100]);
    assert_eq!(70u64.encode_to_vec(), vec![70]);
    assert_eq!(1_000_000u64.encode_to_vec(), vec![0xc0, 0x84, 0x3d]);
    assert_eq!(u64::decode(&[0xc0, 0x84, 0x3d, 0x99]), Ok((1_000_000, 3)));
    assert_eq!(u64::decode(&[]), Err(DecodeError::InvalidEncoding));
}

#[test]
fn u32_is_a_varint_of_which_the_low_bits_are_kept() {
    assert_eq!(42u32.encode_to_vec(), vec![42]);
    assert_eq!(84u32.encode_to_vec(), vec![84]);
    assert_eq!(300u32.encode_to_vec(), vec![0xac, 0x02]);
    assert_eq!(u32::MAX.encode_to_vec(), vec![0xff, 0xff, 0xff, 0xff, 0x0f]);
    assert_eq!(u32::decode(&[0xac, 0x02]), Ok((300, 2)));
    assert_eq!(u32::decode(&[0xff, 0xff, 0xff, 0xff, 0x0f]), Ok((u32::MAX, 5)));
    // 2^32 + 5 is read as 5.
    assert_eq!(u32::decode(&[0x85, 0x80, 0x80, 0x80, 0x10]), Ok((5, 5)));
    assert_eq!(u32::decode(&[0x80]), Err(DecodeError::InvalidEncoding));
}

#[test]
fn u8_is_itself() {
    assert_eq!(0u8.encode_to_vec(), vec![0]);
    assert_eq!(200u8.encode_to_vec(), vec![200]);
    assert_eq!(u8::decode(&[200, 1, 2]), Ok((200, 1)));
    assert_eq!(u8::decode(&[]), Err(DecodeError::InvalidEncoding));
}

#[test]
fn bool_is_zero_or_one() {
    assert_eq!(true.encode_to_vec(), vec![1]);
    assert_eq!(false.encode_to_vec(), vec![0]);
    assert_eq!(bool::decode(&[1]), Ok((true, 1)));
    assert_eq!(bool::decode(&[0, 9]), Ok((false, 1)));
    assert_eq!(bool::decode(&[2]), Err(DecodeError::InvalidEncoding));
    assert_eq!(bool::decode(&[0xff]), Err(DecodeError::InvalidEncoding));
    assert_eq!(bool::decode(&[]), Err(DecodeError::InvalidEncoding));
}

#[test]
fn unit_takes_no_bytes() {
    assert_eq!(().encode_to_vec(), Vec::<u8>::new());
    assert_eq!(<()>::decode(&[]), Ok(((), 0)));
    assert_eq!(<()>::decode(&[1, 2, 3]), Ok(((), 0)));
}

#[test]
fn bytes_are_their_length_then_themselves() {
    assert_eq!(encode_bytes(&[]), vec![0]);
    assert_eq!(encode_bytes(&[7, 8, 9]), vec![3, 7, 8, 9]);
    assert_eq!(b"withdraw:30".to_vec().encode_to_vec()[0], 11);
    assert_eq!(&b"withdraw:30".to_vec().encode_to_vec()[1..], b"withdraw:30");
    let long = vec![0xabu8; 200];
    let encoded = long.encode_to_vec();
    assert_eq!(encoded.len(), 202);
    assert_eq!(&encoded[..2], &[0xc8, 0x01]);
    assert_eq!(&encoded[2..], &long[..]);
}

#[test]
fn bytes_decode_to_what_was_encoded() {
    assert_eq!(decode_bytes(&[3, 7, 8, 9]), Ok((vec![7, 8, 9], 4)));
    assert_eq!(decode_bytes(&[3, 7, 8, 9, 10, 11]), Ok((vec![7, 8, 9], 4)));
    assert_eq!(decode_bytes(&[0]), Ok((vec![], 1)));
    assert_eq!(decode_bytes(&[0, 5]), Ok((vec![], 1)));
    let long = vec![0xabu8; 200];
    assert_eq!(Vec::<u8>::decode(&long.encode_to_vec()), Ok((long.clone(), 202)));
}

#[test]
fn bytes_shorter_than_their_length_are_invalid() {
    assert_eq!(decode_bytes(&[]), Err(DecodeError::InvalidEncoding));
    assert_eq!(decode_bytes(&[3, 7, 8]), Err(DecodeError::InvalidEncoding));
    assert_eq!(decode_bytes(&[1]), Err(DecodeError::InvalidEncoding));
    assert_eq!(decode_bytes(&[0x80]), Err(DecodeError::InvalidEncoding));
    // A length of 2^64 - 1.
    let mut huge = vec![0xffu8; 9];
    huge.push(0x01);
    huge.extend([1, 2, 3]);
    assert_eq!(decode_bytes(&huge), Err(DecodeError::InvalidEncoding));
}

#[test]
fn pair_is_the_first_then_the_second() {
    let pair = (300u32, true);
    assert_eq!(pair.encode_to_vec(), vec![0xac, 0x02, 0x01]);
    assert_eq!(<(u32, bool)>::decode(&[0xac, 0x02, 0x01, 0x55]), Ok(((300, true), 3)));
    let nested = ((1u8, 2u64), vec![9u8, 9]);
    let encoded = nested.encode_to_vec();
    assert_eq!(encoded, vec![1, 2, 2, 9, 9]);
    assert_eq!(<((u8, u64), Vec<u8>)>::decode(&encoded), Ok((nested, 5)));
}

#[test]
fn pair_fails_where_a_part_fails() {
    assert_eq!(<(u32, bool)>::decode(&[0xac, 0x02]), Err(DecodeError::InvalidEncoding));
    assert_eq!(<(u32, bool)>::decode(&[0xac, 0x02, 0x02]), Err(DecodeError::InvalidEncoding));
    assert_eq!(<(u32, bool)>::decode(&[0xac]), Err(DecodeError::InvalidEncoding));
    assert_eq!(<(bool, u32)>::decode(&[]), Err(DecodeError::InvalidEncoding));
}

#[test]
fn contract_id_is_its_32_bytes() {
    let mut raw = [0u8; 32];
    for (i, b) in raw.iter_mut().enumerate() {
        *b = 0xf0 | (i as u8 & 0x0f);
    }
    let id = ContractId::from_raw(raw);
    assert_eq!(id.encode_to_vec(), raw.to_vec());
    let mut longer = raw.to_vec();
    longer.extend([1, 2, 3]);
    let (back, n) = ContractId::decode(&longer).unwrap();
    assert_eq!(n, 32);
    assert_eq!(back, id);
    assert_eq!(ContractId::decode(&raw[..31]).err(), Some(DecodeError::InvalidEncoding));
    assert_eq!(ContractId::decode(&[]).err(), Some(DecodeError::InvalidEncoding));
}

#[test]
fn integers_across_their_range_come_back() {
    let mut i: u32 = 0;
    while i < u32::MAX {
        i = i.saturating_add(u32::MAX / 1024);
        let bytes = i.encode_to_vec();
        assert!(bytes.len() <= 5);
        assert_eq!(u32::decode(&bytes), Ok((i, bytes.len())));
        assert_eq!((i as u64).encode_to_vec(), bytes);
    }
    let mut j: u64 = 0;
    while j < u64::MAX {
        j = j.saturating_add(u64::MAX / 1024);
        let bytes = j.encode_to_vec();
        assert!(bytes.len() <= 10);
        assert_eq!(u64::decode(&bytes), Ok((j, bytes.len())));
    }
    for b in 0..=255u8 {
        assert_eq!(u8::decode(&b.encode_to_vec()), Ok((b, 1)));
    }
}

#[test]
fn varint_takes_one_byte_for_each_seven_bits() {
    assert_eq!(encode_varint(0).len(), 1);
    assert_eq!(encode_varint(1).len(), 1);
    assert_eq!(encode_varint(128).len(), 2);
    assert_eq!(encode_varint(16384).len(), 3);
    assert_eq!(encode_varint(2097151).len(), 3);
    assert_eq!(encode_varint(2097152).len(), 4);
    assert_eq!(encode_varint(u64::MAX >> 1).len(), 9);
    assert_eq!(encode_varint(1 << 63).len(), 10);
}
