use ethers::abi::{encode, short_signature, ParamType, Token};
use uniswap_v3_pool::abi::{encode_swap_call, push_address, push_bytes, push_word, read_address, read_word};
use uniswap_v3_pool::h160::H160;
use uniswap_v3_pool::i256::I256;
use uniswap_v3_pool::pool::UniswapV3Pool;
use uniswap_v3_pool::u256::U256;

fn dec(s: &str) -> U256 {
    U256(ethers::types::U256::from_dec_str(s).unwrap().0)
}

fn counting(len: usize) -> Vec<u8> {
    (0..len).map(|i| (i * 7 + 3) as u8).collect()
}

#[test]
fn a_word_is_read_most_significant_byte_first() {
    let mut data = vec![0u8; 32];
    data[31] = 1;
    assert_eq!(read_word(&data, 0), Some(U256::one()));
    data[0] = 0x80;
    assert_eq!(read_word(&data, 0), Some(U256([1, 0, 0, 1 << 63])));
    let data = counting(96);
    for index in 0..3 {
        let expected = ethers::types::U256::from_big_endian(&data[32 * index..32 * index + 32]);
        assert_eq!(read_word(&data, index), Some(U256(expected.0)));
    }
}

#[test]
fn a_word_must_lie_inside_the_data() {
    assert_eq!(read_word(&vec![], 0), None);
    assert_eq!(read_word(&counting(31), 0), None);
    assert_eq!(read_word(&counting(63), 1), None);
    assert!(read_word(&counting(64), 1).is_some());
    assert_eq!(read_word(&counting(64), 2), None);
    assert_eq!(read_word(&counting(64), usize::MAX), None);
    assert_eq!(read_address(&counting(63), 1), None);
    assert_eq!(read_address(&counting(64), usize::MAX / 32), None);
}

#[test]
fn an_address_is_the_low_twenty_bytes() {
    let data = counting(64);
    let mut expected = [0u8; 20];
    expected.copy_from_slice(&data[44..64]);
    assert_eq!(read_address(&data, 1), Some(H160(expected)));
    expected.copy_from_slice(&data[12..32]);
    assert_eq!(read_address(&data, 0), Some(H160(expected)));
}

#[test]
fn a_word_is_written_as_it_is_read() {
    for word in [U256::zero(), U256::one(), U256::max_value(), U256([1, 2, 3, 4]), dec("79228162514264337593543950336")] {
        let mut out = vec![0xee];
        push_word(&mut out, word);
        assert_eq!(out.len(), 33);
        assert_eq!(out[0], 0xee);
        let mut expected = [0u8; 32];
        ethers::types::U256(word.0).to_big_endian(&mut expected);
        assert_eq!(&out[1..], &expected[..]);
        assert_eq!(read_word(&out[1..].to_vec(), 0), Some(word));
    }
}

#[test]
fn an_address_is_written_behind_twelve_zero_bytes() {
    let mut out = vec![];
    push_address(&mut out, &H160([0xab; 20]));
    assert_eq!(out, encode(&[Token::Address(ethers::types::H160([0xab; 20]))]));
    assert_eq!(read_address(&out, 0), Some(H160([0xab; 20])));
}

#[test]
fn bytes_are_written_behind_their_length_and_padded() {
    for len in [0usize, 1, 31, 32, 33, 64, 100] {
        let bytes = counting(len);
        let mut out = vec![];
        push_bytes(&mut out, &bytes);
        let expected = encode(&[Token::Bytes(bytes.clone())]);
        assert_eq!(out, expected[32..].to_vec());
        assert_eq!(out.len() % 32, 0);
    }
}

fn expected_call(recipient: [u8; 20], zero_for_one: bool, amount: U256, limit: U256, calldata: Vec<u8>) -> Vec<u8> {
    let types = [ParamType::Address, ParamType::Bool, ParamType::Int(256), ParamType::Uint(160), ParamType::Bytes];
    let mut out = short_signature("swap", &types).to_vec();
    out.extend(encode(&[
        Token::Address(ethers::types::H160(recipient)),
        Token::Bool(zero_for_one),
        Token::Int(ethers::types::U256(amount.0)),
        Token::Uint(ethers::types::U256(limit.0)),
        Token::Bytes(calldata),
    ]));
    out
}

#[test]
fn swap_call_matches_the_contract_encoding() {
    let limit = U256::from_u64(4295128740);
    let minus_five = I256::zero().checked_sub(I256::from_raw(U256::from_u64(5))).unwrap();
    for (zero_for_one, amount, calldata) in [
        (true, U256::from_u64(1_000_000), vec![]),
        (false, dec("1000000000000000000"), counting(1)),
        (true, minus_five.into_raw(), counting(32)),
        (false, U256::max_value(), counting(77)),
    ] {
        let out = encode_swap_call(&H160([0x11; 20]), zero_for_one, amount, limit, &calldata);
        assert_eq!(out, expected_call([0x11; 20], zero_for_one, amount, limit, calldata.clone()));
        let pool = UniswapV3Pool::default();
        let through_pool = pool.swap_calldata(H160([0x11; 20]), zero_for_one, I256::from_raw(amount), limit, calldata);
        assert_eq!(through_pool, out);
    }
}

#[test]
fn swap_call_begins_with_the_selector() {
    let out = encode_swap_call(&H160::zero(), false, U256::zero(), U256::zero(), &vec![]);
    assert_eq!(&out[..4], &[0x12, 0x8a, 0xcb, 0x08]);
    assert_eq!(out.len(), 4 + 6 * 32);
    assert_eq!(read_word(&out[4..].to_vec(), 4), Some(U256::from_u64(160)));
}
