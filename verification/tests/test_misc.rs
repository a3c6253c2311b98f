use osom_x64::encoder::misc::{encode_nop, encode_ret};
use osom_x64::EncodingError;

#[test]
fn test_ret() {
    let encoded_ret = encode_ret();
    assert_eq!(encoded_ret.as_slice(), &[0xC3]);
}

#[test]
fn test_nop_size() {
    for idx in 1..=9 {
        let encoded_nop = encode_nop(idx).unwrap();
        assert_eq!(encoded_nop.len(), idx);
    }
}

#[test]
fn test_nop_out_of_range() {
    assert_eq!(encode_nop(0).err(), Some(EncodingError::ArgumentOutOfRange));
    assert_eq!(encode_nop(10).err(), Some(EncodingError::ArgumentOutOfRange));
    assert_eq!(encode_nop(255).err(), Some(EncodingError::ArgumentOutOfRange));
}
