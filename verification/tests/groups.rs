use voprf::oprf::groups::ristretto::RISTRETTO_BYTE_LENGTH;
use voprf::oprf::groups::PrimeOrderGroup;

#[test]
fn it_works() {
    assert_eq!(2 + 2, 4);
}

#[test]
fn ristretto_255_has_the_base_point_and_32_bytes() {
    let pog = PrimeOrderGroup::ristretto_255();
    let base: [u8; 32] = [
        0xe2, 0xf2, 0xae, 0x0a, 0x6a, 0xbc, 0x4e, 0x71, 0xa8, 0x84, 0xa9, 0x61, 0xc5, 0x00, 0x51,
        0x5f, 0x58, 0xe3, 0x0b, 0x6a, 0xa5, 0x82, 0xdd, 0x8d, 0xb6, 0xa6, 0x59, 0x45, 0xe0, 0x8d,
        0x2d, 0x76,
    ];
    assert_eq!(pog.serialize(pog.generator), base.to_vec());
    assert_eq!(pog.generator.to_bytes(), base);
    assert_eq!(pog.byte_length, 32);
    assert_eq!(RISTRETTO_BYTE_LENGTH, 32);
}
