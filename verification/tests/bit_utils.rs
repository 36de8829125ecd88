use nibble8::bit_utils::get_bit_from_byte;

#[test]
fn it_works() {
    let byte = 0b11011100;
    assert_eq!(get_bit_from_byte(0, &byte), true);
    assert_eq!(get_bit_from_byte(1, &byte), true);
    assert_eq!(get_bit_from_byte(2, &byte), false);
    assert_eq!(get_bit_from_byte(3, &byte), true);
    assert_eq!(get_bit_from_byte(4, &byte), true);
    assert_eq!(get_bit_from_byte(5, &byte), true);
    assert_eq!(get_bit_from_byte(6, &byte), false);
    assert_eq!(get_bit_from_byte(7, &byte), false);
}

#[test]
fn every_byte_is_the_sum_of_its_bits() {
    for value in 0..=255u8 {
        let mut rebuilt: u8 = 0;
        for bit in 0..8usize {
            if get_bit_from_byte(bit, &value) {
                rebuilt |= 0x80 >> bit;
            }
        }
        assert_eq!(rebuilt, value);
    }
}
