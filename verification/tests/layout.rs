use bitstuff::layout::{read_field, write_field};

#[test]
fn reads_the_bits_of_a_field() {
    assert_eq!(read_field(0b1011_0100, 2, 3), 0b101);
    assert_eq!(read_field(0xDEAD_BEEF, 8, 8), 0xBE);
    assert_eq!(read_field(u128::MAX, 0, 127), u128::MAX >> 1);
    assert_eq!(read_field(u128::MAX, 127, 1), 1);
    assert_eq!(read_field(1 << 127, 127, 1), 1);
    assert_eq!(read_field(0xFF, 4, 0), 0);
}

#[test]
fn a_field_read_is_the_quotient_modulo_two_to_the_width() {
    let word: u128 = 0x0123_4567_89AB_CDEF_FEDC_BA98_7654_3210;
    for start in [0u32, 1, 5, 17, 64, 100] {
        for width in [1u32, 3, 8, 13, 27] {
            if start + width <= 128 {
                assert_eq!(read_field(word, start, width), (word >> start) % (1u128 << width));
            }
        }
    }
}

#[test]
fn writes_the_bits_of_a_field() {
    assert_eq!(write_field(0, 2, 3, 0b101), 0b1_0100);
    assert_eq!(write_field(0xFFFF, 4, 8, 0), 0xF00F);
    assert_eq!(write_field(0, 8, 4, 0xAB), 0xB00);
    assert_eq!(write_field(0, 127, 1, 1), 1 << 127);
    assert_eq!(write_field(0, 0, 127, u128::MAX), u128::MAX >> 1);
}

#[test]
fn reads_back_what_was_written() {
    let word: u128 = 0x5555_AAAA_5555_AAAA_5555_AAAA_5555_AAAA;
    for (start, width, value) in [(0u32, 8u32, 0xC3u128), (11, 5, 31), (60, 9, 300), (100, 27, 12345)] {
        let written = write_field(word, start, width, value);
        assert_eq!(read_field(written, start, width), value & ((1 << width) - 1));
    }
    let written = write_field(0, 4, 3, 0xFF);
    assert_eq!(read_field(written, 4, 3), 0b111);
}

#[test]
fn writing_leaves_other_fields_alone() {
    let word: u128 = 0x0F0F_F0F0_1234_5678_9ABC_DEF0_1357_9BDF;
    let written = write_field(word, 16, 8, 0x42);
    assert_eq!(read_field(written, 0, 16), read_field(word, 0, 16));
    assert_eq!(read_field(written, 24, 100), read_field(word, 24, 100));
    assert_eq!(read_field(written, 16, 8), 0x42);
}

#[test]
fn writing_back_what_was_read_changes_nothing() {
    let word: u128 = 0xFEED_FACE_CAFE_BEEF_0000_1111_2222_3333;
    for (start, width) in [(0u32, 1u32), (3, 7), (40, 50), (127, 1), (1, 127)] {
        assert_eq!(write_field(word, start, width, read_field(word, start, width)), word);
    }
}

#[test]
fn the_second_write_wins() {
    let word: u128 = 0x1234;
    let twice = write_field(write_field(word, 4, 4, 0x9), 4, 4, 0x6);
    assert_eq!(twice, write_field(word, 4, 4, 0x6));
    assert_eq!(twice, 0x1264);
}

#[test]
fn writes_to_separate_fields_commute() {
    let word: u128 = 0xAAAA;
    let a = write_field(write_field(word, 0, 4, 0x3), 8, 4, 0xC);
    let b = write_field(write_field(word, 8, 4, 0xC), 0, 4, 0x3);
    assert_eq!(a, b);
    assert_eq!(a, 0xACA3);
}
