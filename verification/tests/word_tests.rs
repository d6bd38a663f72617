use deet::word::{align_addr_to_word, extract_byte, replace_byte_in_word};

#[test]
fn align_rounds_down_to_word_boundary() {
    assert_eq!(align_addr_to_word(0x1000), 0x1000);
    assert_eq!(align_addr_to_word(0x1001), 0x1000);
    assert_eq!(align_addr_to_word(0x1007), 0x1000);
    assert_eq!(align_addr_to_word(0x1008), 0x1008);
    assert_eq!(align_addr_to_word(7), 0);
}

#[test]
fn replace_byte_changes_exactly_one_byte() {
    let word: u64 = 0x1122334455667788;
    for offset in 0..8usize {
        let patched = replace_byte_in_word(word, offset, 0xcc);
        for j in 0..8usize {
            if j == offset {
                assert_eq!(extract_byte(patched, j), 0xcc);
            } else {
                assert_eq!(extract_byte(patched, j), extract_byte(word, j));
            }
        }
    }
}

#[test]
fn replace_byte_exact_value() {
    assert_eq!(replace_byte_in_word(0x1122334455667788, 0, 0xcc), 0x11223344556677cc);
    assert_eq!(replace_byte_in_word(0x1122334455667788, 2, 0xcc), 0x11223344_55cc7788);
    assert_eq!(replace_byte_in_word(0x1122334455667788, 7, 0xcc), 0xcc22334455667788);
}

#[test]
fn extract_byte_reads_each_position() {
    let word: u64 = 0x0102030405060708;
    assert_eq!(extract_byte(word, 0), 0x08);
    assert_eq!(extract_byte(word, 3), 0x05);
    assert_eq!(extract_byte(word, 7), 0x01);
}
