use inferior::{align_addr_to_word, byte_offset, extract_byte, replace_byte, TRAP_OPCODE, WORD_SIZE};

#[test]
fn word_size_is_eight_bytes() {
    assert_eq!(WORD_SIZE, 8);
    assert_eq!(TRAP_OPCODE, 0xcc);
}

#[test]
fn aligned_address_stays() {
    assert_eq!(align_addr_to_word(0), 0);
    assert_eq!(align_addr_to_word(8), 8);
    assert_eq!(align_addr_to_word(0x401000), 0x401000);
}

#[test]
fn address_is_rounded_down_to_its_word() {
    assert_eq!(align_addr_to_word(1), 0);
    assert_eq!(align_addr_to_word(7), 0);
    assert_eq!(align_addr_to_word(13), 8);
    assert_eq!(align_addr_to_word(0x401136), 0x401130);
    assert_eq!(align_addr_to_word(0x40113f), 0x401138);
}

#[test]
fn highest_address_is_rounded_down() {
    assert_eq!(align_addr_to_word(usize::MAX), usize::MAX - 7);
}

#[test]
fn offset_is_distance_from_word_start() {
    assert_eq!(byte_offset(0), 0);
    assert_eq!(byte_offset(7), 7);
    assert_eq!(byte_offset(8), 0);
    assert_eq!(byte_offset(0x401136), 6);
    assert_eq!(byte_offset(usize::MAX), 7);
}

#[test]
fn base_and_offset_give_back_the_address() {
    for addr in [0usize, 1, 7, 8, 9, 0x7ffd_1234_5679, usize::MAX] {
        assert_eq!(align_addr_to_word(addr) + byte_offset(addr), addr);
        assert_eq!(align_addr_to_word(addr) % 8, 0);
    }
}

#[test]
fn bytes_are_counted_from_the_low_end() {
    let word: u64 = 0x1122_3344_5566_7788;
    let expected: [u8; 8] = [0x88, 0x77, 0x66, 0x55, 0x44, 0x33, 0x22, 0x11];
    for k in 0..8 {
        assert_eq!(extract_byte(word, k), expected[k]);
    }
}

#[test]
fn replacing_a_byte_gives_the_exact_word() {
    let word: u64 = 0x1122_3344_5566_7788;
    assert_eq!(replace_byte(word, 0, 0xcc), 0x1122_3344_5566_77cc);
    assert_eq!(replace_byte(word, 1, 0xcc), 0x1122_3344_5566_cc88);
    assert_eq!(replace_byte(word, 2, 0xcc), 0x1122_3344_55cc_7788);
    assert_eq!(replace_byte(word, 3, 0xcc), 0x1122_3344_cc66_7788);
    assert_eq!(replace_byte(word, 4, 0xcc), 0x1122_33cc_5566_7788);
    assert_eq!(replace_byte(word, 5, 0xcc), 0x1122_cc44_5566_7788);
    assert_eq!(replace_byte(word, 6, 0xcc), 0x11cc_3344_5566_7788);
    assert_eq!(replace_byte(word, 7, 0xcc), 0xcc22_3344_5566_7788);
}

#[test]
fn replacing_a_byte_keeps_the_seven_others() {
    let words: [u64; 4] = [0, u64::MAX, 0x0123_4567_89ab_cdef, 0x8000_0000_0000_0001];
    let values: [u8; 4] = [0x00, 0xcc, 0xff, 0x5a];
    for word in words {
        for val in values {
            for k in 0..8 {
                let patched = replace_byte(word, k, val);
                for j in 0..8 {
                    if j == k {
                        assert_eq!(extract_byte(patched, j), val);
                    } else {
                        assert_eq!(extract_byte(patched, j), extract_byte(word, j));
                    }
                }
            }
        }
    }
}

#[test]
fn replacing_a_byte_by_itself_changes_nothing() {
    let word: u64 = 0xdead_beef_0bad_f00d;
    for k in 0..8 {
        assert_eq!(replace_byte(word, k, extract_byte(word, k)), word);
    }
}

#[test]
fn putting_the_original_byte_back_restores_the_word() {
    let word: u64 = 0x4855_89e5_4883_ec10;
    for k in 0..8 {
        let orig = extract_byte(word, k);
        let armed = replace_byte(word, k, TRAP_OPCODE);
        assert_eq!(extract_byte(armed, k), TRAP_OPCODE);
        assert_eq!(replace_byte(armed, k, orig), word);
    }
}

#[test]
fn a_later_replacement_overrides_an_earlier_one() {
    let word: u64 = 0x0102_0304_0506_0708;
    for k in 0..8 {
        assert_eq!(replace_byte(replace_byte(word, k, 0x11), k, 0x22), replace_byte(word, k, 0x22));
    }
}
