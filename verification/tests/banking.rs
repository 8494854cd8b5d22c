use y_cpu::banking::Banker;

#[test]
fn new_fills_every_bank_and_selects_the_first() {
    let banker = Banker::new([7u8; 4]);
    assert_eq!(banker.pointer, 0);
    for bank in banker.content.iter() {
        assert_eq!(*bank, [7u8; 4]);
    }
}

#[test]
fn get_and_set_go_to_the_selected_bank() {
    let mut banker = Banker::new([0u8; 8]);
    banker.set(3, 0xAA);
    assert_eq!(banker.get(3), 0xAA);
    assert_eq!(banker.content[0][3], 0xAA);
    banker.select(5);
    assert_eq!(banker.pointer, 5);
    assert_eq!(banker.get(3), 0);
    banker.set(3, 0xBB);
    assert_eq!(banker.content[5][3], 0xBB);
    assert_eq!(banker.content[0][3], 0xAA);
}

#[test]
fn a_write_touches_one_byte_of_one_bank() {
    let mut banker = Banker::new([1u8; 8]);
    banker.select(200);
    banker.set(7, 9);
    for (number, bank) in banker.content.iter().enumerate() {
        if number == 200 {
            assert_eq!(*bank, [1, 1, 1, 1, 1, 1, 1, 9]);
        } else {
            assert_eq!(*bank, [1u8; 8]);
        }
    }
}

#[test]
fn banks_keep_their_bytes_while_another_is_selected() {
    let mut banker = Banker::new([0u8; 64]);
    banker.select(3);
    banker.set(10, 0x5A);
    banker.select(4);
    banker.set(10, 0xA5);
    banker.select(3);
    assert_eq!(banker.get(10), 0x5A);
    banker.select(4);
    assert_eq!(banker.get(10), 0xA5);
}

#[test]
fn range_reads_from_the_selected_bank() {
    let mut banker = Banker::new([0u8; 6]);
    banker.select(255);
    banker.set(1, 11);
    banker.set(2, 22);
    banker.set(3, 33);
    assert_eq!(banker.range(1, 4), &[11, 22, 33]);
    assert_eq!(banker.range(2, 2), &[] as &[u8]);
    assert_eq!(banker.range(0, 6), &[0, 11, 22, 33, 0, 0]);
    banker.select(0);
    assert_eq!(banker.range(1, 4), &[0, 0, 0]);
}
