use mtui::modbus::WordOrder;

#[test]
fn make_word_orders_bytes() {
    assert_eq!(WordOrder::ABCD.make_word(0x0102, 0x0304), 0x01020304);
    assert_eq!(WordOrder::BADC.make_word(0x0102, 0x0304), 0x02010403);
    assert_eq!(WordOrder::CDAB.make_word(0x0102, 0x0304), 0x03040102);
    assert_eq!(WordOrder::DCBA.make_word(0x0102, 0x0304), 0x04030201);
}

#[test]
fn make_dword_orders_bytes() {
    let (a, b) = (0x0102_0304, 0x0506_0708);
    assert_eq!(WordOrder::ABCD.make_dword(a, b), 0x0102_0304_0506_0708);
    assert_eq!(WordOrder::BADC.make_dword(a, b), 0x0403_0201_0807_0605);
    assert_eq!(WordOrder::CDAB.make_dword(a, b), 0x0506_0708_0102_0304);
    assert_eq!(WordOrder::DCBA.make_dword(a, b), 0x0807_0605_0403_0201);
}

#[test]
fn split_word_inverts_make_word() {
    for order in [WordOrder::ABCD, WordOrder::BADC, WordOrder::CDAB, WordOrder::DCBA] {
        let word = order.make_word(0x0102, 0x0304);
        assert_eq!(order.split_word(word), [0x0102, 0x0304], "{order:?}");
    }
}
