use binf::{BitFlag, Test};

#[test]
fn macro_test() {
    let mut test = Test::new(0b10101010);
    assert_eq!(test.a(), false);
    assert_eq!(test.b(), true);
    assert_eq!(test.c(), false);
    assert_eq!(test.d(), true);
    assert_eq!(test.e(), false);
    assert_eq!(test.f(), true);
    assert_eq!(test.g(), false);
    assert_eq!(test.h(), true);
}

#[test]
fn macro_test_set() {
    let mut test = Test::new(0b10101010);
    test.set_a(true);
    test.set_b(false);
    test.set_c(true);
    test.set_d(false);
    test.set_e(true);
    test.set_f(false);
    test.set_g(true);
    test.set_h(false);
    assert_eq!(test.value(), 0b01010101);
}

#[test]
fn macro_test_iter() {
    let test = Test::new(0b10101010);
    let flags = test.flags();
    let mut iter = flags.iter();
    assert_eq!(iter.next(), Some(false).as_ref());
    assert_eq!(iter.next(), Some(true).as_ref());
    assert_eq!(iter.next(), Some(false).as_ref());
    assert_eq!(iter.next(), Some(true).as_ref());
    assert_eq!(iter.next(), Some(false).as_ref());
    assert_eq!(iter.next(), Some(true).as_ref());
    assert_eq!(iter.next(), Some(false).as_ref());
    assert_eq!(iter.next(), Some(true).as_ref());
    assert_eq!(iter.next(), None);
}

#[test]
fn u64_test() {
    let mut flags = 0b10101010u64;
    assert_eq!(flags.get_flag(0), false);
    assert_eq!(flags.get_flag(1), true);
    assert_eq!(flags.get_flag(2), false);
    assert_eq!(flags.get_flag(3), true);
    assert_eq!(flags.get_flag(4), false);
    assert_eq!(flags.get_flag(5), true);
    assert_eq!(flags.get_flag(6), false);
    assert_eq!(flags.get_flag(7), true);
    flags.set_flag(0, true);
    assert_eq!(flags, 0b10101011);
}

#[test]
fn setter_leaves_the_other_flags() {
    let mut test = Test::new(0b0110_0110);
    test.set_d(true);
    assert_eq!(test.value(), 0b0110_1110);
    assert_eq!(test.d(), true);
    test.set_d(false);
    assert_eq!(test.value(), 0b0110_0110);
    assert_eq!(test.d(), false);
}

#[test]
fn setter_with_the_current_value_changes_nothing() {
    for raw in [0u8, 1, 0b1010_1010, 0xFF] {
        let mut test = Test::new(raw);
        let h = test.h();
        test.set_h(h);
        let a = test.a();
        test.set_a(a);
        assert_eq!(test.value(), raw);
    }
}

#[test]
fn record_gives_the_word_to_change() {
    let mut test = Test::new(0);
    *test = 0b1000_0001;
    assert_eq!(test.a(), true);
    assert_eq!(test.h(), true);
    assert_eq!(test.b(), false);
    test.set_flags(&[false, true]);
    assert_eq!(test.value(), 0b1000_0010);
    assert_eq!(*test, 0b1000_0010);
}
