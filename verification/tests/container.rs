use binf::flag_utils::vec_to_flag;
use binf::{flag_new, BitFlag, BitFlags};

#[test]
fn standalone() {
    let flags = BitFlags::<u8>::new(0b10101010);
    assert_eq!(*flags, 0b10101010);
}

#[test]
fn all() {
    let flag = flag_new(&[3, 7]);
    assert_eq!(*flag, 136);
    assert_eq!(flag.get_flag(3), true);
    assert_eq!(flag.get_flag(4), false);
    assert_eq!(
        flag.flags()[..8].to_vec(),
        vec![false, false, false, true, false, false, false, true]
    );
    assert_eq!(
        vec_to_flag(vec![false, false, false, true, false, false, false, true]),
        *flag
    );
}

#[test]
fn flag_new_without_positions_is_all_clear() {
    let flag = flag_new(&[]);
    assert_eq!(*flag, 0);
    assert!(flag.flags().iter().all(|set| !*set));
}

#[test]
fn flag_new_takes_a_position_twice() {
    let flag = flag_new(&[5, 5, 0]);
    assert_eq!(*flag, 33);
}

#[test]
fn flag_new_reaches_the_highest_bit() {
    let flag = flag_new(&[127]);
    assert_eq!(*flag, 1u128 << 127);
    assert_eq!(flag.get_flag(127), true);
    assert_eq!(flag.get_flag(126), false);
}

#[test]
fn flag_new_is_a_fold_of_set_flag() {
    let positions = [9u8, 64, 2, 100];
    let mut folded = BitFlags::<u128>::new(0);
    for position in positions {
        folded.set_flag(position, true);
    }
    assert_eq!(*flag_new(&positions), *folded);
}

#[test]
fn container_sets_and_gets() {
    let mut flags = BitFlags::<u16>::new(0);
    flags.set_flag(15, true);
    flags.set_flag(0, true);
    assert_eq!(*flags, 0x8001);
    assert_eq!(flags.get_flag(15), true);
    assert_eq!(flags.get_flag(14), false);
    flags.set_flag(15, false);
    assert_eq!(*flags, 1);
}

#[test]
fn container_flags_lists_every_bit() {
    let flags = BitFlags::<u8>::new(0b0000_0110);
    assert_eq!(
        flags.flags(),
        [false, true, true, false, false, false, false, false]
    );
}

#[test]
fn container_set_flags_overwrites_the_first_flags() {
    let mut flags = BitFlags::<u8>::new(0b1111_0000);
    flags.set_flags(&[true, false, true]);
    assert_eq!(*flags, 0b1111_0101);
}

#[test]
fn container_gives_the_word_to_change() {
    let mut flags = BitFlags::<u32>::new(1);
    *flags = 0xF0;
    assert_eq!(*flags, 0xF0);
    assert_eq!(flags.get_flag(4), true);
    flags.set_flag(31, true);
    assert_eq!(*flags, 0x8000_00F0);
}

#[test]
fn container_reaches_the_trait_through_the_word() {
    let mut flags = BitFlags::<u64>::new(0);
    BitFlag::set_flag(&mut *flags, 63, true);
    assert_eq!(*flags, 1u64 << 63);
}
