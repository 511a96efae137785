use binf::flag_utils::{get_flags, vec_to_flag};

fn flags_at(positions: &[i32], len: usize) -> Vec<bool> {
    let mut flags = vec![false; len];
    for position in positions {
        flags[*position as usize] = true;
    }
    flags
}

#[test]
fn get_flags_of_136() {
    assert_eq!(get_flags(136), vec![3, 7]);
}

#[test]
fn get_flags_of_zero_is_empty() {
    assert_eq!(get_flags(0), Vec::<i32>::new());
}

#[test]
fn get_flags_is_ascending() {
    assert_eq!(get_flags(0b1011), vec![0, 1, 3]);
    assert_eq!(get_flags(1), vec![0]);
    assert_eq!(get_flags(i32::MAX), (0..31).collect::<Vec<i32>>());
}

#[test]
fn get_flags_reads_a_negative_number_by_its_magnitude() {
    assert_eq!(get_flags(-1), vec![0]);
    assert_eq!(get_flags(-136), vec![3, 7]);
    assert_eq!(get_flags(i32::MIN), vec![31]);
}

#[test]
fn vec_to_flag_of_nothing_is_zero() {
    assert_eq!(vec_to_flag(vec![]), 0);
    assert_eq!(vec_to_flag(vec![false; 300]), 0);
}

#[test]
fn vec_to_flag_sums_the_weights() {
    assert_eq!(vec_to_flag(vec![true]), 1);
    assert_eq!(vec_to_flag(vec![false, true, true]), 6);
    assert_eq!(
        vec_to_flag(vec![false, false, false, true, false, false, false, true]),
        136
    );
}

#[test]
fn vec_to_flag_fills_the_whole_word() {
    assert_eq!(vec_to_flag(vec![true; 128]), u128::MAX);
    let mut flags = vec![false; 128];
    flags[127] = true;
    assert_eq!(vec_to_flag(flags), 1u128 << 127);
}

#[test]
fn vec_to_flag_takes_clear_flags_beyond_the_word() {
    let mut flags = vec![false; 130];
    flags[1] = true;
    assert_eq!(vec_to_flag(flags), 2);
}

#[test]
fn decompose_then_compose_gives_the_number_back() {
    for number in [0, 1, 2, 136, 255, 256, 0x1234_5678, i32::MAX] {
        let positions = get_flags(number);
        assert_eq!(vec_to_flag(flags_at(&positions, 32)), number as u128);
    }
}

#[test]
fn decompose_then_compose_needs_room_for_the_number() {
    let positions = get_flags(136);
    assert_eq!(vec_to_flag(flags_at(&positions, 8)), 136);
    let low: Vec<i32> = positions.into_iter().filter(|p| *p < 4).collect();
    assert_eq!(vec_to_flag(flags_at(&low, 4)), 8);
}
