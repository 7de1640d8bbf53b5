use communicator::input::{InputBuffer, InputState};
use communicator::keys::Keys;

fn k(bits: u32) -> Keys {
    Keys::from(bits)
}

fn type_text<const S: usize>(buffer: &mut InputBuffer<S>, keys: &[u32]) {
    for key in keys {
        assert_eq!(buffer.process_input(k(*key)), InputState::Updated);
        assert_eq!(buffer.process_input(Keys::none()), InputState::Running(Keys::none()));
    }
}

#[test]
fn new_buffer_is_empty() {
    let buffer = InputBuffer::<128>::new();
    assert_eq!(buffer.len(), 0);
    assert_eq!(buffer.get_data(), b"");
    assert_eq!(buffer.get_cursor(), 0);
}

#[test]
fn h_pressed_released_then_i_pressed_gives_hi() {
    let mut buffer = InputBuffer::<128>::new();
    assert_eq!(buffer.process_input(k(Keys::ShiftL | Keys::H)), InputState::Updated);
    assert_eq!(buffer.process_input(Keys::none()), InputState::Running(Keys::none()));
    assert_eq!(buffer.process_input(k(Keys::ShiftL | Keys::I)), InputState::Updated);
    assert_eq!(buffer.get_data(), b"HI");
    assert_eq!(buffer.get_cursor(), 2);
    assert_eq!(buffer.len(), 2);
}

#[test]
fn held_key_is_inserted_once() {
    let mut buffer = InputBuffer::<16>::new();
    let h = k(Keys::H);
    assert_eq!(buffer.process_input(h), InputState::Updated);
    assert_eq!(buffer.process_input(h), InputState::Running(h));
    assert_eq!(buffer.process_input(h), InputState::Running(h));
    assert_eq!(buffer.get_data(), b"h");
    assert_eq!(buffer.get_cursor(), 1);
}

#[test]
fn unchanged_empty_mask_is_running() {
    let mut buffer = InputBuffer::<16>::new();
    assert_eq!(buffer.process_input(Keys::none()), InputState::Running(Keys::none()));
    assert_eq!(buffer.process_input(Keys::none()), InputState::Running(Keys::none()));
    assert_eq!(buffer.len(), 0);
}

#[test]
fn second_key_without_release_is_not_inserted() {
    let mut buffer = InputBuffer::<16>::new();
    assert_eq!(buffer.process_input(k(Keys::H)), InputState::Updated);
    assert_eq!(buffer.process_input(k(Keys::I)), InputState::Running(k(Keys::I)));
    assert_eq!(buffer.get_data(), b"h");
}

#[test]
fn rollover_through_two_keys_arms_the_next_one() {
    let mut buffer = InputBuffer::<16>::new();
    assert_eq!(buffer.process_input(k(Keys::H)), InputState::Updated);
    let both = k(Keys::H | Keys::I);
    assert_eq!(buffer.process_input(both), InputState::Running(both));
    assert_eq!(buffer.process_input(k(Keys::I)), InputState::Updated);
    assert_eq!(buffer.get_data(), b"hi");
}

#[test]
fn insertion_happens_at_the_cursor() {
    let mut buffer = InputBuffer::<16>::new();
    type_text(&mut buffer, &[Keys::A, Keys::C]);
    assert_eq!(buffer.process_input(k(Keys::Star | Keys::Q)), InputState::Updated);
    assert_eq!(buffer.get_cursor(), 1);
    assert_eq!(buffer.process_input(Keys::none()), InputState::Running(Keys::none()));
    assert_eq!(buffer.process_input(k(Keys::B)), InputState::Updated);
    assert_eq!(buffer.get_data(), b"abc");
    assert_eq!(buffer.get_cursor(), 2);
}

#[test]
fn insert_then_delete_restores_text_and_cursor() {
    let mut buffer = InputBuffer::<16>::new();
    type_text(&mut buffer, &[Keys::A, Keys::B, Keys::C]);
    assert_eq!(buffer.process_input(k(Keys::Star | Keys::Q)), InputState::Updated);
    assert_eq!(buffer.process_input(Keys::none()), InputState::Running(Keys::none()));
    assert_eq!(buffer.get_data(), b"abc");
    assert_eq!(buffer.get_cursor(), 2);
    assert_eq!(buffer.process_input(k(Keys::X)), InputState::Updated);
    assert_eq!(buffer.get_data(), b"abxc");
    assert_eq!(buffer.get_cursor(), 3);
    assert_eq!(buffer.process_input(k(Keys::Star | Keys::ShiftR)), InputState::Updated);
    assert_eq!(buffer.get_data(), b"abc");
    assert_eq!(buffer.get_cursor(), 2);
}

#[test]
fn delete_at_the_start_overflows() {
    let mut buffer = InputBuffer::<16>::new();
    assert_eq!(buffer.process_input(k(Keys::Star | Keys::ShiftR)), InputState::Overflow);
    assert_eq!(buffer.len(), 0);
    assert_eq!(buffer.get_cursor(), 0);
}

#[test]
fn delete_takes_the_byte_before_the_cursor() {
    let mut buffer = InputBuffer::<16>::new();
    type_text(&mut buffer, &[Keys::A, Keys::B, Keys::C]);
    assert_eq!(buffer.process_input(k(Keys::Star | Keys::ShiftR)), InputState::Updated);
    assert_eq!(buffer.get_data(), b"ab");
    assert_eq!(buffer.get_cursor(), 2);
    assert_eq!(buffer.process_input(k(Keys::Star | Keys::Q)), InputState::Updated);
    assert_eq!(buffer.process_input(k(Keys::Star | Keys::ShiftR)), InputState::Updated);
    assert_eq!(buffer.get_data(), b"b");
    assert_eq!(buffer.get_cursor(), 0);
}

#[test]
fn cursor_stops_at_both_ends() {
    let mut buffer = InputBuffer::<16>::new();
    type_text(&mut buffer, &[Keys::A, Keys::B]);
    assert_eq!(buffer.process_input(k(Keys::Star | Keys::E)), InputState::Overflow);
    assert_eq!(buffer.get_cursor(), 2);
    assert_eq!(buffer.process_input(k(Keys::Star | Keys::Q)), InputState::Updated);
    assert_eq!(buffer.process_input(k(Keys::Star)), InputState::NotForMe(Keys::none()));
    assert_eq!(buffer.process_input(k(Keys::Star | Keys::Q)), InputState::Updated);
    assert_eq!(buffer.get_cursor(), 0);
    assert_eq!(buffer.process_input(k(Keys::Star)), InputState::NotForMe(Keys::none()));
    assert_eq!(buffer.process_input(k(Keys::Star | Keys::Q)), InputState::Overflow);
    assert_eq!(buffer.get_cursor(), 0);
    assert_eq!(buffer.process_input(k(Keys::Star | Keys::E)), InputState::Updated);
    assert_eq!(buffer.get_cursor(), 1);
    assert_eq!(buffer.get_data(), b"ab");
}

#[test]
fn unknown_chord_is_handed_back_without_the_star() {
    let mut buffer = InputBuffer::<16>::new();
    type_text(&mut buffer, &[Keys::A]);
    assert_eq!(
        buffer.process_input(k(Keys::Star | Keys::W)),
        InputState::NotForMe(k(Keys::W))
    );
    assert_eq!(
        buffer.process_input(k(Keys::Star | Keys::Q | Keys::E)),
        InputState::NotForMe(k(Keys::Q | Keys::E))
    );
    assert_eq!(buffer.get_data(), b"a");
    assert_eq!(buffer.get_cursor(), 1);
}

#[test]
fn sharp_alone_validates() {
    let mut buffer = InputBuffer::<16>::new();
    type_text(&mut buffer, &[Keys::A]);
    assert_eq!(buffer.process_input(k(Keys::Sharp)), InputState::Validated);
    assert_eq!(buffer.process_input(k(Keys::Sharp)), InputState::Running(k(Keys::Sharp)));
    assert_eq!(buffer.get_data(), b"a");
}

#[test]
fn sharp_validates_right_after_a_held_key() {
    let mut buffer = InputBuffer::<16>::new();
    assert_eq!(buffer.process_input(k(Keys::A)), InputState::Updated);
    assert_eq!(buffer.process_input(k(Keys::Sharp)), InputState::Validated);
}

#[test]
fn sharp_with_a_shift_is_not_a_submit() {
    let mut buffer = InputBuffer::<16>::new();
    let mask = k(Keys::Sharp | Keys::ShiftL);
    assert_eq!(buffer.process_input(mask), InputState::Running(mask));
}

#[test]
fn full_buffer_overflows_and_stays() {
    let mut buffer = InputBuffer::<4>::new();
    type_text(&mut buffer, &[Keys::A, Keys::B, Keys::C]);
    assert_eq!(buffer.len(), 3);
    assert_eq!(buffer.process_input(k(Keys::D)), InputState::Overflow);
    assert_eq!(buffer.get_data(), b"abc");
    assert_eq!(buffer.get_cursor(), 3);
    assert_eq!(buffer.process_input(Keys::none()), InputState::Running(Keys::none()));
    assert_eq!(buffer.process_input(k(Keys::Star | Keys::Q)), InputState::Updated);
    assert_eq!(buffer.process_input(Keys::none()), InputState::Running(Keys::none()));
    assert_eq!(buffer.process_input(k(Keys::D)), InputState::Overflow);
    assert_eq!(buffer.get_data(), b"abc");
    assert_eq!(buffer.get_cursor(), 2);
}

#[test]
fn overflow_disarms_until_the_key_is_released() {
    let mut buffer = InputBuffer::<2>::new();
    type_text(&mut buffer, &[Keys::A]);
    assert_eq!(buffer.process_input(k(Keys::B)), InputState::Overflow);
    assert_eq!(buffer.process_input(k(Keys::C)), InputState::Running(k(Keys::C)));
    assert_eq!(buffer.get_data(), b"a");
}

#[test]
fn buffer_of_one_byte_or_none_takes_nothing() {
    let mut one = InputBuffer::<1>::new();
    assert_eq!(one.process_input(k(Keys::A)), InputState::Overflow);
    assert_eq!(one.len(), 0);
    let mut none = InputBuffer::<0>::new();
    assert_eq!(none.process_input(k(Keys::A)), InputState::Overflow);
    assert_eq!(none.len(), 0);
    assert_eq!(none.process_input(k(Keys::Star | Keys::E)), InputState::Overflow);
    assert_eq!(none.get_data(), b"");
}

#[test]
fn clear_empties_text_and_keeps_the_last_mask() {
    let mut buffer = InputBuffer::<16>::new();
    assert_eq!(buffer.process_input(k(Keys::A)), InputState::Updated);
    buffer.clear();
    assert_eq!(buffer.get_data(), b"");
    assert_eq!(buffer.get_cursor(), 0);
    assert_eq!(buffer.process_input(k(Keys::A)), InputState::Running(k(Keys::A)));
    assert_eq!(buffer.len(), 0);
}

#[test]
fn format_marks_the_cursor() {
    let mut buffer = InputBuffer::<16>::new();
    assert_eq!(buffer.format(), b"><");
    type_text(&mut buffer, &[Keys::A, Keys::B, Keys::C]);
    assert_eq!(buffer.format(), b"abc><");
    assert_eq!(buffer.process_input(k(Keys::Star | Keys::Q)), InputState::Updated);
    assert_eq!(buffer.format(), b"ab><c");
}

#[test]
fn numeric_layer_types_digits() {
    let mut buffer = InputBuffer::<16>::new();
    type_text(&mut buffer, &[Keys::Dollar | Keys::Q, Keys::Dollar | Keys::W]);
    assert_eq!(buffer.get_data(), b"12");
}
