use snypr::ui::caret::{
    line_end, line_start, move_caret_vertically, next_char_boundary, prev_char_boundary,
};
use snypr::ui::keys::{
    Key, KEY_BACKSPACE, KEY_DELETE, KEY_DOWN, KEY_END, KEY_ESCAPE, KEY_F1, KEY_HOME, KEY_KP_ENTER,
    KEY_LEFT, KEY_RETURN, KEY_RIGHT, KEY_TAB, KEY_UP,
};
use snypr::ui::text_edit::{
    apply_text_key, insert_at_caret, text_key_from, PendingText, TextKey, TextKeyOutcome,
};

fn pending(buffer: &str, caret: usize) -> PendingText<f64, f32> {
    PendingText {
        origin: (0.0, 0.0),
        buffer: buffer.to_owned(),
        caret,
        color: [1.0, 1.0, 1.0, 1.0],
        size_pt: 16.0,
        wrap_width: None,
        caret_visible: false,
    }
}

#[test]
fn insert_at_caret_splices_at_the_byte_offset_and_advances_the_caret() {
    let mut pt = pending("hello world", 5);
    insert_at_caret(&mut pt, ",");
    assert_eq!(pt.buffer, "hello, world");
    assert_eq!(pt.caret, 6);
}

#[test]
fn insert_at_caret_advances_by_byte_length_not_char_count() {
    let mut pt = pending("", 0);
    insert_at_caret(&mut pt, "é");
    assert_eq!(pt.caret, 2);
    assert!(pt.buffer.is_char_boundary(pt.caret));
}

#[test]
fn insert_at_caret_appends_at_the_end_of_the_buffer() {
    let mut pt = pending("ab", 2);
    insert_at_caret(&mut pt, "c");
    assert_eq!(pt.buffer, "abc");
    assert_eq!(pt.caret, 3);
}

#[test]
fn prev_char_boundary_lands_on_a_boundary() {
    for (s, idx, expected) in [
        ("abc", 3, 2),
        ("abc", 1, 0),
        ("abc", 0, 0),
        ("", 0, 0),
        ("aé", 3, 1),
        ("a—", 4, 1),
        ("a😀", 5, 1),
        ("a\nb", 2, 1),
    ] {
        let got = prev_char_boundary(s, idx);
        assert_eq!(got, expected);
        assert!(s.is_char_boundary(got), "{got} is not a char boundary of {s:?}");
    }
}

#[test]
fn next_char_boundary_lands_on_a_boundary() {
    for (s, idx, expected) in [
        ("abc", 0, 1),
        ("abc", 2, 3),
        ("abc", 3, 3),
        ("", 0, 0),
        ("aé", 1, 3),
        ("a—", 1, 4),
        ("a😀", 1, 5),
        ("a\nb", 1, 2),
    ] {
        let got = next_char_boundary(s, idx);
        assert_eq!(got, expected);
        assert!(s.is_char_boundary(got), "{got} is not a char boundary of {s:?}");
    }
}

#[test]
fn char_boundary_walks_are_inverses_across_a_mixed_width_string() {
    let s = "aé—😀z";
    let mut forward = vec![0usize];
    let mut i = 0;
    while i < s.len() {
        i = next_char_boundary(s, i);
        forward.push(i);
    }
    let mut backward = vec![s.len()];
    let mut j = s.len();
    while j > 0 {
        j = prev_char_boundary(s, j);
        backward.push(j);
    }
    backward.reverse();
    assert_eq!(forward, backward);
    assert_eq!(forward.len(), s.chars().count() + 1);
}

#[test]
fn line_start_finds_the_byte_after_the_preceding_newline() {
    for (s, caret, expected) in [
        ("hello", 0, 0),
        ("hello", 5, 0),
        ("ab\ncd", 3, 3),
        ("ab\ncd", 5, 3),
        ("ab\ncd", 2, 0),
        ("a\n\nb", 2, 2),
        ("", 0, 0),
    ] {
        assert_eq!(line_start(s, caret), expected);
    }
}

#[test]
fn line_end_stops_before_the_next_newline() {
    for (s, caret, expected) in [
        ("hello", 0, 5),
        ("hello", 5, 5),
        ("ab\ncd", 0, 2),
        ("ab\ncd", 2, 2),
        ("ab\ncd", 3, 5),
        ("a\n\nb", 2, 2),
        ("", 0, 0),
    ] {
        assert_eq!(line_end(s, caret), expected);
    }
}

#[test]
fn home_and_end_bracket_a_multi_byte_line() {
    let s = "aé—\nxy";
    let caret = 3;
    assert_eq!(line_start(s, caret), 0);
    assert_eq!(line_end(s, caret), 6);
}

#[test]
fn move_caret_up_preserves_the_column_in_characters() {
    let s = "abcd\nefgh";
    let caret = 5 + 3;
    assert_eq!(move_caret_vertically(s, caret, -1), 3);
}

#[test]
fn move_caret_down_preserves_the_column_in_characters() {
    let s = "abcd\nefgh";
    assert_eq!(move_caret_vertically(s, 3, 1), 5 + 3);
}

#[test]
fn move_caret_column_is_measured_in_chars_not_bytes() {
    let s = "aé—\nxyz";
    let caret = 6;
    let down = move_caret_vertically(s, caret, 1);
    assert_eq!(down, 7 + 3);
    assert_eq!(&s[7..down], "xyz");
}

#[test]
fn move_caret_snaps_to_the_end_of_a_shorter_destination_line() {
    let s = "abcdef\nxy";
    let caret = 5;
    let down = move_caret_vertically(s, caret, 1);
    assert_eq!(down, s.len());
}

#[test]
fn move_caret_up_from_the_first_line_is_a_no_op() {
    let s = "abc\ndef";
    assert_eq!(move_caret_vertically(s, 2, -1), 2);
}

#[test]
fn move_caret_down_from_the_last_line_is_a_no_op() {
    let s = "abc\ndef";
    assert_eq!(move_caret_vertically(s, 6, 1), 6);
}

#[test]
fn move_caret_traverses_an_empty_line() {
    let s = "abc\n\ndef";
    let mid = move_caret_vertically(s, 2, 1);
    assert_eq!(mid, 4);
    assert_eq!(move_caret_vertically(s, mid, 1), 5);
}

#[test]
fn move_caret_always_lands_on_a_char_boundary() {
    let s = "aé—😀\nz😀é\nqq";
    for caret in (0..=s.len()).filter(|i| s.is_char_boundary(*i)) {
        for delta in [-1, 1] {
            let got = move_caret_vertically(s, caret, delta);
            assert!(
                s.is_char_boundary(got),
                "caret {caret} delta {delta} → {got}, not a boundary of {s:?}"
            );
        }
    }
}

#[test]
fn apply_text_key_edits_the_buffer() {
    for (key, before, caret, after, after_caret) in [
        (TextKey::Backspace, "abc", 3, "ab", 2),
        (TextKey::Backspace, "abc", 0, "abc", 0),
        (TextKey::Backspace, "aé", 3, "a", 1),
        (TextKey::Delete, "abc", 0, "bc", 0),
        (TextKey::Delete, "abc", 3, "abc", 3),
        (TextKey::Delete, "aé", 1, "a", 1),
        (TextKey::Left, "abc", 2, "abc", 1),
        (TextKey::Left, "abc", 0, "abc", 0),
        (TextKey::Right, "abc", 1, "abc", 2),
        (TextKey::Right, "abc", 3, "abc", 3),
        (TextKey::Home, "ab\ncd", 5, "ab\ncd", 3),
        (TextKey::End, "ab\ncd", 0, "ab\ncd", 2),
        (TextKey::Char('x'), "ab", 1, "axb", 2),
        (TextKey::Char('é'), "ab", 1, "aéb", 3),
    ] {
        let mut pt = pending(before, caret);
        assert_eq!(apply_text_key(&mut pt, key, false), TextKeyOutcome::Handled);
        assert_eq!(pt.buffer, after);
        assert_eq!(pt.caret, after_caret);
    }
}

#[test]
fn escape_cancels_the_edit_without_touching_the_buffer() {
    let mut pt = pending("abc", 1);
    assert_eq!(
        apply_text_key(&mut pt, TextKey::Escape, false),
        TextKeyOutcome::Cancel
    );
    assert_eq!(pt.buffer, "abc");
    assert_eq!(pt.caret, 1);
}

#[test]
fn plain_enter_commits_but_shift_enter_inserts_a_newline() {
    let mut pt = pending("ab", 1);
    assert_eq!(
        apply_text_key(&mut pt, TextKey::Enter, false),
        TextKeyOutcome::Commit
    );
    assert_eq!(pt.buffer, "ab", "commit must not mutate the buffer");

    let mut pt = pending("ab", 1);
    assert_eq!(
        apply_text_key(&mut pt, TextKey::Enter, true),
        TextKeyOutcome::Handled
    );
    assert_eq!(pt.buffer, "a\nb");
    assert_eq!(pt.caret, 2);
}

#[test]
fn shift_only_matters_for_enter() {
    for key in [TextKey::Left, TextKey::Right, TextKey::Up, TextKey::Down] {
        let mut shifted = pending("ab\ncd", 4);
        let mut plain = pending("ab\ncd", 4);
        assert_eq!(
            apply_text_key(&mut shifted, key, true),
            apply_text_key(&mut plain, key, false)
        );
        assert_eq!(shifted.caret, plain.caret);
    }
}

#[test]
fn unhandled_keys_leave_the_buffer_and_blink_state_alone() {
    let mut pt = pending("abc", 1);
    pt.caret_visible = false;
    assert_eq!(
        apply_text_key(&mut pt, TextKey::Other, false),
        TextKeyOutcome::Unhandled
    );
    assert_eq!(pt.buffer, "abc");
    assert_eq!(pt.caret, 1);
    assert!(
        !pt.caret_visible,
        "an unhandled key must not restart the blink cycle"
    );
}

#[test]
fn every_handled_key_restarts_the_caret_blink() {
    for key in [
        TextKey::Backspace,
        TextKey::Delete,
        TextKey::Left,
        TextKey::Right,
        TextKey::Home,
        TextKey::End,
        TextKey::Up,
        TextKey::Down,
        TextKey::Char('x'),
    ] {
        let mut pt = pending("ab\ncd", 4);
        pt.caret_visible = false;
        assert_eq!(apply_text_key(&mut pt, key, false), TextKeyOutcome::Handled);
        assert!(pt.caret_visible, "{key:?} did not make the caret visible");
    }
}

#[test]
fn apply_text_key_never_leaves_the_caret_off_a_boundary() {
    let mut pt = pending("aé—😀\nz😀", 0);
    for key in [
        TextKey::Right,
        TextKey::Right,
        TextKey::Down,
        TextKey::End,
        TextKey::Backspace,
        TextKey::Left,
        TextKey::Delete,
        TextKey::Home,
        TextKey::Up,
        TextKey::Char('é'),
    ] {
        apply_text_key(&mut pt, key, false);
        assert!(
            pt.buffer.is_char_boundary(pt.caret),
            "caret {} off boundary in {:?} after {key:?}",
            pt.caret,
            pt.buffer
        );
    }
}

#[test]
fn typing_a_word_then_deleting_it_returns_to_the_empty_buffer() {
    let mut pt = pending("", 0);
    for ch in "héllo".chars() {
        apply_text_key(&mut pt, TextKey::Char(ch), false);
    }
    assert_eq!(pt.buffer, "héllo");
    assert_eq!(pt.caret, pt.buffer.len());
    for _ in 0..5 {
        apply_text_key(&mut pt, TextKey::Backspace, false);
    }
    assert_eq!(pt.buffer, "");
    assert_eq!(pt.caret, 0);
}

#[test]
fn keys_get_their_meaning_in_the_editor() {
    for (code, key) in [
        (KEY_ESCAPE, TextKey::Escape),
        (KEY_RETURN, TextKey::Enter),
        (KEY_KP_ENTER, TextKey::Enter),
        (KEY_BACKSPACE, TextKey::Backspace),
        (KEY_DELETE, TextKey::Delete),
        (KEY_LEFT, TextKey::Left),
        (KEY_RIGHT, TextKey::Right),
        (KEY_HOME, TextKey::Home),
        (KEY_END, TextKey::End),
        (KEY_UP, TextKey::Up),
        (KEY_DOWN, TextKey::Down),
        (KEY_TAB, TextKey::Other),
        (KEY_F1, TextKey::Other),
    ] {
        assert_eq!(text_key_from(Key::named(code)), key);
    }
    assert_eq!(text_key_from(Key::from_char('q')), TextKey::Char('q'));
    assert_eq!(
        text_key_from(Key { code: 0x07, unicode: Some('\u{7}') }),
        TextKey::Other
    );
}

#[test]
fn left_undoes_right_between_wide_characters() {
    let mut pt = pending("aé—😀z", 1);
    apply_text_key(&mut pt, TextKey::Right, false);
    assert_eq!(pt.caret, 3);
    apply_text_key(&mut pt, TextKey::Left, false);
    assert_eq!(pt.caret, 1);
}

#[test]
fn up_undoes_down_on_lines_that_are_long_enough() {
    let mut pt = pending("héllo\nwörld", 3);
    apply_text_key(&mut pt, TextKey::Down, false);
    assert_eq!(pt.caret, 7 + 3);
    apply_text_key(&mut pt, TextKey::Up, false);
    assert_eq!(pt.caret, 3);
}
