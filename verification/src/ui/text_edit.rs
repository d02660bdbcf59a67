//! The in-place text editor of the annotation canvas.

use vstd::prelude::*;
use vstd::string::StringExecFns;
use vstd::utf8::*;

use crate::ui::caret::{
    line_end, line_start, move_caret_vertically, next_char_boundary, prev_char_boundary,
};
use crate::ui::keys::{
    is_control, Key, KEY_BACKSPACE, KEY_DELETE, KEY_DOWN, KEY_END, KEY_ESCAPE, KEY_HOME, KEY_LEFT,
    KEY_RIGHT, KEY_UP,
};

verus! {

use crate::ui::caret::{
    caret_at, lemma_boundary_is_position, lemma_encode_concat, lemma_encode_split, lemma_line_end,
    lemma_line_start, lemma_offset_bounds, lemma_offset_monotone, lemma_position,
    lemma_position_is_boundary, line_end_pos, line_start_pos, position, vertical_pos,
};
use crate::ui::keys::{is_control_char, KEY_KP_ENTER, KEY_RETURN};

/// A text edit that is not yet a layer. `N` is a document coordinate, `S` a color channel or a
/// size: neither is looked at here.
#[derive(Debug)]
pub struct PendingText<N, S> {
    pub origin: (N, N),
    pub buffer: String,
    /// Byte offset into `buffer`.
    pub caret: usize,
    pub color: [S; 4],
    pub size_pt: S,
    pub wrap_width: Option<N>,
    pub caret_visible: bool,
}

/// What is being edited: the text, and the number of characters in front of the caret.
#[verifier::ext_equal]
pub struct TextEdit {
    pub text: Seq<char>,
    pub pos: int,
}

impl TextEdit {
    pub open spec fn valid(self) -> bool {
        0 <= self.pos <= self.text.len()
    }
}

impl<N, S> PendingText<N, S> {
    /// The caret lies between two characters of the buffer.
    pub open spec fn wf(self) -> bool {
        is_char_boundary(encode_utf8(self.buffer@), self.caret as int)
    }

    /// The text and the caret's position in it.
    pub open spec fn edit(self) -> TextEdit {
        TextEdit { text: self.buffer@, pos: position(self.buffer@, self.caret as int) }
    }

    /// Everything but the text, the caret and its blinking is the same.
    pub open spec fn same_placement(self, other: Self) -> bool {
        &&& self.origin == other.origin
        &&& self.color == other.color
        &&& self.size_pt == other.size_pt
        &&& self.wrap_width == other.wrap_width
    }
}

/// A key press in the vocabulary of the editor.
#[derive(Clone, Copy, Debug, PartialEq, Eq, Structural)]
pub enum TextKey {
    Escape,
    Enter,
    Backspace,
    Delete,
    Left,
    Right,
    Home,
    End,
    Up,
    Down,
    /// A printable character to insert.
    Char(char),
    /// Nothing to the editor (Tab, function keys, bare modifiers).
    Other,
}

/// What a key did, and what the caller still owes.
#[derive(Clone, Copy, Debug, PartialEq, Eq, Structural)]
pub enum TextKeyOutcome {
    /// Buffer or caret may have changed: redraw and consume the key.
    Handled,
    /// Nothing to do: let the key propagate.
    Unhandled,
    /// Abandon the edit.
    Cancel,
    /// Finish the edit and commit it as a layer.
    Commit,
}

/// The meaning of a key to the editor.
pub open spec fn text_key_of(key: Key) -> TextKey {
    if key.code == KEY_ESCAPE {
        TextKey::Escape
    } else if key.is_enter_key() {
        TextKey::Enter
    } else if key.code == KEY_BACKSPACE {
        TextKey::Backspace
    } else if key.code == KEY_DELETE {
        TextKey::Delete
    } else if key.code == KEY_LEFT {
        TextKey::Left
    } else if key.code == KEY_RIGHT {
        TextKey::Right
    } else if key.code == KEY_HOME {
        TextKey::Home
    } else if key.code == KEY_END {
        TextKey::End
    } else if key.code == KEY_UP {
        TextKey::Up
    } else if key.code == KEY_DOWN {
        TextKey::Down
    } else {
        match key.unicode {
            Some(c) => if is_control_char(c) {
                TextKey::Other
            } else {
                TextKey::Char(c)
            },
            None => TextKey::Other,
        }
    }
}

/// Gives a key its meaning to the editor. Control characters are not inserted.
pub fn text_key_from(key: Key) -> (res: TextKey)
    ensures
        res == text_key_of(key),
{
    if key.code == KEY_ESCAPE {
        TextKey::Escape
    } else if key.is_enter() {
        TextKey::Enter
    } else if key.code == KEY_BACKSPACE {
        TextKey::Backspace
    } else if key.code == KEY_DELETE {
        TextKey::Delete
    } else if key.code == KEY_LEFT {
        TextKey::Left
    } else if key.code == KEY_RIGHT {
        TextKey::Right
    } else if key.code == KEY_HOME {
        TextKey::Home
    } else if key.code == KEY_END {
        TextKey::End
    } else if key.code == KEY_UP {
        TextKey::Up
    } else if key.code == KEY_DOWN {
        TextKey::Down
    } else {
        match key.unicode {
            Some(c) => if is_control(c) {
                TextKey::Other
            } else {
                TextKey::Char(c)
            },
            None => TextKey::Other,
        }
    }
}

/// What the caller is told about a key.
pub open spec fn text_key_outcome(key: TextKey, shift: bool) -> TextKeyOutcome {
    match key {
        TextKey::Escape => TextKeyOutcome::Cancel,
        TextKey::Enter => if shift {
            TextKeyOutcome::Handled
        } else {
            TextKeyOutcome::Commit
        },
        TextKey::Other => TextKeyOutcome::Unhandled,
        _ => TextKeyOutcome::Handled,
    }
}

/// The edit after a key that the editor handles.
pub open spec fn edit_step(e: TextEdit, key: TextKey) -> TextEdit {
    match key {
        TextKey::Enter => insert_step(e, seq!['\n']),
        TextKey::Char(c) => insert_step(e, seq![c]),
        TextKey::Backspace => if e.pos > 0 {
            TextEdit { text: e.text.remove(e.pos - 1), pos: e.pos - 1 }
        } else {
            e
        },
        TextKey::Delete => if e.pos < e.text.len() {
            TextEdit { text: e.text.remove(e.pos), pos: e.pos }
        } else {
            e
        },
        TextKey::Left => TextEdit { text: e.text, pos: if e.pos > 0 { e.pos - 1 } else { 0 } },
        TextKey::Right => TextEdit {
            text: e.text,
            pos: if e.pos < e.text.len() { e.pos + 1 } else { e.pos },
        },
        TextKey::Home => TextEdit { text: e.text, pos: line_start_pos(e.text, e.pos) },
        TextKey::End => TextEdit { text: e.text, pos: line_end_pos(e.text, e.pos) },
        TextKey::Up => TextEdit { text: e.text, pos: vertical_pos(e.text, e.pos, -1) },
        TextKey::Down => TextEdit { text: e.text, pos: vertical_pos(e.text, e.pos, 1) },
        TextKey::Escape | TextKey::Other => e,
    }
}

/// Inserts `s` in front of the caret.
pub open spec fn insert_step(e: TextEdit, s: Seq<char>) -> TextEdit {
    TextEdit { text: e.text.take(e.pos) + s + e.text.skip(e.pos), pos: e.pos + s.len() }
}

/// The text in front of a caret, and the text behind it.
fn split_text(s: &str, at: usize) -> (res: (&str, &str))
    requires
        is_char_boundary(encode_utf8(s@), at as int),
    ensures
        res.0@ == s@.take(position(s@, at as int)),
        res.1@ == s@.skip(position(s@, at as int)),
{
    let res = s.split_at(at);
    proof {
        let k = position(s@, at as int);
        lemma_boundary_is_position(s@, at as int);
        lemma_encode_split(s@, k);
        encode_utf8_decode_utf8(res.0@);
        encode_utf8_decode_utf8(res.1@);
        encode_utf8_decode_utf8(s@.take(k));
        encode_utf8_decode_utf8(s@.skip(k));
    }
    res
}

/// The text without what lies between two carets.
fn cut(s: &str, from: usize, to: usize) -> (res: String)
    requires
        is_char_boundary(encode_utf8(s@), from as int),
        is_char_boundary(encode_utf8(s@), to as int),
    ensures
        res@ == s@.take(position(s@, from as int)) + s@.skip(position(s@, to as int)),
{
    let (before, _) = split_text(s, from);
    let (_, after) = split_text(s, to);
    let mut res = before.to_owned();
    res.append(after);
    res
}

/// Inserts `s` at the caret, which ends up behind it.
pub fn insert_at_caret<N, S>(pt: &mut PendingText<N, S>, s: &str)
    requires
        old(pt).wf(),
    ensures
        final(pt).wf(),
        final(pt).edit() == insert_step(old(pt).edit(), s@),
        final(pt).caret == old(pt).caret + encode_utf8(s@).len(),
        final(pt).same_placement(*old(pt)),
        final(pt).caret_visible == old(pt).caret_visible,
{
    let ghost e = pt.edit();
    let (before, after) = split_text(pt.buffer.as_str(), pt.caret);
    let mut buffer = before.to_owned();
    buffer.append(s);
    buffer.append(after);
    let total: usize = buffer.as_str().as_bytes().len();
    let added: usize = s.as_bytes().len();
    proof {
        lemma_boundary_is_position(pt.buffer@, pt.caret as int);
        let front = e.text.take(e.pos) + s@;
        lemma_encode_concat(e.text.take(e.pos), s@);
        lemma_encode_concat(front, e.text.skip(e.pos));
        assert(buffer@.take(e.pos + s@.len()) =~= front);
        assert(caret_at(buffer@, e.pos + s@.len(), pt.caret + added));
        lemma_position(buffer@, e.pos + s@.len(), pt.caret + added);
        lemma_position_is_boundary(buffer@, e.pos + s@.len());
    }
    pt.buffer = buffer;
    pt.caret = pt.caret + added;
}

/// Applies one key to the edit. `shift` only matters for Enter, where it asks for a newline in
/// place of the end of the edit.
pub fn apply_text_key<N, S>(pt: &mut PendingText<N, S>, key: TextKey, shift: bool) -> (res:
    TextKeyOutcome)
    requires
        old(pt).wf(),
    ensures
        final(pt).wf(),
        res == text_key_outcome(key, shift),
        res == TextKeyOutcome::Handled ==> {
            &&& final(pt).edit() == edit_step(old(pt).edit(), key)
            &&& final(pt).caret_visible
            &&& final(pt).same_placement(*old(pt))
        },
        res != TextKeyOutcome::Handled ==> *final(pt) == *old(pt),
{
    let ghost e = pt.edit();
    proof {
        lemma_boundary_is_position(pt.buffer@, pt.caret as int);
        lemma_offset_bounds(pt.buffer@);
        lemma_line_start(e.text, e.pos);
        lemma_line_end(e.text, e.pos);
    }
    match key {
        TextKey::Escape => {
            return TextKeyOutcome::Cancel;
        },
        TextKey::Enter => {
            if shift {
                proof {
                    reveal_strlit("\n");
                    assert("\n"@ =~= seq!['\n']);
                }
                insert_at_caret(pt, "\n");
            } else {
                return TextKeyOutcome::Commit;
            }
        },
        TextKey::Backspace => {
            if pt.caret > 0 {
                let prev: usize = prev_char_boundary(pt.buffer.as_str(), pt.caret);
                let buffer = cut(pt.buffer.as_str(), prev, pt.caret);
                proof {
                    lemma_position(e.text, e.pos - 1, prev as int);
                    assert(buffer@ =~= e.text.remove(e.pos - 1));
                    assert(buffer@.take(e.pos - 1) =~= e.text.take(e.pos - 1));
                    lemma_position(buffer@, e.pos - 1, prev as int);
                    lemma_position_is_boundary(buffer@, e.pos - 1);
                }
                pt.buffer = buffer;
                pt.caret = prev;
            } else {
                proof {
                    lemma_position(e.text, 0, 0);
                }
            }
        },
        TextKey::Delete => {
            let len: usize = pt.buffer.as_str().as_bytes().len();
            if pt.caret < len {
                let next: usize = next_char_boundary(pt.buffer.as_str(), pt.caret);
                let buffer = cut(pt.buffer.as_str(), pt.caret, next);
                proof {
                    lemma_position(e.text, e.pos + 1, next as int);
                    assert(buffer@ =~= e.text.remove(e.pos));
                    assert(buffer@.take(e.pos) =~= e.text.take(e.pos));
                    lemma_position(buffer@, e.pos, pt.caret as int);
                    lemma_position_is_boundary(buffer@, e.pos);
                }
                pt.buffer = buffer;
            } else {
                proof {
                    if e.pos < e.text.len() {
                        lemma_offset_monotone(e.text, e.pos, e.text.len() as int);
                    }
                }
            }
        },
        TextKey::Left => {
            let prev: usize = prev_char_boundary(pt.buffer.as_str(), pt.caret);
            proof {
                if e.pos > 0 {
                    lemma_position(e.text, e.pos - 1, prev as int);
                } else {
                    lemma_position(e.text, 0, prev as int);
                }
            }
            pt.caret = prev;
        },
        TextKey::Right => {
            let next: usize = next_char_boundary(pt.buffer.as_str(), pt.caret);
            proof {
                if e.pos < e.text.len() {
                    lemma_position(e.text, e.pos + 1, next as int);
                }
            }
            pt.caret = next;
        },
        TextKey::Home => {
            let to: usize = line_start(pt.buffer.as_str(), pt.caret);
            proof {
                lemma_position(e.text, line_start_pos(e.text, e.pos), to as int);
            }
            pt.caret = to;
        },
        TextKey::End => {
            let to: usize = line_end(pt.buffer.as_str(), pt.caret);
            proof {
                lemma_position(e.text, line_end_pos(e.text, e.pos), to as int);
            }
            pt.caret = to;
        },
        TextKey::Up => {
            let to: usize = move_caret_vertically(pt.buffer.as_str(), pt.caret, -1);
            proof {
                lemma_position(e.text, vertical_pos(e.text, e.pos, -1), to as int);
            }
            pt.caret = to;
        },
        TextKey::Down => {
            let to: usize = move_caret_vertically(pt.buffer.as_str(), pt.caret, 1);
            proof {
                lemma_position(e.text, vertical_pos(e.text, e.pos, 1), to as int);
            }
            pt.caret = to;
        },
        TextKey::Char(c) => {
            let mut one = String::new();
            one.push(c);
            proof {
                assert(one@ =~= seq![c]);
            }
            insert_at_caret(pt, one.as_str());
        },
        TextKey::Other => {
            return TextKeyOutcome::Unhandled;
        },
    }
    pt.caret_visible = true;
    TextKeyOutcome::Handled
}

// ---- laws ----------------------------------------------------------------------------------
/// A key never moves the caret off the text.
pub proof fn edit_step_stays_in_the_text(e: TextEdit, key: TextKey)
    requires
        e.valid(),
    ensures
        edit_step(e, key).valid(),
{
    let text = e.text;
    lemma_line_start(text, e.pos);
    lemma_line_end(text, e.pos);
    let start = line_start_pos(text, e.pos);
    let end = line_end_pos(text, e.pos);
    if start > 0 {
        lemma_line_start(text, start - 1);
        lemma_line_end(text, line_start_pos(text, start - 1));
    }
    if end < text.len() {
        lemma_line_end(text, end + 1);
    }
}

/// Shift changes the meaning of Enter and of no other key.
pub proof fn shift_only_matters_for_enter(key: TextKey)
    ensures
        key != TextKey::Enter ==> text_key_outcome(key, true) == text_key_outcome(key, false),
        text_key_outcome(TextKey::Enter, true) != text_key_outcome(TextKey::Enter, false),
{
}

/// Backspace takes back the character just typed.
pub proof fn backspace_undoes_a_character(e: TextEdit, c: char)
    requires
        e.valid(),
    ensures
        edit_step(edit_step(e, TextKey::Char(c)), TextKey::Backspace) == e,
{
    let typed = edit_step(e, TextKey::Char(c));
    assert(typed.text.remove(e.pos) =~= e.text);
}

/// The edit after typing the characters of `word` in order.
pub open spec fn typed(e: TextEdit, word: Seq<char>) -> TextEdit
    decreases word.len(),
{
    if word.len() == 0 {
        e
    } else {
        edit_step(typed(e, word.drop_last()), TextKey::Char(word.last()))
    }
}

/// The edit after `n` presses of Backspace.
pub open spec fn erased(e: TextEdit, n: nat) -> TextEdit
    decreases n,
{
    if n == 0 {
        e
    } else {
        erased(edit_step(e, TextKey::Backspace), (n - 1) as nat)
    }
}

/// Typing a word inserts it at the caret.
pub proof fn typing_inserts_the_word(e: TextEdit, word: Seq<char>)
    requires
        e.valid(),
    ensures
        typed(e, word) == insert_step(e, word),
    decreases word.len(),
{
    if word.len() == 0 {
        assert(insert_step(e, word).text =~= e.text);
    } else {
        typing_inserts_the_word(e, word.drop_last());
        let before = insert_step(e, word.drop_last());
        assert(before.text.take(before.pos) =~= e.text.take(e.pos) + word.drop_last());
        assert(before.text.skip(before.pos) =~= e.text.skip(e.pos));
        assert(insert_step(before, seq![word.last()]).text =~= insert_step(e, word).text);
    }
}

/// Typing a word and pressing Backspace once for each of its characters changes nothing.
pub proof fn erasing_a_typed_word_restores_the_edit(e: TextEdit, word: Seq<char>)
    requires
        e.valid(),
    ensures
        erased(typed(e, word), word.len()) == e,
    decreases word.len(),
{
    if word.len() > 0 {
        let front = word.drop_last();
        erasing_a_typed_word_restores_the_edit(e, front);
        typing_inserts_the_word(e, front);
        backspace_undoes_a_character(typed(e, front), word.last());
    }
}

/// Left takes back Right, and Right takes back Left, inside the text.
pub proof fn left_and_right_are_inverses(e: TextEdit)
    requires
        e.valid(),
    ensures
        e.pos < e.text.len() ==> edit_step(edit_step(e, TextKey::Right), TextKey::Left) == e,
        e.pos > 0 ==> edit_step(edit_step(e, TextKey::Left), TextKey::Right) == e,
{
}

/// Home and End stay on the line: a second press changes nothing, and either key leads to the
/// same place from anywhere on the line.
pub proof fn home_and_end_bracket_the_line(e: TextEdit)
    requires
        e.valid(),
    ensures
        edit_step(edit_step(e, TextKey::Home), TextKey::Home) == edit_step(e, TextKey::Home),
        edit_step(edit_step(e, TextKey::End), TextKey::End) == edit_step(e, TextKey::End),
        edit_step(edit_step(e, TextKey::Home), TextKey::End) == edit_step(e, TextKey::End),
        edit_step(edit_step(e, TextKey::End), TextKey::Home) == edit_step(e, TextKey::Home),
{
    let text = e.text;
    let start = line_start_pos(text, e.pos);
    let end = line_end_pos(text, e.pos);
    lemma_line_start(text, e.pos);
    lemma_line_end(text, e.pos);
    lemma_same_line(text, start, e.pos);
    lemma_same_line(text, e.pos, end);
}

/// Two positions with no newline between them are on the same line.
proof fn lemma_same_line(text: Seq<char>, a: int, b: int)
    requires
        0 <= a <= b <= text.len(),
        forall|j: int| a <= j < b ==> text[j] != '\n',
    ensures
        line_start_pos(text, a) == line_start_pos(text, b),
        line_end_pos(text, a) == line_end_pos(text, b),
    decreases b - a,
{
    if a < b {
        lemma_same_line(text, a + 1, b);
    }
}

/// A vertical move lands on the neighbouring line, in the same column as far as that line
/// reaches. From the first line up, and from the last line down, it goes nowhere.
pub proof fn vertical_moves_keep_the_column(e: TextEdit)
    requires
        e.valid(),
    ensures
        ({
            let start = line_start_pos(e.text, e.pos);
            let end = line_end_pos(e.text, e.pos);
            let up = edit_step(e, TextKey::Up).pos;
            let down = edit_step(e, TextKey::Down).pos;
            &&& start == 0 ==> up == e.pos
            &&& end == e.text.len() ==> down == e.pos
            &&& start > 0 ==> line_end_pos(e.text, up) == start - 1 && (up - line_start_pos(
                e.text,
                up,
            ) == e.pos - start || up == start - 1 && up - line_start_pos(e.text, up) < e.pos
                - start)
            &&& end < e.text.len() ==> line_start_pos(e.text, down) == end + 1 && (down - (end + 1)
                == e.pos - start || down == line_end_pos(e.text, end + 1) && down - (end + 1)
                < e.pos - start)
        }),
{
    let text = e.text;
    let start = line_start_pos(text, e.pos);
    let end = line_end_pos(text, e.pos);
    lemma_line_start(text, e.pos);
    lemma_line_end(text, e.pos);
    if start > 0 {
        let dest = line_start_pos(text, start - 1);
        lemma_line_start(text, start - 1);
        lemma_same_line(text, dest, start - 1);
        let up = vertical_pos(text, e.pos, -1);
        lemma_same_line(text, dest, up);
    }
    if end < text.len() {
        lemma_line_end(text, end + 1);
        let down = vertical_pos(text, e.pos, 1);
        lemma_same_line(text, end + 1, down);
    }
}

/// Up takes back Down when the line below is long enough for the column.
pub proof fn up_undoes_down(e: TextEdit)
    requires
        e.valid(),
        line_end_pos(e.text, e.pos) < e.text.len(),
        line_end_pos(e.text, e.pos) + 1 + (e.pos - line_start_pos(e.text, e.pos)) <= line_end_pos(
            e.text,
            line_end_pos(e.text, e.pos) + 1,
        ),
    ensures
        edit_step(edit_step(e, TextKey::Down), TextKey::Up) == e,
{
    let text = e.text;
    let end = line_end_pos(text, e.pos);
    lemma_line_start(text, e.pos);
    lemma_line_end(text, e.pos);
    lemma_line_end(text, end + 1);
    vertical_moves_keep_the_column(e);
    lemma_same_line(text, e.pos, end);
    lemma_same_line(text, line_start_pos(text, e.pos), e.pos);
}

/// Each key that has a name in the editor is that key; any other is the character that it
/// types, unless it types none or a control character.
pub proof fn a_key_is_the_one_it_is_named_for(key: Key)
    ensures
        ({
            let named = text_key_of(key);
            &&& named is Escape <==> key.code == KEY_ESCAPE
            &&& named is Enter <==> key.code == KEY_RETURN || key.code == KEY_KP_ENTER
            &&& named is Backspace <==> key.code == KEY_BACKSPACE
            &&& named is Delete <==> key.code == KEY_DELETE
            &&& named is Left <==> key.code == KEY_LEFT
            &&& named is Right <==> key.code == KEY_RIGHT
            &&& named is Home <==> key.code == KEY_HOME
            &&& named is End <==> key.code == KEY_END
            &&& named is Up <==> key.code == KEY_UP
            &&& named is Down <==> key.code == KEY_DOWN
            &&& named matches TextKey::Char(c) ==> key.unicode == Some(c) && !is_control_char(c)
            &&& key.code <= 0xff00 ==> (named is Other <==> (key.unicode matches Some(c)
                ==> is_control_char(c)))
        }),
{
}

/// Escape abandons the text and Enter finishes it, except that with Shift it goes on editing.
/// Keys that mean nothing to the editor are passed on.
pub proof fn escape_abandons_and_enter_finishes(key: TextKey, shift: bool)
    ensures
        text_key_outcome(key, shift) == TextKeyOutcome::Cancel <==> key is Escape,
        text_key_outcome(key, shift) == TextKeyOutcome::Commit <==> key is Enter && !shift,
        text_key_outcome(key, shift) == TextKeyOutcome::Unhandled <==> key is Other,
{
}

/// A typed character lands at the caret, which goes behind it, and so does the line break of
/// Enter. What stood before the caret stays, and what stood behind it moves on by one.
pub proof fn a_character_lands_at_the_caret(e: TextEdit, key: TextKey, i: int)
    requires
        e.valid(),
        key is Char || key is Enter,
        0 <= i < e.text.len(),
    ensures
        ({
            let after = edit_step(e, key);
            &&& after.text.len() == e.text.len() + 1 && after.pos == e.pos + 1
            &&& after.text[e.pos] == (if key is Enter {
                '\n'
            } else {
                key->Char_0
            })
            &&& i < e.pos ==> after.text[i] == e.text[i]
            &&& i >= e.pos ==> after.text[i + 1] == e.text[i]
        }),
{
}

/// Backspace takes the character before the caret and Delete the one behind it. Neither takes
/// any other, and at the end of the text that they would take from they do nothing.
pub proof fn a_deletion_takes_the_character_next_to_the_caret(e: TextEdit, i: int)
    requires
        e.valid(),
        0 <= i < e.text.len(),
    ensures
        ({
            let back = edit_step(e, TextKey::Backspace);
            let ahead = edit_step(e, TextKey::Delete);
            &&& e.pos == 0 ==> back == e
            &&& e.pos > 0 ==> back.pos == e.pos - 1 && back.text.len() == e.text.len() - 1
            &&& e.pos > 0 && i < e.pos - 1 ==> back.text[i] == e.text[i]
            &&& e.pos > 0 && i >= e.pos ==> back.text[i - 1] == e.text[i]
            &&& e.pos == e.text.len() ==> ahead == e
            &&& e.pos < e.text.len() ==> ahead.pos == e.pos && ahead.text.len() == e.text.len() - 1
            &&& e.pos < e.text.len() && i < e.pos ==> ahead.text[i] == e.text[i]
            &&& e.pos < e.text.len() && i > e.pos ==> ahead.text[i - 1] == e.text[i]
        }),
{
}

/// Left and Right move the caret by one character, as far as the text goes. Home moves it back
/// to the line's beginning and End on to its end, across no line break. No move changes the text.
pub proof fn moves_go_where_they_are_named_for(e: TextEdit)
    requires
        e.valid(),
    ensures
        ({
            let home = edit_step(e, TextKey::Home).pos;
            let end = edit_step(e, TextKey::End).pos;
            &&& edit_step(e, TextKey::Left).pos == (if e.pos == 0 {
                0
            } else {
                e.pos - 1
            })
            &&& edit_step(e, TextKey::Right).pos == (if e.pos == e.text.len() {
                e.pos
            } else {
                e.pos + 1
            })
            &&& 0 <= home <= e.pos <= end <= e.text.len()
            &&& home == 0 || e.text[home - 1] == '\n'
            &&& end == e.text.len() || e.text[end] == '\n'
            &&& forall|i: int| home <= i < end ==> #[trigger] e.text[i] != '\n'
            &&& edit_step(e, TextKey::Left).text == e.text && edit_step(e, TextKey::Right).text
                == e.text && edit_step(e, TextKey::Home).text == e.text && edit_step(
                e,
                TextKey::End,
            ).text == e.text && edit_step(e, TextKey::Up).text == e.text && edit_step(
                e,
                TextKey::Down,
            ).text == e.text
        }),
{
    lemma_line_start(e.text, e.pos);
    lemma_line_end(e.text, e.pos);
}

} // verus!
