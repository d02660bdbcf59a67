//! Byte offsets into UTF-8 text, and the caret positions that a text editor moves between.
//!
//! A caret is a byte offset that lies between two characters. The functions here are stated
//! over the position that the offset stands for: the number of characters in front of it.

use vstd::prelude::*;
use vstd::utf8::*;

verus! {

// ---- positions -----------------------------------------------------------------------------
/// The byte offset that lies in front of the `k`-th character of `text`.
pub open spec fn byte_offset(text: Seq<char>, k: int) -> int {
    encode_utf8(text.take(k)).len() as int
}

/// `caret` is the byte offset in front of the `k`-th character of `text`.
pub open spec fn caret_at(text: Seq<char>, k: int, caret: int) -> bool {
    0 <= k <= text.len() && caret == byte_offset(text, k)
}

/// The position that a caret stands for.
pub open spec fn position(text: Seq<char>, caret: int) -> int {
    choose|k: int| caret_at(text, k, caret)
}

/// `k` is the start of the line that holds position `pos`.
pub open spec fn is_line_start(text: Seq<char>, pos: int, k: int) -> bool {
    &&& 0 <= k <= pos
    &&& k == 0 || text[k - 1] == '\n'
    &&& forall|j: int| k <= j < pos ==> text[j] != '\n'
}

/// `k` is the end of the line that holds position `pos`: just before a newline, or the end.
pub open spec fn is_line_end(text: Seq<char>, pos: int, k: int) -> bool {
    &&& pos <= k <= text.len()
    &&& k == text.len() || text[k] == '\n'
    &&& forall|j: int| pos <= j < k ==> text[j] != '\n'
}

/// The start of the line that holds position `pos`.
pub open spec fn line_start_pos(text: Seq<char>, pos: int) -> int
    decreases pos,
{
    if pos <= 0 || text[pos - 1] == '\n' {
        pos
    } else {
        line_start_pos(text, pos - 1)
    }
}

/// The end of the line that holds position `pos`.
pub open spec fn line_end_pos(text: Seq<char>, pos: int) -> int
    decreases text.len() - pos,
{
    if pos >= text.len() || text[pos] == '\n' {
        pos
    } else {
        line_end_pos(text, pos + 1)
    }
}

/// The position in column `column` of the line that starts at `start`, or the end of that
/// line when it is shorter.
pub open spec fn column_pos(text: Seq<char>, start: int, column: int) -> int {
    let end = line_end_pos(text, start);
    if start + column <= end {
        start + column
    } else {
        end
    }
}

/// One line up (`delta < 0`) or down from `pos`, in the same column as far as the line reaches.
pub open spec fn vertical_pos(text: Seq<char>, pos: int, delta: int) -> int {
    let start = line_start_pos(text, pos);
    let end = line_end_pos(text, pos);
    let column = pos - start;
    if delta < 0 {
        if start == 0 {
            pos
        } else {
            column_pos(text, line_start_pos(text, start - 1), column)
        }
    } else if end == text.len() {
        pos
    } else {
        column_pos(text, end + 1, column)
    }
}

pub proof fn lemma_line_start(text: Seq<char>, pos: int)
    requires
        0 <= pos <= text.len(),
    ensures
        is_line_start(text, pos, line_start_pos(text, pos)),
    decreases pos,
{
    if pos > 0 && text[pos - 1] != '\n' {
        lemma_line_start(text, pos - 1);
    }
}

pub proof fn lemma_line_end(text: Seq<char>, pos: int)
    requires
        0 <= pos <= text.len(),
    ensures
        is_line_end(text, pos, line_end_pos(text, pos)),
    decreases text.len() - pos,
{
    if pos < text.len() && text[pos] != '\n' {
        lemma_line_end(text, pos + 1);
    }
}

// ---- UTF-8 ---------------------------------------------------------------------------------
pub proof fn lemma_encode_concat(a: Seq<char>, b: Seq<char>)
    ensures
        encode_utf8(a + b) == encode_utf8(a) + encode_utf8(b),
    decreases a.len(),
{
    if a.len() == 0 {
        assert(a + b =~= b);
        assert(encode_utf8(a) + encode_utf8(b) =~= encode_utf8(b));
    } else {
        assert((a + b).drop_first() =~= a.drop_first() + b);
        lemma_encode_concat(a.drop_first(), b);
        assert(encode_utf8(a + b) =~= encode_utf8(a) + encode_utf8(b));
    }
}

/// Splits the encoding at a position.
pub proof fn lemma_encode_split(text: Seq<char>, k: int)
    requires
        0 <= k <= text.len(),
    ensures
        encode_utf8(text) == encode_utf8(text.take(k)) + encode_utf8(text.skip(k)),
        encode_utf8(text).subrange(0, byte_offset(text, k)) == encode_utf8(text.take(k)),
        encode_utf8(text).subrange(byte_offset(text, k), encode_utf8(text).len() as int)
            == encode_utf8(text.skip(k)),
        0 <= byte_offset(text, k) <= encode_utf8(text).len(),
{
    assert(text.take(k) + text.skip(k) =~= text);
    lemma_encode_concat(text.take(k), text.skip(k));
    assert(encode_utf8(text).subrange(0, byte_offset(text, k)) =~= encode_utf8(text.take(k)));
    assert(encode_utf8(text).subrange(byte_offset(text, k), encode_utf8(text).len() as int)
        =~= encode_utf8(text.skip(k)));
}

/// The encoding of one character.
pub proof fn lemma_encode_one(c: char)
    ensures
        encode_utf8(seq![c]) == encode_scalar(c as u32),
        1 <= encode_scalar(c as u32).len() <= 4,
        encode_scalar(c as u32)[0] == 10u8 <==> c == '\n',
{
    let s = seq![c];
    reveal_with_fuel(encode_utf8, 2);
    assert(encode_utf8(s) =~= encode_scalar(c as u32));
    let v = c as u32;
    if has_width_1_encoding(v) {
        assert(leading_byte_width_1(v) == 10u8 <==> v == 10u32) by (bit_vector)
            requires
                has_width_1_encoding(v),
        ;
    } else if has_width_2_encoding(v) {
        assert(leading_byte_width_2(v) >= 0x80u8) by (bit_vector);
    } else if has_width_3_encoding(v) {
        assert(leading_byte_width_3(v) >= 0x80u8) by (bit_vector);
    } else {
        assert(leading_byte_width_4(v) >= 0x80u8) by (bit_vector);
    }
}

/// The next position lies one encoded character further on.
pub proof fn lemma_offset_step(text: Seq<char>, k: int)
    requires
        0 <= k < text.len(),
    ensures
        byte_offset(text, k + 1) == byte_offset(text, k) + encode_scalar(text[k] as u32).len(),
        byte_offset(text, k) < byte_offset(text, k + 1),
        byte_offset(text, k) < encode_utf8(text).len(),
        encode_utf8(text)[byte_offset(text, k)] == 10u8 <==> text[k] == '\n',
{
    assert(text.take(k + 1) =~= text.take(k) + seq![text[k]]);
    lemma_encode_concat(text.take(k), seq![text[k]]);
    lemma_encode_one(text[k]);
    lemma_encode_split(text, k + 1);
}

pub proof fn lemma_offset_bounds(text: Seq<char>)
    ensures
        byte_offset(text, 0) == 0,
        byte_offset(text, text.len() as int) == encode_utf8(text).len(),
{
    assert(text.take(0) =~= Seq::<char>::empty());
    assert(text.take(text.len() as int) =~= text);
}

/// Offsets grow with positions.
pub proof fn lemma_offset_monotone(text: Seq<char>, j: int, k: int)
    requires
        0 <= j < k <= text.len(),
    ensures
        byte_offset(text, j) < byte_offset(text, k),
    decreases k - j,
{
    lemma_offset_step(text, k - 1);
    if j < k - 1 {
        lemma_offset_monotone(text, j, k - 1);
    }
}

/// A caret stands for one position only.
pub proof fn lemma_position(text: Seq<char>, k: int, caret: int)
    requires
        caret_at(text, k, caret),
    ensures
        position(text, caret) == k,
{
    let j = position(text, caret);
    assert(caret_at(text, j, caret));
    if j < k {
        lemma_offset_monotone(text, j, k);
    } else if k < j {
        lemma_offset_monotone(text, k, j);
    }
}

/// Every position is a character boundary.
pub proof fn lemma_position_is_boundary(text: Seq<char>, k: int)
    requires
        0 <= k <= text.len(),
    ensures
        is_char_boundary(encode_utf8(text), byte_offset(text, k)),
    decreases k,
{
    let bytes = encode_utf8(text);
    encode_utf8_valid_utf8(text);
    lemma_offset_bounds(text);
    if k > 0 {
        let rest = text.drop_first();
        encode_utf8_first_scalar(text);
        assert(pop_first_scalar(bytes) =~= encode_utf8(rest));
        lemma_position_is_boundary(rest, k - 1);
        assert(text.take(k) =~= seq![text[0]] + rest.take(k - 1));
        lemma_encode_concat(seq![text[0]], rest.take(k - 1));
        lemma_encode_one(text[0]);
        lemma_encode_split(text, k);
    }
}

/// Every character boundary is a position.
pub proof fn lemma_boundary_is_position(text: Seq<char>, b: int)
    requires
        is_char_boundary(encode_utf8(text), b),
    ensures
        caret_at(text, position(text, b), b),
    decreases text.len(),
{
    let bytes = encode_utf8(text);
    encode_utf8_valid_utf8(text);
    lemma_offset_bounds(text);
    if b == 0 {
        assert(caret_at(text, 0, b));
    } else {
        if text.len() > 0 {
            let rest = text.drop_first();
            encode_utf8_first_scalar(text);
            assert(pop_first_scalar(bytes) =~= encode_utf8(rest));
            let d = b - length_of_first_scalar(bytes);
            lemma_boundary_is_position(rest, d);
            let k = position(rest, d);
            assert(text.take(k + 1) =~= seq![text[0]] + rest.take(k));
            lemma_encode_concat(seq![text[0]], rest.take(k));
            lemma_encode_one(text[0]);
            assert(caret_at(text, k + 1, b));
        }
    }
}

// ---- walking over boundaries ---------------------------------------------------------------
/// Walks back from `idx` to the previous character boundary, or stays at 0.
pub fn prev_char_boundary(s: &str, idx: usize) -> (res: usize)
    ensures
        is_char_boundary(encode_utf8(s@), res as int),
        idx == 0 ==> res == 0,
        idx > 0 ==> res < idx,
        forall|b: int| res < b < idx ==> !is_char_boundary(encode_utf8(s@), b),
        forall|k: int|
            #[trigger] caret_at(s@, k, idx as int) && k > 0 ==> caret_at(s@, k - 1, res as int),
{
    broadcast use {encode_utf8_valid_utf8, is_char_boundary_start_end_of_seq};

    if idx == 0 {
        return 0;
    }
    let mut i: usize = idx - 1;
    while i > 0 && !s.is_char_boundary(i)
        invariant
            i < idx,
            forall|b: int| i < b < idx ==> !is_char_boundary(encode_utf8(s@), b),
        decreases i,
    {
        i -= 1;
    }
    proof {
        assert forall|k: int| #[trigger] caret_at(s@, k, idx as int) && k > 0 implies caret_at(
            s@,
            k - 1,
            i as int,
        ) by {
            lemma_offset_monotone(s@, k - 1, k);
            lemma_position_is_boundary(s@, k - 1);
            lemma_boundary_is_position(s@, i as int);
            let j = position(s@, i as int);
            if j < k - 1 {
                lemma_offset_monotone(s@, j, k - 1);
            } else if j > k {
                lemma_offset_monotone(s@, k, j);
            }
        }
    }
    i
}

/// Walks forward from `idx` to the next character boundary, or stays at the end.
pub fn next_char_boundary(s: &str, idx: usize) -> (res: usize)
    ensures
        is_char_boundary(encode_utf8(s@), res as int),
        idx >= encode_utf8(s@).len() ==> res == encode_utf8(s@).len(),
        idx < encode_utf8(s@).len() ==> idx < res,
        forall|b: int| idx < b < res ==> !is_char_boundary(encode_utf8(s@), b),
        forall|k: int|
            #[trigger] caret_at(s@, k, idx as int) && k < s@.len() ==> caret_at(
                s@,
                k + 1,
                res as int,
            ),
{
    broadcast use {encode_utf8_valid_utf8, is_char_boundary_start_end_of_seq};

    let len: usize = s.as_bytes().len();
    proof {
        lemma_offset_bounds(s@);
        assert forall|k: int| #[trigger] caret_at(s@, k, idx as int) && k < s@.len() implies idx
            < len by {
            lemma_offset_monotone(s@, k, s@.len() as int);
        }
    }
    if idx >= len {
        return len;
    }
    let mut i: usize = idx + 1;
    while i < len && !s.is_char_boundary(i)
        invariant
            idx < i <= len,
            len == encode_utf8(s@).len(),
            forall|b: int| idx < b < i ==> !is_char_boundary(encode_utf8(s@), b),
        decreases len - i,
    {
        i += 1;
    }
    proof {
        assert forall|k: int| #[trigger]
            caret_at(s@, k, idx as int) && k < s@.len() implies caret_at(s@, k + 1, i as int) by {
            lemma_offset_monotone(s@, k, k + 1);
            lemma_position_is_boundary(s@, k + 1);
            lemma_boundary_is_position(s@, i as int);
            let j = position(s@, i as int);
            if j > k + 1 {
                lemma_offset_monotone(s@, k + 1, j);
            } else if j < k {
                lemma_offset_monotone(s@, j, k);
            }
        }
    }
    i
}

// ---- lines ---------------------------------------------------------------------------------
/// Byte offset of the start of the line that contains the byte position `caret`.
pub fn line_start(s: &str, caret: usize) -> (res: usize)
    requires
        is_char_boundary(encode_utf8(s@), caret as int),
    ensures
        caret_at(s@, line_start_pos(s@, position(s@, caret as int)), res as int),
        is_char_boundary(encode_utf8(s@), res as int),
        res <= caret,
{
    let bytes = s.as_bytes();
    let mut i: usize = caret;
    let ghost mut k: int = position(s@, caret as int);
    proof {
        lemma_boundary_is_position(s@, caret as int);
    }
    while i > 0
        invariant
            bytes@ == encode_utf8(s@),
            i <= caret,
            caret_at(s@, k, i as int),
            line_start_pos(s@, k) == line_start_pos(s@, position(s@, caret as int)),
        decreases i,
    {
        let p: usize = prev_char_boundary(s, i);
        proof {
            lemma_offset_bounds(s@);
            lemma_offset_step(s@, k - 1);
        }
        if bytes[p] == 10 {
            proof {
                lemma_position_is_boundary(s@, k);
            }
            return i;
        }
        i = p;
        proof {
            k = k - 1;
        }
    }
    proof {
        lemma_offset_bounds(s@);
        if k > 0 {
            lemma_offset_monotone(s@, 0, k);
        }
        lemma_position_is_boundary(s@, k);
    }
    i
}

/// Byte offset of the end of the line that contains `caret`: just before the next newline, or
/// the end of the text.
pub fn line_end(s: &str, caret: usize) -> (res: usize)
    requires
        is_char_boundary(encode_utf8(s@), caret as int),
    ensures
        caret_at(s@, line_end_pos(s@, position(s@, caret as int)), res as int),
        is_char_boundary(encode_utf8(s@), res as int),
        caret <= res <= encode_utf8(s@).len(),
{
    let bytes = s.as_bytes();
    let mut i: usize = caret;
    let ghost mut k: int = position(s@, caret as int);
    proof {
        lemma_boundary_is_position(s@, caret as int);
        lemma_encode_split(s@, k);
    }
    while i < bytes.len()
        invariant
            bytes@ == encode_utf8(s@),
            caret <= i <= bytes@.len(),
            caret_at(s@, k, i as int),
            line_end_pos(s@, k) == line_end_pos(s@, position(s@, caret as int)),
        decreases bytes@.len() - i,
    {
        proof {
            lemma_offset_bounds(s@);
            lemma_offset_step(s@, k);
        }
        if bytes[i] == 10 {
            proof {
                lemma_position_is_boundary(s@, k);
            }
            return i;
        }
        i = next_char_boundary(s, i);
        proof {
            k = k + 1;
            lemma_encode_split(s@, k);
        }
    }
    proof {
        lemma_offset_bounds(s@);
        if k < s@.len() {
            lemma_offset_monotone(s@, k, s@.len() as int);
        }
        lemma_position_is_boundary(s@, k);
    }
    i
}

/// The number of characters between two carets.
fn chars_between(s: &str, from: usize, to: usize) -> (res: usize)
    requires
        is_char_boundary(encode_utf8(s@), from as int),
        is_char_boundary(encode_utf8(s@), to as int),
        from <= to,
    ensures
        res == position(s@, to as int) - position(s@, from as int),
{
    let mut i: usize = from;
    let mut n: usize = 0;
    let ghost start = position(s@, from as int);
    let ghost end = position(s@, to as int);
    proof {
        lemma_boundary_is_position(s@, from as int);
        lemma_boundary_is_position(s@, to as int);
    }
    while i < to
        invariant
            from <= i <= to,
            n <= i - from,
            caret_at(s@, end, to as int),
            caret_at(s@, start + n, i as int),
        decreases to - i,
    {
        let ghost k = start + n;
        proof {
            if end <= k {
                if end < k {
                    lemma_offset_monotone(s@, end, k);
                }
            } else if k + 1 < end {
                lemma_offset_monotone(s@, k + 1, end);
            }
            lemma_offset_step(s@, k);
        }
        i = next_char_boundary(s, i);
        n += 1;
    }
    proof {
        lemma_position(s@, start + n, to as int);
    }
    n
}

/// Moves the caret one line up (`delta < 0`) or down, keeping the column, which is counted in
/// characters from the start of the line. Snaps to the end of a line that is too short.
pub fn move_caret_vertically(s: &str, caret: usize, delta: i32) -> (res: usize)
    requires
        is_char_boundary(encode_utf8(s@), caret as int),
    ensures
        caret_at(s@, vertical_pos(s@, position(s@, caret as int), delta as int), res as int),
        is_char_boundary(encode_utf8(s@), res as int),
{
    let ghost pos = position(s@, caret as int);
    proof {
        lemma_boundary_is_position(s@, caret as int);
        lemma_line_start(s@, pos);
        lemma_line_end(s@, pos);
        lemma_offset_bounds(s@);
    }
    let cur_start: usize = line_start(s, caret);
    proof {
        lemma_position(s@, line_start_pos(s@, pos), cur_start as int);
    }
    let column: usize = chars_between(s, cur_start, caret);
    let ghost start_pos = line_start_pos(s@, pos);
    let ghost dest: int = if delta < 0 {
        line_start_pos(s@, start_pos - 1)
    } else {
        line_end_pos(s@, pos) + 1
    };
    let dest_start: usize = if delta < 0 {
        if cur_start == 0 {
            proof {
                if start_pos > 0 {
                    lemma_offset_monotone(s@, 0, start_pos);
                }
            }
            return caret;
        }
        proof {
            // The newline in front of the line takes one byte.
            lemma_offset_step(s@, start_pos - 1);
            assert(encode_scalar('\n' as u32).len() == 1);
            lemma_position_is_boundary(s@, start_pos - 1);
            lemma_position(s@, start_pos - 1, cur_start - 1);
            lemma_line_start(s@, start_pos - 1);
        }
        line_start(s, cur_start - 1)
    } else {
        let cur_end: usize = line_end(s, caret);
        let len: usize = s.as_bytes().len();
        let ghost end_pos = line_end_pos(s@, pos);
        if cur_end >= len {
            proof {
                if end_pos < s@.len() {
                    lemma_offset_monotone(s@, end_pos, s@.len() as int);
                }
            }
            return caret;
        }
        proof {
            lemma_offset_step(s@, end_pos);
            assert(encode_scalar('\n' as u32).len() == 1);
            lemma_position_is_boundary(s@, end_pos + 1);
        }
        cur_end + 1
    };
    proof {
        lemma_position(s@, dest, dest_start as int);
        lemma_line_end(s@, dest);
    }
    let dest_end: usize = line_end(s, dest_start);
    let ghost end = line_end_pos(s@, dest);
    let mut i: usize = dest_start;
    let mut taken: usize = 0;
    while i < dest_end && taken < column
        invariant
            taken <= column,
            dest + taken <= end,
            caret_at(s@, dest + taken, i as int),
            caret_at(s@, end, dest_end as int),
        decreases column - taken,
    {
        proof {
            if dest + taken == end {
            } else if dest + taken > end {
                lemma_offset_monotone(s@, end, dest + taken);
            }
        }
        i = next_char_boundary(s, i);
        taken += 1;
    }
    proof {
        if i >= dest_end && dest + taken < end {
            lemma_offset_monotone(s@, dest + taken, end);
        }
        lemma_position_is_boundary(s@, dest + taken);
    }
    i
}

} // verus!
