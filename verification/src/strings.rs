//! Text helpers: comparison, trimming, numbers in decimal, and file system paths.

use vstd::prelude::*;
use vstd::string::{StrSliceExecFns, StringExecFns};

verus! {

/// `String::push`: appends the character at the end and leaves what was there.
pub assume_specification[ String::push ](s: &mut String, c: char)
    ensures
        final(s)@ == old(s)@.push(c),
;

/// The characters of each string of a list.
pub open spec fn texts(list: Seq<String>) -> Seq<Seq<char>> {
    Seq::new(list.len(), |i: int| list[i]@)
}

/// The characters of a string, if there is one.
pub open spec fn text_of(s: Option<String>) -> Option<Seq<char>> {
    match s {
        Some(t) => Some(t@),
        None => None,
    }
}

/// Tells whether two optional strings are both absent, or hold the same characters.
pub fn same_optional_text(a: &Option<String>, b: &Option<String>) -> (res: bool)
    ensures
        res == (text_of(*a) == text_of(*b)),
{
    match (a, b) {
        (Some(x), Some(y)) => *x == *y,
        (None, None) => true,
        _ => false,
    }
}

/// Tells whether two strings hold the same characters.
pub fn same_text(a: &str, b: &str) -> (res: bool)
    ensures
        res == (a@ == b@),
{
    a.to_owned() == b.to_owned()
}

// ---- white space ---------------------------------------------------------------------------
/// The character has the Unicode property White_Space.
pub open spec fn is_white_space(c: char) -> bool {
    let v = c as u32;
    ||| 0x9 <= v <= 0xd
    ||| v == 0x20
    ||| v == 0x85
    ||| v == 0xa0
    ||| v == 0x1680
    ||| 0x2000 <= v <= 0x200a
    ||| v == 0x2028
    ||| v == 0x2029
    ||| v == 0x202f
    ||| v == 0x205f
    ||| v == 0x3000
}

fn white_space(c: char) -> (res: bool)
    ensures
        res == is_white_space(c),
{
    let v: u32 = c as u32;
    (0x9 <= v && v <= 0xd) || v == 0x20 || v == 0x85 || v == 0xa0 || v == 0x1680 || (0x2000 <= v
        && v <= 0x200a) || v == 0x2028 || v == 0x2029 || v == 0x202f || v == 0x205f || v == 0x3000
}

/// `s` without leading white space.
pub open spec fn trimmed_start(s: Seq<char>) -> Seq<char>
    decreases s.len(),
{
    if s.len() > 0 && is_white_space(s[0]) {
        trimmed_start(s.skip(1))
    } else {
        s
    }
}

/// `s` without trailing white space.
pub open spec fn trimmed_end(s: Seq<char>) -> Seq<char>
    decreases s.len(),
{
    if s.len() > 0 && is_white_space(s.last()) {
        trimmed_end(s.drop_last())
    } else {
        s
    }
}

/// `s` without leading and trailing white space.
pub open spec fn trimmed(s: Seq<char>) -> Seq<char> {
    trimmed_end(trimmed_start(s))
}

/// The text without trailing white space.
pub fn trim_end(s: &str) -> (res: &str)
    ensures
        res@ == trimmed_end(s@),
{
    let mut to: usize = s.unicode_len();
    proof {
        assert(s@.take(to as int) =~= s@);
    }
    while 0 < to && white_space(s.get_char(to - 1))
        invariant
            to <= s@.len(),
            trimmed_end(s@.take(to as int)) == trimmed_end(s@),
        decreases to,
    {
        proof {
            assert(s@.take(to as int).drop_last() =~= s@.take(to - 1));
        }
        to -= 1;
    }
    proof {
        assert(s@.subrange(0, to as int) =~= s@.take(to as int));
    }
    s.substring_char(0, to)
}

/// The text without leading and trailing white space.
pub fn trim(s: &str) -> (res: &str)
    ensures
        res@ == trimmed(s@),
{
    let len: usize = s.unicode_len();
    let mut from: usize = 0;
    proof {
        assert(s@.skip(0) =~= s@);
    }
    while from < len && white_space(s.get_char(from))
        invariant
            from <= len == s@.len(),
            trimmed_start(s@.skip(from as int)) == trimmed_start(s@),
        decreases len - from,
    {
        proof {
            assert(s@.skip(from as int).skip(1) =~= s@.skip(from + 1));
        }
        from += 1;
    }
    proof {
        assert(s@.subrange(from as int, len as int) =~= s@.skip(from as int));
    }
    trim_end(s.substring_char(from, len))
}

// ---- comparison ----------------------------------------------------------------------------
/// The character with an ASCII capital replaced by its small letter.
pub open spec fn ascii_lower(c: char) -> char {
    if 'A' <= c && c <= 'Z' {
        ((c as u32 + 32) as u32) as char
    } else {
        c
    }
}

/// Two characters that differ at most in ASCII case.
pub open spec fn same_char_ignoring_case(a: char, b: char) -> bool {
    ascii_lower(a) == ascii_lower(b)
}

/// Tells whether two characters differ at most in ASCII case.
pub fn char_eq_ignoring_case(a: char, b: char) -> (res: bool)
    ensures
        res == same_char_ignoring_case(a, b),
{
    let x: u32 = a as u32;
    let y: u32 = b as u32;
    let lx: u32 = if 65 <= x && x <= 90 { x + 32 } else { x };
    let ly: u32 = if 65 <= y && y <= 90 { y + 32 } else { y };
    lx == ly
}

/// Two texts that differ at most in ASCII case.
pub open spec fn same_ignoring_case(a: Seq<char>, b: Seq<char>) -> bool {
    a.len() == b.len() && forall|i: int|
        0 <= i < a.len() ==> same_char_ignoring_case(#[trigger] a[i], b[i])
}

/// Tells whether two texts differ at most in ASCII case.
pub fn eq_ignoring_case(a: &str, b: &str) -> (res: bool)
    ensures
        res == same_ignoring_case(a@, b@),
{
    let len: usize = a.unicode_len();
    if len != b.unicode_len() {
        return false;
    }
    let mut i: usize = 0;
    while i < len
        invariant
            i <= len == a@.len() == b@.len(),
            forall|j: int| 0 <= j < i ==> same_char_ignoring_case(#[trigger] a@[j], b@[j]),
        decreases len - i,
    {
        if !char_eq_ignoring_case(a.get_char(i), b.get_char(i)) {
            return false;
        }
        i += 1;
    }
    true
}

/// The text behind `prefix`, if `s` starts with it.
pub fn strip_prefix<'a>(s: &'a str, prefix: &str) -> (res: Option<&'a str>)
    ensures
        match res {
            Some(rest) => s@ == prefix@ + rest@,
            None => !prefix@.is_prefix_of(s@),
        },
{
    let len: usize = s.unicode_len();
    let n: usize = prefix.unicode_len();
    if len < n {
        return None;
    }
    let mut i: usize = 0;
    while i < n
        invariant
            i <= n == prefix@.len(),
            n <= len == s@.len(),
            s@.take(i as int) == prefix@.take(i as int),
        decreases n - i,
    {
        let a = s.get_char(i);
        let b = prefix.get_char(i);
        if a != b {
            proof {
                if prefix@.is_prefix_of(s@) {
                    assert(prefix@[i as int] == s@.subrange(0, n as int)[i as int]);
                }
            }
            return None;
        }
        proof {
            assert(s@.take(i + 1) =~= s@.take(i as int).push(a));
            assert(prefix@.take(i + 1) =~= prefix@.take(i as int).push(a));
        }
        i += 1;
    }
    let rest = s.substring_char(n, len);
    proof {
        assert(prefix@.take(n as int) =~= prefix@);
        assert(s@ =~= s@.take(n as int) + s@.subrange(n as int, len as int));
    }
    Some(rest)
}

/// The part of `s` in front of the first `sep`, or all of it.
pub open spec fn first_field_of(s: Seq<char>, sep: char) -> Seq<char>
    decreases s.len(),
{
    if s.len() == 0 || s[0] == sep {
        Seq::empty()
    } else {
        seq![s[0]] + first_field_of(s.skip(1), sep)
    }
}

/// The part of `s` in front of the first `sep`, or all of it.
pub fn first_field(s: &str, sep: char) -> (res: &str)
    ensures
        res@ == first_field_of(s@, sep),
{
    let len: usize = s.unicode_len();
    let mut i: usize = 0;
    proof {
        assert(s@.skip(0) =~= s@);
        assert(s@.take(0) + first_field_of(s@, sep) =~= first_field_of(s@, sep));
    }
    while i < len
        invariant_except_break
            s@.take(i as int) + first_field_of(s@.skip(i as int), sep) == first_field_of(s@, sep),
        invariant
            i <= len == s@.len(),
        ensures
            s@.take(i as int) == first_field_of(s@, sep),
        decreases len - i,
    {
        let c = s.get_char(i);
        let ghost rest = s@.skip(i as int);
        if c == sep {
            proof {
                assert(s@.take(i as int) + Seq::<char>::empty() =~= s@.take(i as int));
            }
            break;
        }
        proof {
            assert(rest.skip(1) =~= s@.skip(i + 1));
            assert(s@.take(i as int) + (seq![c] + first_field_of(s@.skip(i + 1), sep))
                =~= s@.take(i + 1) + first_field_of(s@.skip(i + 1), sep));
        }
        i += 1;
    }
    proof {
        assert(s@.subrange(0, i as int) =~= s@.take(i as int));
    }
    s.substring_char(0, i)
}

// ---- numbers -------------------------------------------------------------------------------
/// The decimal digit for `d`.
pub open spec fn digit_char(d: int) -> char {
    ((48 + d) as u32) as char
}

/// `n` in decimal, without leading zeros.
pub open spec fn digits_of(n: nat) -> Seq<char>
    decreases n,
{
    if n < 10 {
        seq![digit_char(n as int)]
    } else {
        digits_of(n / 10).push(digit_char((n % 10) as int))
    }
}

/// `n` in decimal, with a minus sign when it is negative.
pub open spec fn decimal_of(n: int) -> Seq<char> {
    if n < 0 {
        seq!['-'] + digits_of((-n) as nat)
    } else {
        digits_of(n as nat)
    }
}

fn digit(d: u64) -> (res: char)
    requires
        d < 10,
    ensures
        res == digit_char(d as int),
{
    match d {
        0 => '0',
        1 => '1',
        2 => '2',
        3 => '3',
        4 => '4',
        5 => '5',
        6 => '6',
        7 => '7',
        8 => '8',
        _ => '9',
    }
}

/// `n` in decimal.
pub fn digits(n: u64) -> (res: String)
    ensures
        res@ == digits_of(n as nat),
    decreases n,
{
    let mut res = if n < 10 {
        String::new()
    } else {
        digits(n / 10)
    };
    res.push(digit(n % 10));
    proof {
        if n < 10 {
            assert(res@ =~= seq![digit_char(n as int)]);
        }
    }
    res
}

/// `n` in decimal.
pub fn decimal(n: i64) -> (res: String)
    ensures
        res@ == decimal_of(n as int),
{
    if n < 0 {
        let magnitude: u64 = (-(n as i128)) as u64;
        let mut res = String::new();
        res.push('-');
        res.append(digits(magnitude).as_str());
        proof {
            assert(res@ =~= seq!['-'] + digits_of((-n) as nat));
        }
        res
    } else {
        digits(n as u64)
    }
}

/// All characters are decimal digits.
pub open spec fn all_digits(s: Seq<char>) -> bool {
    forall|i: int| 0 <= i < s.len() ==> '0' <= #[trigger] s[i] <= '9'
}

/// The number that decimal digits stand for.
pub open spec fn digits_value(s: Seq<char>) -> nat
    decreases s.len(),
{
    if s.len() == 0 {
        0
    } else {
        10 * digits_value(s.drop_last()) + ((s.last() as u32 - 48) as nat)
    }
}

/// The digits of a number text: behind the plus sign, if there is one in front of something.
pub open spec fn unsigned_body(s: Seq<char>) -> Seq<char> {
    if s.len() > 1 && s[0] == '+' {
        s.skip(1)
    } else {
        s
    }
}

/// The `u64` that the text stands for: decimal digits, with an optional plus sign in front.
pub open spec fn unsigned_of(s: Seq<char>) -> Option<u64> {
    let body = unsigned_body(s);
    if body.len() > 0 && all_digits(body) && digits_value(body) <= u64::MAX {
        Some(digits_value(body) as u64)
    } else {
        None
    }
}

proof fn lemma_digits_value_grows(s: Seq<char>, k: int)
    requires
        0 <= k <= s.len(),
        all_digits(s),
    ensures
        digits_value(s.take(k)) <= digits_value(s),
    decreases s.len() - k,
{
    if k < s.len() {
        assert(s.take(k + 1).drop_last() =~= s.take(k));
        lemma_digits_value_grows(s, k + 1);
    } else {
        assert(s.take(k) =~= s);
    }
}

/// Reads an unsigned number in decimal. `None` when the text is no number, or a number that is
/// too large.
pub fn parse_u64(s: &str) -> (res: Option<u64>)
    ensures
        res == unsigned_of(s@),
{
    let len: usize = s.unicode_len();
    let start: usize = if len > 1 && s.get_char(0) == '+' { 1 } else { 0 };
    let ghost body = unsigned_body(s@);
    proof {
        assert(s@.skip(start as int) =~= body);
    }
    if len == start {
        return None;
    }
    let mut i: usize = start;
    let mut value: u64 = 0;
    while i < len
        invariant
            start <= i <= len == s@.len(),
            body == s@.skip(start as int),
            body == unsigned_body(s@),
            body.len() == len - start,
            all_digits(body.take(i - start)),
            value == digits_value(body.take(i - start)),
        decreases len - i,
    {
        let c = s.get_char(i);
        let ghost k = i - start;
        proof {
            assert(c == body[k]);
            assert(body.take(k + 1).drop_last() =~= body.take(k));
        }
        if c < '0' || '9' < c {
            return None;
        }
        let d: u64 = (c as u32 - 48) as u64;
        proof {
            assert forall|j: int| 0 <= j < k + 1 implies '0' <= #[trigger] body.take(k + 1)[j]
                <= '9' by {
                if j < k {
                    assert(body.take(k)[j] == body[j]);
                }
            }
        }
        if value > (u64::MAX - d) / 10 {
            proof {
                if all_digits(body) {
                    lemma_digits_value_grows(body, k + 1);
                }
            }
            return None;
        }
        value = value * 10 + d;
        i += 1;
    }
    proof {
        assert(body.take(len - start) =~= body);
    }
    Some(value)
}

// ---- paths ---------------------------------------------------------------------------------
/// `part` below `base`. An absolute `part` stands for itself.
pub open spec fn joined(base: Seq<char>, part: Seq<char>) -> Seq<char> {
    if part.len() > 0 && part[0] == '/' {
        part
    } else if base.len() == 0 || base.last() == '/' {
        base + part
    } else {
        base.push('/') + part
    }
}

/// Joins two Unix paths. An absolute `part` stands for itself.
pub fn join_path(base: &str, part: &str) -> (res: String)
    ensures
        res@ == joined(base@, part@),
{
    let n: usize = base.unicode_len();
    if part.unicode_len() > 0 && part.get_char(0) == '/' {
        return part.to_owned();
    }
    let mut res = base.to_owned();
    if n > 0 && base.get_char(n - 1) != '/' {
        res.push('/');
    }
    res.append(part);
    res
}

// ---- laws ----------------------------------------------------------------------------------
/// Trimming takes white space from both ends, and stops at the first character that is none.
/// Returns where what is left begins and ends.
pub proof fn trimming_takes_white_space_alone(s: Seq<char>) -> (ends: (int, int))
    ensures
        0 <= ends.0 <= ends.1 <= s.len(),
        trimmed(s) == s.subrange(ends.0, ends.1),
        forall|i: int|
            0 <= i < s.len() && !(ends.0 <= i < ends.1) ==> is_white_space(#[trigger] s[i]),
        ends.0 < ends.1 ==> !is_white_space(s[ends.0]) && !is_white_space(s[ends.1 - 1]),
{
    let from = lemma_trimmed_start(s);
    let rest = trimmed_start(s);
    let n = lemma_trimmed_end(rest);
    assert(trimmed(s) =~= s.subrange(from, from + n));
    assert forall|i: int| 0 <= i < s.len() && !(from <= i < from + n) implies is_white_space(
        #[trigger] s[i],
    ) by {
        if i >= from + n {
            assert(rest[i - from] == s[i]);
        }
    }
    if n > 0 {
        assert(rest[0] == s[from]);
        assert(rest[n - 1] == s[from + n - 1]);
    }
    (from, from + n)
}

proof fn lemma_trimmed_start(s: Seq<char>) -> (from: int)
    ensures
        0 <= from <= s.len(),
        trimmed_start(s) == s.skip(from),
        forall|i: int| 0 <= i < from ==> is_white_space(#[trigger] s[i]),
        from < s.len() ==> !is_white_space(s[from]),
    decreases s.len(),
{
    if s.len() > 0 && is_white_space(s[0]) {
        let rest = s.skip(1);
        let from = lemma_trimmed_start(rest);
        assert(rest.skip(from) =~= s.skip(from + 1));
        assert forall|i: int| 0 <= i < from + 1 implies is_white_space(#[trigger] s[i]) by {
            if i > 0 {
                assert(rest[i - 1] == s[i]);
            }
        }
        from + 1
    } else {
        assert(s.skip(0) =~= s);
        0
    }
}

proof fn lemma_trimmed_end(s: Seq<char>) -> (n: int)
    ensures
        0 <= n <= s.len(),
        trimmed_end(s) == s.take(n),
        forall|i: int| n <= i < s.len() ==> is_white_space(#[trigger] s[i]),
        n > 0 ==> !is_white_space(s[n - 1]),
    decreases s.len(),
{
    if s.len() > 0 && is_white_space(s.last()) {
        let rest = s.drop_last();
        let n = lemma_trimmed_end(rest);
        assert(rest.take(n) =~= s.take(n));
        assert forall|i: int| n <= i < s.len() implies is_white_space(#[trigger] s[i]) by {
            if i < s.len() - 1 {
                assert(rest[i] == s[i]);
            }
        }
        n
    } else {
        assert(s.take(s.len() as int) =~= s);
        s.len() as int
    }
}

/// Among the characters that can be typed on any keyboard, the space, the tab and the line
/// breaks are white space.
pub proof fn blanks_are_white_space(c: char)
    requires
        c as u32 <= 0x7f,
    ensures
        is_white_space(c) <==> c == ' ' || c == '\t' || c == '\n' || c == '\r' || c as u32 == 0xb
            || c as u32 == 0xc,
{
}

/// A capital letter counts as its small one, and no two other characters count as the same.
pub proof fn only_the_case_of_letters_is_ignored(a: char, b: char)
    ensures
        'A' <= a && a <= 'Z' && b as int == a as int + 32 ==> same_char_ignoring_case(a, b),
        same_char_ignoring_case(a, b) == same_char_ignoring_case(b, a),
        same_char_ignoring_case(a, a),
        same_char_ignoring_case(a, b) && a < b ==> 'A' <= a && a <= 'Z' && b as int == a as int
            + 32,
{
}

/// The first field goes up to the separator, or to the end where there is none. Returns its
/// length.
pub proof fn the_first_field_ends_at_the_separator(s: Seq<char>, sep: char) -> (n: int)
    ensures
        0 <= n <= s.len(),
        first_field_of(s, sep) == s.take(n),
        forall|i: int| 0 <= i < n ==> #[trigger] s[i] != sep,
        n < s.len() ==> s[n] == sep,
    decreases s.len(),
{
    if s.len() == 0 || s[0] == sep {
        assert(s.take(0) =~= Seq::empty());
        0
    } else {
        let rest = s.skip(1);
        let n = the_first_field_ends_at_the_separator(rest, sep);
        assert(seq![s[0]] + rest.take(n) =~= s.take(n + 1));
        assert forall|i: int| 0 <= i < n + 1 implies #[trigger] s[i] != sep by {
            if i > 0 {
                assert(rest[i - 1] == s[i]);
            }
        }
        if n + 1 < s.len() {
            assert(rest[n] == s[n + 1]);
        }
        n + 1
    }
}

/// The digits of a number are digits, and give the number back. They begin with a zero only
/// where the number is zero.
pub proof fn digits_give_the_number_back(n: nat)
    ensures
        all_digits(digits_of(n)),
        digits_value(digits_of(n)) == n,
        digits_of(n).len() > 0,
        n > 0 ==> digits_of(n)[0] != '0',
    decreases n,
{
    if n < 10 {
        assert(digits_of(n).drop_last() =~= Seq::empty());
        assert(digits_value(Seq::<char>::empty()) == 0);
        assert(digits_of(n).last() as u32 == 48 + n);
    } else {
        digits_give_the_number_back(n / 10);
        let s = digits_of(n);
        assert(s.drop_last() =~= digits_of(n / 10));
        assert(s.last() as u32 == 48 + n % 10);
        assert(10 * (n / 10) + n % 10 == n);
    }
}

/// A number is read back as it was written, and so is one with a plus before it.
pub proof fn a_number_is_read_back(n: u64)
    ensures
        unsigned_of(digits_of(n as nat)) == Some(n),
        unsigned_of(seq!['+'] + digits_of(n as nat)) == Some(n),
{
    let s = digits_of(n as nat);
    digits_give_the_number_back(n as nat);
    assert('0' <= s[0] <= '9');
    let plus = seq!['+'] + s;
    assert(plus.skip(1) =~= s);
}

/// What holds anything but digits, behind at most one plus, is no number.
pub proof fn only_digits_make_a_number(s: Seq<char>, i: int)
    requires
        0 <= i < s.len(),
        !('0' <= s[i] <= '9'),
        i > 0 || s[0] != '+' || s.len() == 1,
    ensures
        unsigned_of(s) is None,
        unsigned_of(Seq::empty()) is None,
{
    let body = unsigned_body(s);
    if s.len() > 1 && s[0] == '+' {
        assert(body[i - 1] == s[i]);
    } else {
        assert(body[i] == s[i]);
    }
}

/// A negative number is written as a minus and its distance from zero.
pub proof fn a_negative_number_has_a_minus(n: int)
    ensures
        n >= 0 ==> digits_value(decimal_of(n)) == n && all_digits(decimal_of(n)),
        n < 0 ==> decimal_of(n).len() > 1 && decimal_of(n)[0] == '-' && digits_value(
            decimal_of(n).skip(1),
        ) == -n && all_digits(decimal_of(n).skip(1)),
{
    if n < 0 {
        digits_give_the_number_back((-n) as nat);
        assert(decimal_of(n).skip(1) =~= digits_of((-n) as nat));
    } else {
        digits_give_the_number_back(n as nat);
    }
}

/// Joining a relative path to a base keeps both whole, with a single separator between them
/// where the base does not end in one. An absolute path replaces the base.
pub proof fn joining_keeps_both_parts(base: Seq<char>, part: Seq<char>)
    ensures
        ({
            let all = joined(base, part);
            let absolute = part.len() > 0 && part[0] == '/';
            &&& absolute ==> all == part
            &&& !absolute ==> base.is_prefix_of(all) && all.skip(all.len() - part.len()) == part
            &&& !absolute ==> all.len() - base.len() - part.len() == (if base.len() == 0
                || base.last() == '/' {
                0int
            } else {
                1
            })
            &&& !absolute && base.len() > 0 ==> all[all.len() - part.len() - 1] == '/'
        }),
{
    let all = joined(base, part);
    if !(part.len() > 0 && part[0] == '/') {
        assert(all.skip(all.len() - part.len()) =~= part);
        assert(all.take(base.len() as int) =~= base);
    }
}

} // verus!
