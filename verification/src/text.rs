//! Character-level building blocks shared by the parsers: the character
//! classes they test (Unicode white space, ASCII hex digits), ASCII case
//! mapping, first-occurrence search, runs of a character class, and the
//! numerals they emit (fixed-width uppercase hexadecimal, decimal).
use vstd::prelude::*;

verus! {

// ---------------------------------------------------------------------
// Character classes
// ---------------------------------------------------------------------

/// Unicode `White_Space`, the class that `char::is_whitespace`,
/// `str::trim_start` and `str::split_whitespace` go by.
pub open spec fn is_ws(c: char) -> bool {
    ||| '\u{9}' <= c <= '\u{d}'
    ||| c == ' '
    ||| c == '\u{85}'
    ||| c == '\u{a0}'
    ||| c == '\u{1680}'
    ||| '\u{2000}' <= c <= '\u{200a}'
    ||| c == '\u{2028}'
    ||| c == '\u{2029}'
    ||| c == '\u{202f}'
    ||| c == '\u{205f}'
    ||| c == '\u{3000}'
}

/// An ASCII hexadecimal digit: `0-9`, `a-f` or `A-F`.
pub open spec fn is_hex(c: char) -> bool {
    ||| '0' <= c <= '9'
    ||| 'a' <= c <= 'f'
    ||| 'A' <= c <= 'F'
}

/// The value of a hexadecimal digit.
pub open spec fn hex_val(c: char) -> nat {
    if '0' <= c <= '9' {
        (c as int - '0' as int) as nat
    } else if 'a' <= c <= 'f' {
        (c as int - 'a' as int + 10) as nat
    } else if 'A' <= c <= 'F' {
        (c as int - 'A' as int + 10) as nat
    } else {
        0
    }
}

/// ASCII upper-casing: `a-z` become `A-Z`, every other character stays.
pub open spec fn ascii_upper(c: char) -> char {
    if 'a' <= c <= 'z' {
        (c as int - 32) as char
    } else {
        c
    }
}

/// A sequence of characters, ASCII upper-cased.
pub open spec fn ascii_upper_seq(s: Seq<char>) -> Seq<char> {
    s.map_values(|c: char| ascii_upper(c))
}

/// The value of a sequence of hexadecimal digits, most significant first.
pub open spec fn hex_value(s: Seq<char>) -> nat
    decreases s.len(),
{
    if s.len() == 0 {
        0
    } else {
        hex_value(s.drop_last()) * 16 + hex_val(s.last())
    }
}

/// The hexadecimal digits are `0-9` and the letters `a-f` in either ASCII
/// case: a character is a digit exactly when its upper-case form is the
/// uppercase rendering of some value below 16, and upper-casing keeps both
/// the class and the value.
pub proof fn lemma_hex_digit_class(c: char)
    ensures
        is_hex(c) <==> exists|d: nat| d < 16 && ascii_upper(c) == #[trigger] hex_upper_char(d),
        is_hex(c) <==> is_hex(ascii_upper(c)),
        is_hex(c) ==> hex_val(c) < 16 && hex_val(c) == hex_val(ascii_upper(c)),
        is_hex(c) ==> ascii_upper(c) == hex_upper_char(hex_val(c)),
{
    if is_hex(c) {
        assert(ascii_upper(c) == hex_upper_char(hex_val(c)));
    }
    if exists|d: nat| d < 16 && ascii_upper(c) == #[trigger] hex_upper_char(d) {
        let d = choose|d: nat| d < 16 && ascii_upper(c) == #[trigger] hex_upper_char(d);
        assert(is_hex(hex_upper_char(d)));
    }
}

/// Every value below 16 renders as a hexadecimal digit worth that value.
pub proof fn lemma_hex_upper_char(d: nat)
    requires
        d < 16,
    ensures
        is_hex(hex_upper_char(d)),
        hex_val(hex_upper_char(d)) == d,
        is_hex((hex_upper_char(d) as int + 32) as char) <==> d >= 10,
{
}

pub fn is_whitespace(c: char) -> (b: bool)
    ensures
        b == is_ws(c),
{
    ('\u{9}' <= c && c <= '\u{d}') || c == ' ' || c == '\u{85}' || c == '\u{a0}' || c
        == '\u{1680}' || ('\u{2000}' <= c && c <= '\u{200a}') || c == '\u{2028}' || c
        == '\u{2029}' || c == '\u{202f}' || c == '\u{205f}' || c == '\u{3000}'
}

pub fn is_hex_digit(c: char) -> (b: bool)
    ensures
        b == is_hex(c),
{
    ('0' <= c && c <= '9') || ('a' <= c && c <= 'f') || ('A' <= c && c <= 'F')
}

pub fn hex_digit_value(c: char) -> (d: u8)
    requires
        is_hex(c),
    ensures
        d == hex_val(c),
        d < 16,
{
    if '0' <= c && c <= '9' {
        (c as u32 - '0' as u32) as u8
    } else if 'a' <= c && c <= 'f' {
        (c as u32 - 'a' as u32 + 10) as u8
    } else {
        (c as u32 - 'A' as u32 + 10) as u8
    }
}

pub fn to_ascii_upper(c: char) -> (u: char)
    ensures
        u == ascii_upper(c),
{
    if 'a' <= c && c <= 'z' {
        ((c as u8) - 32) as char
    } else {
        c
    }
}

// ---------------------------------------------------------------------
// Slices of a string: chars, search, runs
// ---------------------------------------------------------------------

/// The characters of a string slice, in order.
pub fn chars_of(s: &str) -> (v: Vec<char>)
    ensures
        v@ == s@,
{
    let mut v: Vec<char> = Vec::new();
    for c in it: s.chars()
        invariant
            it.seq() == s@,
            v@ == s@.take(it.index()),
    {
        v.push(c);
    }
    v
}

/// `t` occurs in `s` starting at index `i`.
pub open spec fn occurs_at(s: Seq<char>, t: Seq<char>, i: int) -> bool {
    0 <= i && i + t.len() <= s.len() && s.subrange(i, i + t.len()) == t
}

/// The first index at or after `i` where `t` occurs in `s`.
pub open spec fn first_occurrence_from(s: Seq<char>, t: Seq<char>, i: int) -> Option<int>
    decreases s.len() + 1 - i,
{
    if i < 0 || i + t.len() > s.len() {
        None
    } else if occurs_at(s, t, i) {
        Some(i)
    } else {
        first_occurrence_from(s, t, i + 1)
    }
}

/// The first index where `t` occurs in `s` (what `str::find` gives,
/// counted in characters).
pub open spec fn first_occurrence(s: Seq<char>, t: Seq<char>) -> Option<int> {
    first_occurrence_from(s, t, 0)
}

fn occurs_at_exec(s: &Vec<char>, t: &Vec<char>, i: usize) -> (b: bool)
    requires
        i + t@.len() <= s@.len(),
    ensures
        b == occurs_at(s@, t@, i as int),
{
    let n = t.len();
    let mut j: usize = 0;
    while j < n
        invariant
            n == t@.len(),
            i + n <= s.len(),
            j <= n,
            forall|k: int| 0 <= k < j ==> s@[i + k] == t@[k],
        decreases n - j,
    {
        if s[i + j] != t[j] {
            assert(s@.subrange(i as int, i + n)[j as int] != t@[j as int]);
            return false;
        }
        j = j + 1;
    }
    assert(s@.subrange(i as int, i + n) =~= t@);
    true
}

/// The first index at or after `start` where `t` occurs in `s`.
pub fn find_from(s: &Vec<char>, t: &Vec<char>, start: usize) -> (r: Option<usize>)
    ensures
        r matches Some(i) ==> first_occurrence_from(s@, t@, start as int) == Some(i as int),
        r is None ==> first_occurrence_from(s@, t@, start as int) is None,
{
    if t.len() > s.len() || start > s.len() - t.len() {
        return None;
    }
    let last = s.len() - t.len();
    let mut i: usize = start;
    loop
        invariant
            last == s@.len() - t@.len(),
            start <= i <= last,
            first_occurrence_from(s@, t@, start as int) == first_occurrence_from(s@, t@, i as int),
        decreases last - i,
    {
        if occurs_at_exec(s, t, i) {
            return Some(i);
        }
        if i == last {
            return None;
        }
        i = i + 1;
    }
}

/// The characters `s[from..to]` as a string.
pub fn string_of(s: &Vec<char>, from: usize, to: usize) -> (r: String)
    requires
        from <= to <= s@.len(),
    ensures
        r@ == s@.subrange(from as int, to as int),
{
    let mut r = String::new();
    let mut i = from;
    while i < to
        invariant
            from <= i <= to <= s@.len(),
            r@ == s@.subrange(from as int, i as int),
        decreases to - i,
    {
        push_char(&mut r, s[i]);
        i = i + 1;
        assert(r@ =~= s@.subrange(from as int, i as int));
    }
    r
}

/// The end of the run of white space in `s` that starts at `i`.
pub open spec fn ws_end(s: Seq<char>, i: int) -> int
    decreases s.len() - i,
{
    if 0 <= i < s.len() && is_ws(s[i]) {
        ws_end(s, i + 1)
    } else {
        i
    }
}

/// The end of the run of hexadecimal digits in `s` that starts at `i`.
pub open spec fn hex_end(s: Seq<char>, i: int) -> int
    decreases s.len() - i,
{
    if 0 <= i < s.len() && is_hex(s[i]) {
        hex_end(s, i + 1)
    } else {
        i
    }
}

/// C `isspace` in the "C" locale, the class `sscanf` skips and stops
/// `%s` at: space, tab, newline, vertical tab, form feed, carriage return.
pub open spec fn is_c_space(c: char) -> bool {
    c == ' ' || '\u{9}' <= c <= '\u{d}'
}

/// The end of the run of C white space in `s` that starts at `i`.
pub open spec fn c_space_end(s: Seq<char>, i: int) -> int
    decreases s.len() - i,
{
    if 0 <= i < s.len() && is_c_space(s[i]) {
        c_space_end(s, i + 1)
    } else {
        i
    }
}

/// The end of the token of non-C-white-space characters in `s` that
/// starts at `i` (what `sscanf`'s `%s` reads).
pub open spec fn c_token_end(s: Seq<char>, i: int) -> int
    decreases s.len() - i,
{
    if 0 <= i < s.len() && !is_c_space(s[i]) {
        c_token_end(s, i + 1)
    } else {
        i
    }
}

/// The run of white space starting at `i` ends at `ws_end`, and only
/// white space lies between.
pub proof fn lemma_ws_end(s: Seq<char>, i: int)
    requires
        0 <= i <= s.len(),
    ensures
        i <= ws_end(s, i) <= s.len(),
        forall|k: int| i <= k < ws_end(s, i) ==> is_ws(#[trigger] s[k]),
        ws_end(s, i) < s.len() ==> !is_ws(s[ws_end(s, i)]),
    decreases s.len() - i,
{
    if i < s.len() && is_ws(s[i]) {
        lemma_ws_end(s, i + 1);
    }
}

/// The run of hexadecimal digits starting at `i` ends at `hex_end`, and
/// only hexadecimal digits lie between.
pub proof fn lemma_hex_end(s: Seq<char>, i: int)
    requires
        0 <= i <= s.len(),
    ensures
        i <= hex_end(s, i) <= s.len(),
        forall|k: int| i <= k < hex_end(s, i) ==> is_hex(#[trigger] s[k]),
        hex_end(s, i) < s.len() ==> !is_hex(s[hex_end(s, i)]),
    decreases s.len() - i,
{
    if i < s.len() && is_hex(s[i]) {
        lemma_hex_end(s, i + 1);
    }
}

/// Skips the white space that starts at `i`.
pub fn skip_whitespace(s: &Vec<char>, i: usize) -> (e: usize)
    requires
        i <= s@.len(),
    ensures
        e == ws_end(s@, i as int),
        i <= e <= s@.len(),
{
    let mut e = i;
    while e < s.len() && is_whitespace(s[e])
        invariant
            i <= e <= s@.len(),
            ws_end(s@, i as int) == ws_end(s@, e as int),
        decreases s@.len() - e,
    {
        e = e + 1;
    }
    e
}

pub fn is_c_whitespace(c: char) -> (b: bool)
    ensures
        b == is_c_space(c),
{
    c == ' ' || ('\u{9}' <= c && c <= '\u{d}')
}

/// Skips the C white space that starts at `i`.
pub fn skip_c_space(s: &Vec<char>, i: usize) -> (e: usize)
    requires
        i <= s@.len(),
    ensures
        e == c_space_end(s@, i as int),
        i <= e <= s@.len(),
{
    let mut e = i;
    while e < s.len() && is_c_whitespace(s[e])
        invariant
            i <= e <= s@.len(),
            c_space_end(s@, i as int) == c_space_end(s@, e as int),
        decreases s@.len() - e,
    {
        e = e + 1;
    }
    e
}

/// Skips the token of non-C-white-space characters that starts at `i`.
pub fn skip_c_token(s: &Vec<char>, i: usize) -> (e: usize)
    requires
        i <= s@.len(),
    ensures
        e == c_token_end(s@, i as int),
        i <= e <= s@.len(),
{
    let mut e = i;
    while e < s.len() && !is_c_whitespace(s[e])
        invariant
            i <= e <= s@.len(),
            c_token_end(s@, i as int) == c_token_end(s@, e as int),
        decreases s@.len() - e,
    {
        e = e + 1;
    }
    e
}

/// Skips the hexadecimal digits that start at `i`.
pub fn skip_hex_digits(s: &Vec<char>, i: usize) -> (e: usize)
    requires
        i <= s@.len(),
    ensures
        e == hex_end(s@, i as int),
        i <= e <= s@.len(),
{
    let mut e = i;
    while e < s.len() && is_hex_digit(s[e])
        invariant
            i <= e <= s@.len(),
            hex_end(s@, i as int) == hex_end(s@, e as int),
        decreases s@.len() - e,
    {
        e = e + 1;
    }
    e
}

// ---------------------------------------------------------------------
// Numerals
// ---------------------------------------------------------------------

/// The uppercase hexadecimal digit for `d < 16`.
pub open spec fn hex_upper_char(d: nat) -> char {
    if d < 10 {
        ('0' as int + d) as char
    } else {
        ('A' as int + d - 10) as char
    }
}

/// The last `n` hexadecimal digits of `x`, uppercase, most significant
/// first (zero-padded to exactly `n` digits).
pub open spec fn hex_numeral(x: nat, n: nat) -> Seq<char>
    decreases n,
{
    if n == 0 {
        Seq::empty()
    } else {
        hex_numeral(x / 16, (n - 1) as nat).push(hex_upper_char(x % 16))
    }
}

/// The decimal digit for `d < 10`.
pub open spec fn digit_char(d: nat) -> char {
    ('0' as int + d) as char
}

/// The decimal numeral of a natural number, without leading zeros.
pub open spec fn decimal_nat(x: nat) -> Seq<char>
    decreases x,
{
    if x < 10 {
        seq![digit_char(x)]
    } else {
        decimal_nat(x / 10).push(digit_char(x % 10))
    }
}

/// The decimal numeral of an integer, with a leading `-` when negative.
pub open spec fn decimal_int(x: int) -> Seq<char> {
    if x < 0 {
        seq!['-'] + decimal_nat((-x) as nat)
    } else {
        decimal_nat(x as nat)
    }
}

/// `String::push`: appends one character to the string.
#[verifier::external_body]
pub(crate) fn push_char(s: &mut String, c: char)
    ensures
        final(s)@ == old(s)@.push(c),
{
    s.push(c);
}

/// Appends the last `n` hexadecimal digits of `x`, uppercase.
pub fn push_hex_numeral(out: &mut String, x: u64, n: usize)
    ensures
        final(out)@ == old(out)@ + hex_numeral(x as nat, n as nat),
    decreases n,
{
    if n > 0 {
        push_hex_numeral(out, x / 16, n - 1);
        let d = (x % 16) as u8;
        let c = if d < 10 {
            (48u8 + d) as char
        } else {
            (55u8 + d) as char
        };
        push_char(out, c);
        assert(final(out)@ =~= old(out)@ + hex_numeral(x as nat, n as nat));
    } else {
        assert(final(out)@ =~= old(out)@ + hex_numeral(x as nat, n as nat));
    }
}

/// Appends the decimal numeral of `x`.
pub fn push_decimal(out: &mut String, x: u32)
    ensures
        final(out)@ == old(out)@ + decimal_nat(x as nat),
    decreases x,
{
    if x >= 10 {
        push_decimal(out, x / 10);
    }
    let c = (48u8 + (x % 10) as u8) as char;
    push_char(out, c);
    assert(final(out)@ =~= old(out)@ + decimal_nat(x as nat));
}

/// Appends the decimal numeral of `x`, with a leading `-` when negative.
pub fn push_signed_decimal(out: &mut String, x: i32)
    ensures
        final(out)@ == old(out)@ + decimal_int(x as int),
{
    if x < 0 {
        push_char(out, '-');
        let magnitude = (-(x as i64)) as u32;
        push_decimal(out, magnitude);
        assert(final(out)@ =~= old(out)@ + decimal_int(x as int));
    } else {
        push_decimal(out, x as u32);
    }
}

} // verus!
