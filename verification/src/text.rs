//! Plain text: numbers in decimal and hexadecimal, padding, trimming, searching.
//!
//! Strings are modelled by their characters, a `Seq<char>`.

use vstd::prelude::*;
use vstd::string::*;

verus! {

// ---------- Model ----------

/// The digit of value `d`, in lower or upper case.
pub open spec fn digit(d: int, upper: bool) -> char {
    if upper {
        seq!['0', '1', '2', '3', '4', '5', '6', '7', '8', '9', 'A', 'B', 'C', 'D', 'E', 'F'][d]
    } else {
        seq!['0', '1', '2', '3', '4', '5', '6', '7', '8', '9', 'a', 'b', 'c', 'd', 'e', 'f'][d]
    }
}

/// `n` in decimal, without leading zeros.
pub open spec fn decimal(n: nat) -> Seq<char>
    decreases n,
{
    if n < 10 {
        seq![digit(n as int, false)]
    } else {
        decimal(n / 10).push(digit((n % 10) as int, false))
    }
}

/// The last `width` hexadecimal digits of `n`, zeros included.
pub open spec fn hex(n: nat, width: nat, upper: bool) -> Seq<char>
    decreases width,
{
    if width == 0 {
        Seq::empty()
    } else {
        hex(n / 16, (width - 1) as nat, upper).push(digit((n % 16) as int, upper))
    }
}

/// `n` copies of `c`.
pub open spec fn repeated(c: char, n: int) -> Seq<char> {
    Seq::new(
        if n > 0 {
            n as nat
        } else {
            0
        },
        |i: int| c,
    )
}

/// `s` filled up with `c` on the left to `width` characters, never cut.
pub open spec fn padded_left(s: Seq<char>, c: char, width: int) -> Seq<char> {
    repeated(c, width - s.len()) + s
}

/// `s` filled up with spaces on the right to `width` characters, never cut.
pub open spec fn padded_right(s: Seq<char>, width: int) -> Seq<char> {
    s + repeated(' ', width - s.len())
}

/// The `parts` in order, with `sep` between neighbours.
pub open spec fn joined(parts: Seq<Seq<char>>, sep: Seq<char>) -> Seq<char>
    decreases parts.len(),
{
    if parts.len() == 0 {
        Seq::empty()
    } else if parts.len() == 1 {
        parts[0]
    } else {
        joined(parts.drop_last(), sep) + sep + parts.last()
    }
}

/// The characters with the Unicode property `White_Space`.
pub open spec fn is_white_space(c: char) -> bool {
    let n = c as u32;
    ||| 0x09 <= n <= 0x0D
    ||| n == 0x20
    ||| n == 0x85
    ||| n == 0xA0
    ||| n == 0x1680
    ||| 0x2000 <= n <= 0x200A
    ||| n == 0x2028
    ||| n == 0x2029
    ||| n == 0x202F
    ||| n == 0x205F
    ||| n == 0x3000
}

/// `s` without the white space in front.
pub open spec fn trimmed_start(s: Seq<char>) -> Seq<char>
    decreases s.len(),
{
    if s.len() > 0 && is_white_space(s[0]) {
        trimmed_start(s.drop_first())
    } else {
        s
    }
}

/// `s` without the white space at the end.
pub open spec fn trimmed_end(s: Seq<char>) -> Seq<char>
    decreases s.len(),
{
    if s.len() > 0 && is_white_space(s.last()) {
        trimmed_end(s.drop_last())
    } else {
        s
    }
}

/// `s` without the white space at either end.
pub open spec fn trimmed(s: Seq<char>) -> Seq<char> {
    trimmed_end(trimmed_start(s))
}

/// `needle` stands in `hay` from position `i` on.
pub open spec fn stands_at(hay: Seq<char>, needle: Seq<char>, i: int) -> bool {
    0 <= i <= hay.len() - needle.len() && hay.subrange(i, i + needle.len()) == needle
}

/// `needle` stands somewhere in `hay`.
pub open spec fn contains_text(hay: Seq<char>, needle: Seq<char>) -> bool {
    exists|i: int| stands_at(hay, needle, i)
}

pub open spec fn is_digit(c: char) -> bool {
    '0' <= c <= '9'
}

/// The value of the decimal digits `s`.
pub open spec fn digits_value(s: Seq<char>) -> nat
    decreases s.len(),
{
    if s.len() == 0 {
        0
    } else {
        (digits_value(s.drop_last()) * 10 + (s.last() as int - '0' as int)) as nat
    }
}

/// `s` without one plus sign in front.
pub open spec fn unsigned_body(s: Seq<char>) -> Seq<char> {
    if s.len() > 0 && s[0] == '+' {
        s.skip(1)
    } else {
        s
    }
}

/// The number that `s` writes: an optional plus sign, then decimal digits, at
/// least one and nothing else, and a value of at most `max`.
pub open spec fn unsigned(s: Seq<char>, max: nat) -> Option<nat> {
    let body = unsigned_body(s);
    if body.len() > 0 && (forall|i: int| 0 <= i < body.len() ==> is_digit(#[trigger] body[i]))
        && digits_value(body) <= max {
        Some(digits_value(body))
    } else {
        None
    }
}

/// The lines as character sequences.
pub open spec fn text_of(lines: Seq<String>) -> Seq<Seq<char>> {
    lines.map_values(|s: String| s@)
}

/// An optional text as an optional character sequence.
pub open spec fn opt_text(s: Option<String>) -> Option<Seq<char>> {
    match s {
        Some(s) => Some(s@),
        None => None,
    }
}

// ---------- Lemmas ----------

proof fn lemma_digits_value_grows(s: Seq<char>, i: int)
    requires
        0 <= i <= s.len(),
        forall|k: int| 0 <= k < s.len() ==> is_digit(#[trigger] s[k]),
    ensures
        digits_value(s.take(i)) <= digits_value(s),
    decreases s.len(),
{
    if i == s.len() {
        assert(s.take(i) =~= s);
    } else {
        lemma_digits_value_grows(s.drop_last(), i);
        assert(s.drop_last().take(i) =~= s.take(i));
        assert(is_digit(s[s.len() - 1]));
    }
}

/// Trimming keeps every character that is no white space, and adds none.
pub proof fn lemma_trimmed_keeps(s: Seq<char>, c: char)
    requires
        !is_white_space(c),
    ensures
        trimmed(s).contains(c) == s.contains(c),
{
    lemma_trimmed_start_keeps(s, c);
    lemma_trimmed_end_keeps(trimmed_start(s), c);
}

proof fn lemma_trimmed_start_keeps(s: Seq<char>, c: char)
    requires
        !is_white_space(c),
    ensures
        trimmed_start(s).contains(c) == s.contains(c),
    decreases s.len(),
{
    if s.len() > 0 && is_white_space(s[0]) {
        let rest = s.drop_first();
        lemma_trimmed_start_keeps(rest, c);
        if s.contains(c) {
            let i = choose|i: int| 0 <= i < s.len() && s[i] == c;
            assert(rest[i - 1] == c);
        }
        if rest.contains(c) {
            let i = choose|i: int| 0 <= i < rest.len() && rest[i] == c;
            assert(s[i + 1] == c);
        }
    }
}

proof fn lemma_trimmed_end_keeps(s: Seq<char>, c: char)
    requires
        !is_white_space(c),
    ensures
        trimmed_end(s).contains(c) == s.contains(c),
    decreases s.len(),
{
    if s.len() > 0 && is_white_space(s.last()) {
        let rest = s.drop_last();
        lemma_trimmed_end_keeps(rest, c);
        if s.contains(c) {
            let i = choose|i: int| 0 <= i < s.len() && s[i] == c;
            assert(rest[i] == c);
        }
        if rest.contains(c) {
            let i = choose|i: int| 0 <= i < rest.len() && rest[i] == c;
            assert(s[i] == c);
        }
    }
}

/// A number printed in decimal reads back as the same number.
pub proof fn law_decimal_reads_back(n: nat, max: nat)
    requires
        n <= max,
    ensures
        unsigned(decimal(n), max) == Some(n),
{
    lemma_decimal_digits(n);
    assert(unsigned_body(decimal(n)) == decimal(n)) by {
        assert(is_digit(decimal(n)[0]));
    }
}

proof fn lemma_decimal_digits(n: nat)
    ensures
        decimal(n).len() > 0,
        forall|i: int| 0 <= i < decimal(n).len() ==> is_digit(#[trigger] decimal(n)[i]),
        digits_value(decimal(n)) == n,
    decreases n,
{
    reveal_with_fuel(digits_value, 2);
    if n < 10 {
        assert(decimal(n).drop_last() =~= Seq::empty());
    } else {
        lemma_decimal_digits(n / 10);
        assert(decimal(n).drop_last() =~= decimal(n / 10));
        assert forall|i: int| 0 <= i < decimal(n).len() implies is_digit(
            #[trigger] decimal(n)[i],
        ) by {
            if i < decimal(n).len() - 1 {
                assert(decimal(n)[i] == decimal(n / 10)[i]);
            }
        }
    }
}

/// A number in decimal: digits only, one of them below ten, the last one the
/// number's remainder by ten behind the digits of its tenth, and never a zero in
/// front of others.
pub proof fn law_decimal_has_its_digits(n: nat)
    ensures
        decimal(n).len() > 0,
        forall|i: int| 0 <= i < decimal(n).len() ==> is_digit(#[trigger] decimal(n)[i]),
        decimal(n).last() as int == 48 + n % 10,
        n < 10 ==> decimal(n).len() == 1,
        n >= 10 ==> decimal(n).drop_last() == decimal(n / 10),
        n >= 10 ==> decimal(n).len() >= 2 && decimal(n)[0] != '0',
    decreases n,
{
    lemma_decimal_digits(n);
    if n >= 10 {
        law_decimal_has_its_digits(n / 10);
        assert(decimal(n).drop_last() =~= decimal(n / 10));
        assert(decimal(n)[0] == decimal(n / 10)[0]);
        if n / 10 < 10 {
            assert(decimal(n / 10).last() == decimal(n / 10)[0]);
        }
    }
}

/// A number in hexadecimal: `width` digits, the last one the number's remainder by
/// sixteen behind the digits of its sixteenth, the digits beyond nine letters from
/// `a` or `A` on.
pub proof fn law_hex_has_its_digits(n: nat, width: nat, upper: bool)
    requires
        width > 0,
    ensures
        hex(n, width, upper).len() == width,
        hex(n, width, upper).drop_last() == hex(n / 16, (width - 1) as nat, upper),
        n % 16 < 10 ==> hex(n, width, upper).last() as int == 48 + n % 16,
        n % 16 >= 10 && !upper ==> hex(n, width, upper).last() as int == 97 + n % 16 - 10,
        n % 16 >= 10 && upper ==> hex(n, width, upper).last() as int == 65 + n % 16 - 10,
    decreases width,
{
    if width > 1 {
        law_hex_has_its_digits(n / 16, (width - 1) as nat, upper);
    }
    assert(hex(n, width, upper).drop_last() =~= hex(n / 16, (width - 1) as nat, upper));
}

/// Numbers that fit their width are told apart in hexadecimal.
pub proof fn law_hex_tells_numbers_apart(a: nat, b: nat, width: nat, upper: bool)
    requires
        hex(a, width, upper) == hex(b, width, upper),
        width <= 8,
        a < 0x1_0000_0000,
        b < 0x1_0000_0000,
        width < 8 ==> a < 0x1000_0000 && b < 0x1000_0000,
        width < 7 ==> a < 0x100_0000 && b < 0x100_0000,
        width < 6 ==> a < 0x10_0000 && b < 0x10_0000,
        width < 5 ==> a < 0x1_0000 && b < 0x1_0000,
        width < 4 ==> a < 0x1000 && b < 0x1000,
        width < 3 ==> a < 0x100 && b < 0x100,
        width < 2 ==> a < 0x10 && b < 0x10,
        width < 1 ==> a < 1 && b < 1,
    ensures
        a == b,
    decreases width,
{
    if width > 0 {
        law_hex_has_its_digits(a, width, upper);
        law_hex_has_its_digits(b, width, upper);
        law_hex_tells_numbers_apart(a / 16, b / 16, (width - 1) as nat, upper);
    }
}

/// Trimming cuts white space off both ends and nothing else: what is left is a
/// piece of the text that neither begins nor ends with white space, and all that
/// is gone is white space.
pub proof fn law_trimming_cuts_the_ends_only(s: Seq<char>)
    ensures
        exists|from: int, to: int|
            {
                &&& 0 <= from <= to <= s.len()
                &&& trimmed(s) == #[trigger] s.subrange(from, to)
                &&& forall|i: int|
                    0 <= i < from || to <= i < s.len() ==> is_white_space(#[trigger] s[i])
            },
        trimmed(s).len() > 0 ==> !is_white_space(trimmed(s)[0]) && !is_white_space(
            trimmed(s).last(),
        ),
{
    let from = lemma_trimmed_start_is_a_tail(s);
    let rest = trimmed_start(s);
    let n = lemma_trimmed_end_is_a_head(rest);
    assert(trimmed(s) =~= s.subrange(from, from + n));
    assert forall|i: int| 0 <= i < from || from + n <= i < s.len() implies is_white_space(
        #[trigger] s[i],
    ) by {
        if i >= from {
            assert(rest[i - from] == s[i]);
        }
    }
}

proof fn lemma_trimmed_start_is_a_tail(s: Seq<char>) -> (from: int)
    ensures
        0 <= from <= s.len(),
        trimmed_start(s) == s.skip(from),
        forall|i: int| 0 <= i < from ==> is_white_space(#[trigger] s[i]),
        from < s.len() ==> !is_white_space(s[from]),
    decreases s.len(),
{
    if s.len() > 0 && is_white_space(s[0]) {
        let rest = s.drop_first();
        let from = lemma_trimmed_start_is_a_tail(rest);
        assert(rest.skip(from) =~= s.skip(from + 1));
        assert forall|i: int| 0 <= i < from + 1 implies is_white_space(#[trigger] s[i]) by {
            if i > 0 {
                assert(rest[i - 1] == s[i]);
            }
        }
        from + 1
    } else {
        assert(s.skip(0) =~= s);
        0
    }
}

proof fn lemma_trimmed_end_is_a_head(s: Seq<char>) -> (to: int)
    ensures
        0 <= to <= s.len(),
        trimmed_end(s) == s.take(to),
        forall|i: int| to <= i < s.len() ==> is_white_space(#[trigger] s[i]),
        to > 0 ==> !is_white_space(s[to - 1]),
    decreases s.len(),
{
    if s.len() > 0 && is_white_space(s.last()) {
        let rest = s.drop_last();
        let to = lemma_trimmed_end_is_a_head(rest);
        assert(rest.take(to) =~= s.take(to));
        assert forall|i: int| to <= i < s.len() implies is_white_space(#[trigger] s[i]) by {
            if i < rest.len() {
                assert(rest[i] == s[i]);
            }
        }
        to
    } else {
        assert(s.take(s.len() as int) =~= s);
        s.len() as int
    }
}

/// Which characters are white space: tab to carriage return, the space, and the
/// spaces and separators beyond ASCII.
pub proof fn law_white_space_characters(c: char)
    ensures
        is_white_space(c) <==> c == ' ' || '\t' <= c <= '\r' || c == '\u{85}' || c == '\u{A0}'
            || c == '\u{1680}' || '\u{2000}' <= c <= '\u{200A}' || c == '\u{2028}' || c
            == '\u{2029}' || c == '\u{202F}' || c == '\u{205F}' || c == '\u{3000}',
{
}

/// A text is found in another exactly if the other is made of something, the text,
/// and something.
pub proof fn law_found_text_stands_between_the_rest(
    before: Seq<char>,
    needle: Seq<char>,
    behind: Seq<char>,
)
    ensures
        contains_text(before + needle + behind, needle),
        forall|hay: Seq<char>| #[trigger]
            contains_text(hay, needle) ==> exists|a: Seq<char>, b: Seq<char>| hay
                == #[trigger] (a + needle + b),
{
    let whole = before + needle + behind;
    let at = before.len() as int;
    assert(whole.subrange(at, at + needle.len()) =~= needle);
    assert(stands_at(whole, needle, at));
    assert forall|hay: Seq<char>| #[trigger] contains_text(hay, needle) implies exists|
        a: Seq<char>,
        b: Seq<char>,
    | hay == #[trigger] (a + needle + b) by {
        let i = choose|i: int| stands_at(hay, needle, i);
        assert(hay =~= hay.take(i) + needle + hay.skip(i + needle.len()));
    }
}

/// Parts are joined by putting the separator between neighbours: one part alone is
/// itself, and a further part follows the separator.
pub proof fn law_joined_parts_are_separated(parts: Seq<Seq<char>>, part: Seq<char>, sep: Seq<char>)
    ensures
        joined(seq![part], sep) == part,
        parts.len() > 0 ==> joined(parts.push(part), sep) == joined(parts, sep) + sep + part,
{
    assert(parts.push(part).drop_last() =~= parts);
}

/// Reading a number: a plus sign and zeros in front change nothing, and any other
/// character makes it no number.
pub proof fn law_numbers_are_read_plainly(s: Seq<char>, max: nat)
    requires
        s.len() > 0,
        s[0] != '+',
    ensures
        unsigned(seq!['+'] + s, max) == unsigned(s, max),
        unsigned(seq!['0'] + s, max) == unsigned(s, max),
        unsigned(Seq::empty(), max) is None,
        unsigned(seq!['+'], max) is None,
        (exists|i: int| 0 <= i < s.len() && !is_digit(#[trigger] s[i])) ==> unsigned(s, max)
            is None,
        unsigned(s, max) matches Some(n) ==> n <= max,
{
    let plus = seq!['+'] + s;
    let zero = seq!['0'] + s;
    assert(plus.skip(1) =~= s);
    assert(seq!['+'].skip(1) =~= Seq::empty());
    lemma_leading_zero(s);
    if forall|i: int| 0 <= i < s.len() ==> is_digit(#[trigger] s[i]) {
        assert forall|i: int| 0 <= i < zero.len() implies is_digit(#[trigger] zero[i]) by {
            if i > 0 {
                assert(zero[i] == s[i - 1]);
            }
        }
    } else {
        let i = choose|i: int| 0 <= i < s.len() && !is_digit(#[trigger] s[i]);
        assert(zero[i + 1] == s[i]);
    }
}

proof fn lemma_leading_zero(s: Seq<char>)
    ensures
        digits_value(seq!['0'] + s) == digits_value(s),
    decreases s.len(),
{
    let zero = seq!['0'] + s;
    if s.len() == 0 {
        assert(zero.drop_last() =~= Seq::empty());
        assert(digits_value(zero.drop_last()) == 0);
    } else {
        lemma_leading_zero(s.drop_last());
        assert(zero.drop_last() =~= seq!['0'] + s.drop_last());
    }
}

/// Padding fills up to the width in front or behind, and leaves longer texts alone.
pub proof fn law_padding_fills_up(s: Seq<char>, c: char, width: int)
    ensures
        s.len() >= width ==> padded_left(s, c, width) == s && padded_right(s, width) == s,
        s.len() < width ==> {
            let gap = width - s.len();
            &&& padded_left(s, c, width).len() == width
            &&& padded_left(s, c, width).skip(gap) == s
            &&& forall|i: int| 0 <= i < gap ==> #[trigger] padded_left(s, c, width)[i] == c
            &&& padded_right(s, width).len() == width
            &&& padded_right(s, width).take(s.len() as int) == s
            &&& forall|i: int| s.len() <= i < width ==> #[trigger] padded_right(s, width)[i] == ' '
        },
{
    if s.len() >= width {
        assert(padded_left(s, c, width) =~= s);
        assert(padded_right(s, width) =~= s);
    } else {
        assert(padded_left(s, c, width).skip(width - s.len()) =~= s);
        assert(padded_right(s, width).take(s.len() as int) =~= s);
    }
}

// ---------- Code ----------

/// The characters of `s`, one by one.
pub(crate) fn chars_of(s: &str) -> (r: Vec<char>)
    ensures
        r@ == s@,
{
    let mut r: Vec<char> = Vec::new();
    for c in it: s.chars()
        invariant
            r@ == s@.take(it.index()),
            it.seq() == s@,
    {
        r.push(c);
    }
    r
}

fn digit_text(d: u8, upper: bool) -> (r: &'static str)
    requires
        d < 16,
    ensures
        r@ == seq![digit(d as int, upper)],
{
    proof {
        reveal_strlit("0");
        reveal_strlit("1");
        reveal_strlit("2");
        reveal_strlit("3");
        reveal_strlit("4");
        reveal_strlit("5");
        reveal_strlit("6");
        reveal_strlit("7");
        reveal_strlit("8");
        reveal_strlit("9");
        reveal_strlit("a");
        reveal_strlit("b");
        reveal_strlit("c");
        reveal_strlit("d");
        reveal_strlit("e");
        reveal_strlit("f");
        reveal_strlit("A");
        reveal_strlit("B");
        reveal_strlit("C");
        reveal_strlit("D");
        reveal_strlit("E");
        reveal_strlit("F");
    }
    match (d, upper) {
        (0, _) => "0",
        (1, _) => "1",
        (2, _) => "2",
        (3, _) => "3",
        (4, _) => "4",
        (5, _) => "5",
        (6, _) => "6",
        (7, _) => "7",
        (8, _) => "8",
        (9, _) => "9",
        (10, false) => "a",
        (11, false) => "b",
        (12, false) => "c",
        (13, false) => "d",
        (14, false) => "e",
        (15, false) => "f",
        (10, true) => "A",
        (11, true) => "B",
        (12, true) => "C",
        (13, true) => "D",
        (14, true) => "E",
        _ => "F",
    }
}

/// `n` in decimal.
pub(crate) fn decimal_text(n: u64) -> (r: String)
    ensures
        r@ == decimal(n as nat),
    decreases n,
{
    if n < 10 {
        digit_text(n as u8, false).to_owned()
    } else {
        let mut r = decimal_text(n / 10);
        r.append(digit_text((n % 10) as u8, false));
        r
    }
}

/// The last `width` hexadecimal digits of `n`.
pub(crate) fn hex_text(n: u64, width: usize, upper: bool) -> (r: String)
    ensures
        r@ == hex(n as nat, width as nat, upper),
    decreases width,
{
    if width == 0 {
        String::new()
    } else {
        let mut r = hex_text(n / 16, width - 1, upper);
        r.append(digit_text((n % 16) as u8, upper));
        r
    }
}

/// `n` copies of the one-character text `unit`.
fn repeated_text(unit: &str, n: usize) -> (r: String)
    requires
        unit@.len() == 1,
    ensures
        r@ == repeated(unit@[0], n as int),
{
    let mut r = String::new();
    let mut i: usize = 0;
    while i < n
        invariant
            i <= n,
            unit@.len() == 1,
            r@ == repeated(unit@[0], i as int),
        decreases n - i,
    {
        r.append(unit);
        i = i + 1;
    }
    r
}

/// `s`, filled up with the one-character text `unit` on the left.
pub(crate) fn pad_left(s: &str, unit: &str, width: usize) -> (r: String)
    requires
        unit@.len() == 1,
    ensures
        r@ == padded_left(s@, unit@[0], width as int),
{
    let n = s.unicode_len();
    let mut r = repeated_text(
        unit,
        if n < width {
            width - n
        } else {
            0
        },
    );
    r.append(s);
    r
}

/// `s`, filled up with spaces on the right.
pub(crate) fn pad_right(s: &str, width: usize) -> (r: String)
    ensures
        r@ == padded_right(s@, width as int),
{
    proof {
        reveal_strlit(" ");
    }
    let n = s.unicode_len();
    let mut r = s.to_owned();
    let fill = repeated_text(
        " ",
        if n < width {
            width - n
        } else {
            0
        },
    );
    r.append(fill.as_str());
    r
}

/// The `parts` in order, with `sep` between neighbours.
pub(crate) fn join(parts: &Vec<String>, sep: &str) -> (r: String)
    ensures
        r@ == joined(text_of(parts@), sep@),
{
    let mut r = String::new();
    let ghost all = text_of(parts@);
    let mut i: usize = 0;
    while i < parts.len()
        invariant
            i <= parts.len(),
            all == text_of(parts@),
            r@ == joined(all.take(i as int), sep@),
        decreases parts.len() - i,
    {
        if i > 0 {
            r.append(sep);
        }
        r.append(parts[i].as_str());
        proof {
            assert(all.take(i + 1).drop_last() =~= all.take(i as int));
            if i == 0 {
                assert(all.take(0).len() == 0);
                assert(r@ =~= all[0]);
            }
        }
        i = i + 1;
    }
    proof {
        assert(all.take(i as int) =~= all);
    }
    r
}

fn white_space(c: char) -> (r: bool)
    ensures
        r == is_white_space(c),
{
    let n: u32 = c as u32;
    (0x09 <= n && n <= 0x0D) || n == 0x20 || n == 0x85 || n == 0xA0 || n == 0x1680 || (0x2000 <= n
        && n <= 0x200A) || n == 0x2028 || n == 0x2029 || n == 0x202F || n == 0x205F || n == 0x3000
}

/// `s` without the white space at either end.
pub(crate) fn trim(s: &str) -> (r: String)
    ensures
        r@ == trimmed(s@),
{
    let chars = chars_of(s);
    let n = chars.len();
    let mut from: usize = 0;
    proof {
        assert(s@.skip(0) =~= s@);
    }
    while from < n && white_space(chars[from])
        invariant
            from <= n,
            n == chars.len(),
            chars@ == s@,
            trimmed_start(s@) == trimmed_start(s@.skip(from as int)),
        decreases n - from,
    {
        proof {
            assert(s@.skip(from as int).drop_first() =~= s@.skip(from + 1));
        }
        from = from + 1;
    }
    let mut to: usize = n;
    proof {
        assert(s@.subrange(from as int, n as int) =~= s@.skip(from as int));
    }
    while from < to && white_space(chars[to - 1])
        invariant
            from <= to <= n,
            n == chars.len(),
            chars@ == s@,
            trimmed(s@) == trimmed_end(s@.subrange(from as int, to as int)),
        decreases to,
    {
        proof {
            assert(s@.subrange(from as int, to as int).drop_last() =~= s@.subrange(
                from as int,
                to - 1,
            ));
        }
        to = to - 1;
    }
    s.substring_char(from, to).to_owned()
}

/// Are the two texts equal?
pub(crate) fn same(a: &str, b: &str) -> (r: bool)
    ensures
        r == (a@ == b@),
{
    let x = chars_of(a);
    let y = chars_of(b);
    if x.len() != y.len() {
        return false;
    }
    let mut i: usize = 0;
    while i < x.len()
        invariant
            i <= x@.len(),
            x@ == a@,
            y@ == b@,
            x@.len() == y@.len(),
            forall|k: int| 0 <= k < i ==> #[trigger] x@[k] == y@[k],
        decreases x@.len() - i,
    {
        if x[i] != y[i] {
            return false;
        }
        i = i + 1;
    }
    proof {
        assert(x@ =~= y@);
    }
    true
}

/// Does `needle` stand somewhere in `hay`?
pub(crate) fn contains(hay: &str, needle: &str) -> (r: bool)
    ensures
        r == contains_text(hay@, needle@),
{
    let h = chars_of(hay);
    let p = chars_of(needle);
    if p.len() > h.len() {
        return false;
    }
    let last = h.len() - p.len();
    let mut i: usize = 0;
    loop
        invariant
            i <= last,
            last == h.len() - p.len(),
            h@ == hay@,
            p@ == needle@,
            forall|k: int| 0 <= k < i ==> !stands_at(hay@, needle@, k),
        decreases last - i,
    {
        let mut j: usize = 0;
        while j < p.len() && h[i + j] == p[j]
            invariant
                i <= last,
                last == h.len() - p.len(),
                j <= p.len(),
                forall|k: int| 0 <= k < j ==> #[trigger] p@[k] == h@[i + k],
            decreases p.len() - j,
        {
            j = j + 1;
        }
        if j == p.len() {
            proof {
                assert(hay@.subrange(i as int, i + needle@.len()) =~= needle@);
                assert(stands_at(hay@, needle@, i as int));
            }
            return true;
        }
        proof {
            assert(!stands_at(hay@, needle@, i as int)) by {
                assert(hay@.subrange(i as int, i + needle@.len())[j as int] != needle@[j as int]);
            }
        }
        if i == last {
            return false;
        }
        i = i + 1;
    }
}

/// The number that `s` writes, if it writes one of at most `max`.
pub(crate) fn parse_unsigned(s: &Vec<char>, max: u32) -> (r: Option<u32>)
    ensures
        match r {
            Some(n) => unsigned(s@, max as nat) == Some(n as nat),
            None => unsigned(s@, max as nat) is None,
        },
{
    let from: usize = if s.len() > 0 && s[0] == '+' {
        1
    } else {
        0
    };
    let ghost body = unsigned_body(s@);
    if s.len() == from {
        return None;
    }
    let mut value: u64 = 0;
    let mut i: usize = from;
    proof {
        assert(body =~= s@.skip(from as int));
    }
    while i < s.len()
        invariant
            from <= i <= s.len(),
            body == s@.skip(from as int),
            body == unsigned_body(s@),
            value == digits_value(body.take(i - from)),
            value <= max,
            forall|k: int| 0 <= k < i - from ==> is_digit(#[trigger] body[k]),
        decreases s.len() - i,
    {
        let c = s[i];
        proof {
            assert(body[i - from] == c);
            assert(body.take(i - from + 1).drop_last() =~= body.take(i - from));
        }
        if c < '0' || c > '9' {
            return None;
        }
        value = value * 10 + (c as u32 - '0' as u32) as u64;
        if value > max as u64 {
            proof {
                if forall|k: int| 0 <= k < body.len() ==> is_digit(#[trigger] body[k]) {
                    lemma_digits_value_grows(body, i - from + 1);
                }
            }
            return None;
        }
        i = i + 1;
    }
    proof {
        assert(body.take(i - from) =~= body);
    }
    Some(value as u32)
}

} // verus!
