//! Text helpers of the allowlist: views of string collections, decimal
//! numbers, and the pieces of a forwarded-address header.

use vstd::prelude::*;

verus! {

/// The characters of each string of a list.
pub open spec fn texts(list: Seq<String>) -> Seq<Seq<char>> {
    list.map_values(|text: String| text@)
}

/// The characters of an optional string.
pub open spec fn optional_text(text: Option<String>) -> Option<Seq<char>> {
    match text {
        Some(text) => Some(text@),
        None => None,
    }
}

/// Whether two texts hold the same characters.
pub(crate) fn same_text(a: &str, b: &str) -> (same: bool)
    ensures
        same == (a@ == b@),
{
    a.to_owned() == b.to_owned()
}

/// The character of a decimal digit.
pub open spec fn digit_char(digit: nat) -> char
    recommends
        digit < 10,
{
    (digit + 48) as char
}

/// The decimal digits of a number, without sign and without leading zeros.
pub open spec fn decimal_text(n: nat) -> Seq<char>
    decreases n,
{
    if n < 10 {
        seq![digit_char(n)]
    } else {
        decimal_text(n / 10).push(digit_char(n % 10))
    }
}

fn digit_text(digit: u128) -> (text: &'static str)
    requires
        digit < 10,
    ensures
        text@ == seq![digit_char(digit as nat)],
{
    proof {
        reveal_strlit("0");
        reveal_strlit("1");
        reveal_strlit("2");
        reveal_strlit("3");
        reveal_strlit("4");
        reveal_strlit("5");
        reveal_strlit("6");
        reveal_strlit("7");
        reveal_strlit("8");
        reveal_strlit("9");
    }
    if digit == 0 {
        "0"
    } else if digit == 1 {
        "1"
    } else if digit == 2 {
        "2"
    } else if digit == 3 {
        "3"
    } else if digit == 4 {
        "4"
    } else if digit == 5 {
        "5"
    } else if digit == 6 {
        "6"
    } else if digit == 7 {
        "7"
    } else if digit == 8 {
        "8"
    } else {
        "9"
    }
}

/// Writes a number in decimal.
pub fn decimal(n: u128) -> (text: String)
    ensures
        text@ == decimal_text(n as nat),
    decreases n,
{
    if n < 10 {
        digit_text(n).to_owned()
    } else {
        let mut text = decimal(n / 10);
        text.append(digit_text(n % 10));
        text
    }
}

/// A text widened to at least `width` characters by zeros on its left.
pub open spec fn zero_padded(text: Seq<char>, width: int) -> Seq<char>
    decreases width - text.len(),
{
    if text.len() >= width {
        text
    } else {
        zero_padded(seq!['0'] + text, width)
    }
}

fn pad(text: String, width: usize) -> (padded: String)
    ensures
        padded@ == zero_padded(text@, width as int),
{
    let mut padded = text;
    let mut length: usize = padded.as_str().unicode_len();
    while length < width
        invariant
            length == padded@.len(),
            zero_padded(padded@, width as int) == zero_padded(text@, width as int),
        decreases width - length,
    {
        proof {
            reveal_strlit("0");
            assert("0"@ =~= seq!['0']);
        }
        padded = "0".to_owned().concat(padded.as_str());
        length = length + 1;
    }
    padded
}

/// A whole number in decimal, widened by zeros to at least `width`
/// characters; the sign of a negative number stands first and counts.
pub open spec fn padded_number(n: int, width: int) -> Seq<char> {
    if n < 0 {
        seq!['-'] + zero_padded(decimal_text((-n) as nat), width - 1)
    } else {
        zero_padded(decimal_text(n as nat), width)
    }
}

/// Writes a whole number in decimal, widened by zeros to at least `width`
/// characters.
pub fn padded(n: i64, width: usize) -> (text: String)
    requires
        width > 0,
    ensures
        text@ == padded_number(n as int, width as int),
{
    if n < 0 {
        proof {
            reveal_strlit("-");
            assert("-"@ =~= seq!['-']);
        }
        let magnitude: u128 = (-(n as i128)) as u128;
        "-".to_owned().concat(pad(decimal(magnitude), width - 1).as_str())
    } else {
        pad(decimal(n as u128), width)
    }
}

/// Whether a character is white space: whether it has the Unicode property
/// `White_Space`.
pub open spec fn is_white_space(c: char) -> bool {
    ||| '\u{9}' <= c <= '\u{d}'
    ||| c == ' '
    ||| c == '\u{85}'
    ||| c == '\u{a0}'
    ||| c == '\u{1680}'
    ||| '\u{2000}' <= c <= '\u{200a}'
    ||| c == '\u{2028}'
    ||| c == '\u{2029}'
    ||| c == '\u{202f}'
    ||| c == '\u{205f}'
    ||| c == '\u{3000}'
}

/// A text without its leading and trailing white space.
pub open spec fn trimmed(text: Seq<char>) -> Seq<char>
    decreases text.len(),
{
    if text.len() == 0 {
        text
    } else if is_white_space(text[0]) {
        trimmed(text.drop_first())
    } else if is_white_space(text.last()) {
        trimmed(text.drop_last())
    } else {
        text
    }
}

/// Calls `str::trim`: takes away the white space at both ends, by the Unicode
/// property `White_Space`, and nothing else.
#[verifier::external_body]
pub(crate) fn trim(text: &str) -> (rest: &str)
    ensures
        rest@ == trimmed(text@),
{
    text.trim()
}

/// Whether `a` stands before `b` in the alphabet of Unicode code points.
pub open spec fn stands_before(a: Seq<char>, b: Seq<char>) -> bool
    decreases a.len(),
{
    if b.len() == 0 {
        false
    } else if a.len() == 0 {
        true
    } else if a[0] != b[0] {
        a[0] < b[0]
    } else {
        stands_before(a.drop_first(), b.drop_first())
    }
}

/// Where the first comma of a text stands, or its length if it has none.
pub open spec fn comma_position(text: Seq<char>) -> nat
    decreases text.len(),
{
    if text.len() == 0 || text[0] == ',' {
        0
    } else {
        1 + comma_position(text.drop_first())
    }
}

/// The part of a text before its first comma; the whole text if it has none.
pub open spec fn before_comma(text: Seq<char>) -> Seq<char> {
    text.take(comma_position(text) as int)
}

/// A comma at `position` with none before it is the first comma.
proof fn comma_found(text: Seq<char>, position: nat)
    requires
        position <= text.len(),
        forall|i: int| 0 <= i < position ==> text[i] != ',',
        position < text.len() ==> text[position as int] == ',',
    ensures
        comma_position(text) == position,
    decreases position,
{
    if position > 0 {
        assert(text[0] != ',');
        let rest = text.drop_first();
        assert forall|i: int| 0 <= i < position - 1 implies rest[i] != ',' by {
            assert(rest[i] == text[i + 1]);
        }
        comma_found(rest, (position - 1) as nat);
    }
}

/// The part of a header value before its first comma.
pub fn first_hop(text: &str) -> (hop: &str)
    ensures
        hop@ == before_comma(text@),
{
    let chars = characters(text);
    let mut position: usize = 0;
    while position < chars.len() && chars[position] != ','
        invariant
            position <= chars@.len(),
            forall|i: int| 0 <= i < position ==> chars@[i] != ',',
        decreases chars@.len() - position,
    {
        position = position + 1;
    }
    proof {
        comma_found(text@, position as nat);
    }
    text.substring_char(0, position)
}

/// The characters of a text, one by one.
pub(crate) fn characters(text: &str) -> (chars: Vec<char>)
    ensures
        chars@ == text@,
{
    let mut chars: Vec<char> = Vec::new();
    for c in iter: text.chars()
        invariant
            iter.seq() == text@,
            chars@ == iter.seq().take(iter.index() as int),
    {
        chars.push(c);
    }
    chars
}

/// What stands behind the first comma has no part in the first hop.
pub proof fn first_hop_ignores_the_rest(hop: Seq<char>, rest: Seq<char>)
    requires
        !hop.contains(','),
    ensures
        before_comma(hop + seq![','] + rest) == hop,
        before_comma(hop) == hop,
{
    let whole = hop + seq![','] + rest;
    assert forall|i: int| 0 <= i < hop.len() implies whole[i] != ',' && hop[i] != ',' by {
        assert(whole[i] == hop[i]);
        assert(hop.contains(hop[i]));
    }
    comma_found(whole, hop.len());
    comma_found(hop, hop.len());
    assert(whole.take(hop.len() as int) =~= hop);
    assert(hop.take(hop.len() as int) =~= hop);
}

/// White space around a text is trimmed away, whatever the text.
pub proof fn surrounding_white_space_is_trimmed(
    before: Seq<char>,
    text: Seq<char>,
    after: Seq<char>,
)
    requires
        forall|i: int| 0 <= i < before.len() ==> is_white_space(#[trigger] before[i]),
        forall|i: int| 0 <= i < after.len() ==> is_white_space(#[trigger] after[i]),
    ensures
        trimmed(before + text + after) == trimmed(text),
    decreases before.len() + after.len(),
{
    let whole = before + text + after;
    if before.len() > 0 {
        assert(whole[0] == before[0]);
        assert(whole.drop_first() =~= before.drop_first() + text + after);
        surrounding_white_space_is_trimmed(before.drop_first(), text, after);
    } else if after.len() > 0 {
        assert(whole =~= (text + after.drop_last()).push(after.last()));
        trailing_white_space_is_trimmed(text + after.drop_last(), after.last());
        assert(text + after.drop_last() =~= before + text + after.drop_last());
        surrounding_white_space_is_trimmed(before, text, after.drop_last());
    } else {
        assert(whole =~= text);
    }
}

proof fn trailing_white_space_is_trimmed(text: Seq<char>, c: char)
    requires
        is_white_space(c),
    ensures
        trimmed(text.push(c)) == trimmed(text),
    decreases text.len(),
{
    let whole = text.push(c);
    if text.len() == 0 {
        assert(whole.drop_first() =~= text);
    } else if is_white_space(text[0]) {
        assert(whole.drop_first() =~= text.drop_first().push(c));
        trailing_white_space_is_trimmed(text.drop_first(), c);
    } else {
        assert(whole.drop_last() =~= text);
    }
}

/// What follows equal beginnings decides which text stands before the other.
pub(crate) proof fn order_after_equal_beginnings(start: Seq<char>, a: Seq<char>, b: Seq<char>)
    requires
        stands_before(a, b),
    ensures
        stands_before(start + a, start + b),
    decreases start.len(),
{
    if start.len() == 0 {
        assert(start + a =~= a);
        assert(start + b =~= b);
    } else {
        assert((start + a).drop_first() =~= start.drop_first() + a);
        assert((start + b).drop_first() =~= start.drop_first() + b);
        order_after_equal_beginnings(start.drop_first(), a, b);
    }
}

/// Of two texts of one length, the order stands whatever follows.
pub(crate) proof fn order_before_any_endings(
    a: Seq<char>,
    b: Seq<char>,
    a_end: Seq<char>,
    b_end: Seq<char>,
)
    requires
        a.len() == b.len(),
        stands_before(a, b),
    ensures
        stands_before(a + a_end, b + b_end),
    decreases a.len(),
{
    if a[0] == b[0] {
        assert((a + a_end).drop_first() =~= a.drop_first() + a_end);
        assert((b + b_end).drop_first() =~= b.drop_first() + b_end);
        order_before_any_endings(a.drop_first(), b.drop_first(), a_end, b_end);
    }
}

/// The last `width` decimal digits of a number.
spec fn last_digits(n: nat, width: nat) -> Seq<char>
    decreases width,
{
    if width == 0 {
        Seq::empty()
    } else {
        last_digits(n / 10, (width - 1) as nat).push(digit_char(n % 10))
    }
}

proof fn last_digits_are_ordered(a: nat, b: nat, width: nat)
    requires
        a < b,
        has_width(b, width),
    ensures
        stands_before(last_digits(a, width), last_digits(b, width)),
    decreases width,
{
    let a_start = last_digits(a / 10, (width - 1) as nat);
    let b_start = last_digits(b / 10, (width - 1) as nat);
    let a_end = seq![digit_char(a % 10)];
    let b_end = seq![digit_char(b % 10)];
    assert(last_digits(a, width) =~= a_start + a_end);
    assert(last_digits(b, width) =~= b_start + b_end);
    if a / 10 < b / 10 {
        last_digits_are_ordered(a / 10, b / 10, (width - 1) as nat);
        last_digits_width(a / 10, (width - 1) as nat);
        last_digits_width(b / 10, (width - 1) as nat);
        order_before_any_endings(a_start, b_start, a_end, b_end);
    } else {
        assert(a / 10 == b / 10);
        assert(stands_before(a_end, b_end));
        order_after_equal_beginnings(a_start, a_end, b_end);
    }
}

proof fn last_digits_width(n: nat, width: nat)
    ensures
        last_digits(n, width).len() == width,
    decreases width,
{
    if width > 0 {
        last_digits_width(n / 10, (width - 1) as nat);
    }
}

/// Whether a number has no more than `width` digits.
spec fn has_width(n: nat, width: nat) -> bool
    decreases width,
{
    if width == 0 {
        n == 0
    } else {
        has_width(n / 10, (width - 1) as nat)
    }
}

/// Whether a number fills a timestamp field of `width` characters.
pub open spec fn fits_field(n: int, width: int) -> bool {
    ||| width == 2 && 0 <= n < 100
    ||| width == 3 && 0 <= n < 1000
    ||| width == 4 && 0 <= n < 10_000
}

#[verifier::spinoff_prover]
proof fn padded_number_is_its_digits(n: int, width: int)
    requires
        fits_field(n, width),
    ensures
        padded_number(n, width) == last_digits(n as nat, width as nat),
        has_width(n as nat, width as nat),
        padded_number(n, width).len() == width,
{
    reveal_with_fuel(decimal_text, 5);
    reveal_with_fuel(zero_padded, 5);
    reveal_with_fuel(last_digits, 5);
    reveal_with_fuel(has_width, 5);
    assert(padded_number(n, width) =~= last_digits(n as nat, width as nat));
}

/// Numbers in a field of one width have that width, and their texts have the
/// order of the numbers.
pub(crate) proof fn padded_numbers_are_ordered(a: int, b: int, width: int)
    requires
        fits_field(a, width),
        fits_field(b, width),
    ensures
        padded_number(a, width).len() == width,
        padded_number(b, width).len() == width,
        a < b ==> stands_before(padded_number(a, width), padded_number(b, width)),
{
    padded_number_is_its_digits(a, width);
    padded_number_is_its_digits(b, width);
    if a < b {
        last_digits_are_ordered(a as nat, b as nat, width as nat);
    }
}

/// The number that a run of decimal digits stands for.
pub open spec fn digits_value(digits: Seq<char>) -> int
    decreases digits.len(),
{
    if digits.len() == 0 {
        0
    } else {
        digits_value(digits.drop_last()) * 10 + (digits.last() as int - '0' as int)
    }
}

/// Whether a text holds decimal digits only.
pub open spec fn all_digits(text: Seq<char>) -> bool {
    forall|i: int| 0 <= i < text.len() ==> '0' <= #[trigger] text[i] <= '9'
}

/// A number in decimal reads back as that number; it is written with digits
/// alone, at least one, and begins with a zero only where it is zero.
pub proof fn decimal_reads_back(n: nat)
    ensures
        all_digits(decimal_text(n)),
        digits_value(decimal_text(n)) == n,
        decimal_text(n).len() > 0,
        decimal_text(n)[0] == '0' <==> n == 0,
    decreases n,
{
    let text = decimal_text(n);
    if n < 10 {
        assert(text.drop_last() =~= Seq::<char>::empty());
        assert(digits_value(text.drop_last()) == 0);
        assert(text.last() as int == n + 48);
    } else {
        decimal_reads_back(n / 10);
        assert(text.drop_last() =~= decimal_text(n / 10));
        assert(text.last() as int == n % 10 + 48);
        assert(text[0] == decimal_text(n / 10)[0]);
        assert forall|i: int| 0 <= i < text.len() implies '0' <= #[trigger] text[i] <= '9' by {
            if i < text.len() - 1 {
                assert(text[i] == decimal_text(n / 10)[i]);
            }
        }
    }
}

proof fn leading_zero_adds_nothing(digits: Seq<char>)
    ensures
        digits_value(seq!['0'] + digits) == digits_value(digits),
    decreases digits.len(),
{
    let whole = seq!['0'] + digits;
    if digits.len() == 0 {
        assert(whole.drop_last() =~= digits);
    } else {
        assert(whole.drop_last() =~= seq!['0'] + digits.drop_last());
        leading_zero_adds_nothing(digits.drop_last());
    }
}

proof fn padding_adds_nothing(text: Seq<char>, width: int)
    requires
        all_digits(text),
    ensures
        all_digits(zero_padded(text, width)),
        digits_value(zero_padded(text, width)) == digits_value(text),
        zero_padded(text, width).len() == if text.len() < width {
            width
        } else {
            text.len() as int
        },
    decreases width - text.len(),
{
    if text.len() < width {
        leading_zero_adds_nothing(text);
        padding_adds_nothing(seq!['0'] + text, width);
    }
}

/// A number in a field of some width reads back as that number. It fills the
/// field, and exceeds it only where its digits do; the sign of a negative
/// number stands first.
pub proof fn padded_number_reads_back(n: int, width: int)
    requires
        width > 0,
    ensures
        n >= 0 ==> {
            let text = padded_number(n, width);
            &&& all_digits(text)
            &&& digits_value(text) == n
            &&& text.len() >= width
            &&& text.len() > width ==> text == decimal_text(n as nat)
        },
        n < 0 ==> {
            let text = padded_number(n, width);
            &&& text.len() >= width
            &&& text[0] == '-'
            &&& all_digits(text.skip(1))
            &&& digits_value(text.skip(1)) == -n
            &&& text.len() > width ==> text.skip(1) == decimal_text((-n) as nat)
        },
{
    let magnitude = if n < 0 {
        -n
    } else {
        n
    };
    let room = if n < 0 {
        width - 1
    } else {
        width
    };
    let digits = decimal_text(magnitude as nat);
    decimal_reads_back(magnitude as nat);
    padding_adds_nothing(digits, room);
    if n < 0 {
        assert(padded_number(n, width).skip(1) =~= zero_padded(digits, room));
    }
}

/// A text without white space at its ends is left as it is by trimming.
pub proof fn inner_white_space_stays(text: Seq<char>)
    requires
        text.len() > 0 ==> !is_white_space(text[0]) && !is_white_space(text.last()),
    ensures
        trimmed(text) == text,
{
}

proof fn comma_in_range(text: Seq<char>)
    ensures
        comma_position(text) <= text.len(),
    decreases text.len(),
{
    if text.len() > 0 && text[0] != ',' {
        comma_in_range(text.drop_first());
    }
}

/// The first hop of a text is its longest beginning without a comma.
pub proof fn first_hop_ends_at_the_first_comma(text: Seq<char>)
    ensures
        before_comma(text).is_prefix_of(text),
        !before_comma(text).contains(','),
        before_comma(text).len() < text.len() ==> text[before_comma(text).len() as int] == ',',
    decreases text.len(),
{
    comma_in_range(text);
    if text.len() > 0 && text[0] != ',' {
        let rest = text.drop_first();
        comma_in_range(rest);
        first_hop_ends_at_the_first_comma(rest);
        assert(before_comma(text) =~= seq![text[0]] + before_comma(rest));
        assert forall|i: int| 0 <= i < before_comma(text).len() implies before_comma(text)[i]
            != ',' by {
            if i > 0 {
                assert(before_comma(rest).contains(before_comma(rest)[i - 1]));
            }
        }
    }
}

/// The order of texts is that of the first characters in which they differ; a
/// text stands before those that go on where it ends.
pub proof fn first_difference_decides(a: Seq<char>, b: Seq<char>)
    ensures
        stands_before(a, b) <==> exists|k: int|
            0 <= k < b.len() && k <= a.len() && #[trigger] a.take(k) == b.take(k) && (k == a.len()
                || a[k] < b[k]),
    decreases a.len(),
{
    if a.len() > 0 && b.len() > 0 && a[0] == b[0] {
        let a_rest = a.drop_first();
        let b_rest = b.drop_first();
        first_difference_decides(a_rest, b_rest);
        if stands_before(a, b) {
            let k = choose|k: int|
                0 <= k < b_rest.len() && k <= a_rest.len() && #[trigger] a_rest.take(k)
                    == b_rest.take(k) && (k == a_rest.len() || a_rest[k] < b_rest[k]);
            assert(a.take(k + 1) =~= seq![a[0]] + a_rest.take(k));
            assert(b.take(k + 1) =~= seq![b[0]] + b_rest.take(k));
            assert(a.take(k + 1) == b.take(k + 1));
        }
        if exists|k: int|
            0 <= k < b.len() && k <= a.len() && #[trigger] a.take(k) == b.take(k) && (k == a.len()
                || a[k] < b[k]) {
            let k = choose|k: int|
                0 <= k < b.len() && k <= a.len() && #[trigger] a.take(k) == b.take(k) && (k
                    == a.len() || a[k] < b[k]);
            assert(k > 0);
            assert(a_rest.take(k - 1) =~= a.take(k).drop_first());
            assert(b_rest.take(k - 1) =~= b.take(k).drop_first());
        }
    } else if b.len() > 0 {
        assert(a.take(0) =~= b.take(0));
        assert forall|k: int|
            0 < k < b.len() && k <= a.len() && #[trigger] a.take(k) == b.take(k) implies false by {
            assert(a.take(k)[0] == b.take(k)[0]);
        }
    }
}

/// The characters of a list of strings are those of each string, in their
/// order.
pub proof fn no_string_is_lost(list: Seq<String>, i: int)
    requires
        0 <= i < list.len(),
    ensures
        texts(list).len() == list.len(),
        texts(list)[i] == list[i]@,
{
}

/// White space are the characters of ASCII that move the carriage, the space,
/// and the further spaces and separators of Unicode.
pub proof fn white_space_by_code(c: char)
    ensures
        ({
            let code = c as int;
            is_white_space(c) <==> 0x9 <= code <= 0xd || code == 0x20 || code == 0x85 || code
                == 0xa0 || code == 0x1680 || 0x2000 <= code <= 0x200a || code == 0x2028 || code
                == 0x2029 || code == 0x202f || code == 0x205f || code == 0x3000
        }),
{
}

/// The characters of an optional string are those of the string, where there is
/// one.
pub proof fn optional_string_is_kept(text: String)
    ensures
        optional_text(Some(text)) == Some(text@),
        optional_text(None) is None,
{
}

}
