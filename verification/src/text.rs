//! Text building blocks: decimal numerals, lists, quoting, comparison and trimming.

use vstd::prelude::*;

verus! {

/// The numeral of a digit.
pub open spec fn digit_text(digit: int) -> Seq<char> {
    if digit == 0 {
        seq!['0']
    } else if digit == 1 {
        seq!['1']
    } else if digit == 2 {
        seq!['2']
    } else if digit == 3 {
        seq!['3']
    } else if digit == 4 {
        seq!['4']
    } else if digit == 5 {
        seq!['5']
    } else if digit == 6 {
        seq!['6']
    } else if digit == 7 {
        seq!['7']
    } else if digit == 8 {
        seq!['8']
    } else {
        seq!['9']
    }
}

/// The decimal numeral of a natural number, without leading zeros.
pub open spec fn natural_text(n: nat) -> Seq<char>
    decreases n,
{
    if n < 10 {
        digit_text(n as int)
    } else {
        natural_text(n / 10) + digit_text((n % 10) as int)
    }
}

/// The decimal numeral of an integer, with a minus sign where it is negative.
pub open spec fn integer_text(n: int) -> Seq<char> {
    if n < 0 {
        seq!['-'] + natural_text((-n) as nat)
    } else {
        natural_text(n as nat)
    }
}

/// The numerals of `items`, separated by a comma and a space.
pub open spec fn joined_text(items: Seq<int>) -> Seq<char>
    decreases items.len(),
{
    if items.len() == 0 {
        Seq::empty()
    } else if items.len() == 1 {
        integer_text(items[0])
    } else {
        joined_text(items.drop_last()) + ", "@ + integer_text(items.last())
    }
}

/// A list of numerals in brackets.
pub open spec fn list_text(items: Seq<int>) -> Seq<char> {
    "["@ + joined_text(items) + "]"@
}

/// The integers that machine integers of type `i64` stand for.
pub open spec fn signed_ints(items: Seq<i64>) -> Seq<int> {
    items.map_values(|item: i64| item as int)
}

/// The integers that machine integers of type `usize` stand for.
pub open spec fn size_ints(items: Seq<usize>) -> Seq<int> {
    items.map_values(|item: usize| item as int)
}

/// Appends the numeral of one digit.
fn push_digit(out: &mut String, digit: u64)
    requires
        digit < 10,
    ensures
        final(out)@ == old(out)@ + digit_text(digit as int),
{
    proof {
        reveal_strlit("0");
        reveal_strlit("1");
        reveal_strlit("2");
        reveal_strlit("3");
        reveal_strlit("4");
        reveal_strlit("5");
        reveal_strlit("6");
        reveal_strlit("7");
        reveal_strlit("8");
        reveal_strlit("9");
    }
    let numeral = match digit {
        0 => "0",
        1 => "1",
        2 => "2",
        3 => "3",
        4 => "4",
        5 => "5",
        6 => "6",
        7 => "7",
        8 => "8",
        _ => "9",
    };
    assert(numeral@ =~= digit_text(digit as int));
    out.append(numeral);
}

/// Appends the decimal numeral of a natural number.
pub fn push_natural(out: &mut String, n: u64)
    ensures
        final(out)@ == old(out)@ + natural_text(n as nat),
    decreases n,
{
    if n >= 10 {
        push_natural(out, n / 10);
        push_digit(out, n % 10);
        assert(out@ =~= old(out)@ + natural_text(n as nat));
    } else {
        push_digit(out, n);
    }
}

/// Appends the decimal numeral of a size.
pub fn push_size(out: &mut String, n: usize)
    ensures
        final(out)@ == old(out)@ + natural_text(n as nat),
{
    push_natural(out, n as u64);
}

/// Appends the decimal numeral of an integer.
pub fn push_integer(out: &mut String, n: i64)
    ensures
        final(out)@ == old(out)@ + integer_text(n as int),
{
    if n < 0 {
        proof {
            reveal_strlit("-");
        }
        out.append("-");
        assert("-"@ =~= seq!['-']);
        let size: u64 = if n == i64::MIN {
            0x8000_0000_0000_0000
        } else {
            (-n) as u64
        };
        push_natural(out, size);
        assert(out@ =~= old(out)@ + integer_text(n as int));
    } else {
        push_natural(out, n as u64);
    }
}

/// Appends the numerals of `items`, separated by a comma and a space.
pub fn push_joined(out: &mut String, items: &Vec<i64>)
    ensures
        final(out)@ == old(out)@ + joined_text(signed_ints(items@)),
{
    let ghost start = out@;
    let ghost ints = signed_ints(items@);
    let count = items.len();
    assert(out@ =~= start + joined_text(ints.take(0)));
    for i in 0..count
        invariant
            count == items@.len(),
            ints == signed_ints(items@),
            out@ == start + joined_text(ints.take(i as int)),
    {
        if i > 0 {
            out.append(", ");
        }
        push_integer(out, items[i]);
        proof {
            let next = ints.take(i + 1);
            assert(next.drop_last() =~= ints.take(i as int));
            assert(next.last() == items@[i as int] as int);
            if i == 0 {
                assert(joined_text(ints.take(0)) =~= Seq::empty());
                assert(out@ =~= start + joined_text(next));
            } else {
                assert(out@ =~= start + joined_text(next));
            }
        }
    }
    assert(ints.take(count as int) =~= ints);
}

/// Appends a list of integers in brackets.
pub fn push_list(out: &mut String, items: &Vec<i64>)
    ensures
        final(out)@ == old(out)@ + list_text(signed_ints(items@)),
{
    let ghost start = out@;
    out.append("[");
    push_joined(out, items);
    out.append("]");
    assert(out@ =~= start + list_text(signed_ints(items@)));
}

/// Appends a list of sizes in brackets.
pub fn push_size_list(out: &mut String, items: &Vec<usize>)
    ensures
        final(out)@ == old(out)@ + list_text(size_ints(items@)),
{
    let ghost start = out@;
    let ghost ints = size_ints(items@);
    out.append("[");
    let ghost opened = out@;
    let count = items.len();
    assert(out@ =~= opened + joined_text(ints.take(0)));
    for i in 0..count
        invariant
            count == items@.len(),
            ints == size_ints(items@),
            out@ == opened + joined_text(ints.take(i as int)),
    {
        if i > 0 {
            out.append(", ");
        }
        push_size(out, items[i]);
        proof {
            let next = ints.take(i + 1);
            assert(next.drop_last() =~= ints.take(i as int));
            assert(next.last() == items@[i as int] as int);
            if i == 0 {
                assert(joined_text(ints.take(0)) =~= Seq::empty());
                assert(out@ =~= opened + joined_text(next));
            } else {
                assert(out@ =~= opened + joined_text(next));
            }
        }
    }
    assert(ints.take(count as int) =~= ints);
    out.append("]");
    assert(out@ =~= start + list_text(ints));
}

/// The hexadecimal numeral of a number below sixteen.
pub open spec fn hex_text(digit: int) -> Seq<char> {
    if digit < 10 {
        digit_text(digit)
    } else if digit == 10 {
        seq!['A']
    } else if digit == 11 {
        seq!['B']
    } else if digit == 12 {
        seq!['C']
    } else if digit == 13 {
        seq!['D']
    } else if digit == 14 {
        seq!['E']
    } else {
        seq!['F']
    }
}

/// True for the characters that stand in no quoted string as they are.
pub open spec fn is_control(c: char) -> bool {
    (c as u32) < 32 || (c as u32) == 127
}

/// A character as it stands in a quoted string.
pub open spec fn escaped_char(c: char) -> Seq<char> {
    if c == '"' {
        seq!['\\', '"']
    } else if c == '\\' {
        seq!['\\', '\\']
    } else if is_control(c) {
        seq!['\\', 'u', '0', '0'] + hex_text((c as u32) as int / 16) + hex_text(
            (c as u32) as int % 16,
        )
    } else {
        seq![c]
    }
}

/// The characters of a text as they stand in a quoted string.
pub open spec fn escaped_text(text: Seq<char>) -> Seq<char>
    decreases text.len(),
{
    if text.len() == 0 {
        Seq::empty()
    } else {
        escaped_text(text.drop_last()) + escaped_char(text.last())
    }
}

/// A text as a TOML basic string.
pub open spec fn quoted_text(text: Seq<char>) -> Seq<char> {
    seq!['"'] + escaped_text(text) + seq!['"']
}

/// Appends the hexadecimal numeral of a number below sixteen.
fn push_hex(out: &mut String, digit: u32)
    requires
        digit < 16,
    ensures
        final(out)@ == old(out)@ + hex_text(digit as int),
{
    if digit < 10 {
        push_digit(out, digit as u64);
    } else {
        proof {
            reveal_strlit("A");
            reveal_strlit("B");
            reveal_strlit("C");
            reveal_strlit("D");
            reveal_strlit("E");
            reveal_strlit("F");
        }
        let numeral = match digit {
            10 => "A",
            11 => "B",
            12 => "C",
            13 => "D",
            14 => "E",
            _ => "F",
        };
        assert(numeral@ =~= hex_text(digit as int));
        out.append(numeral);
    }
}

/// Appends a text as a TOML basic string.
pub fn push_quoted(out: &mut String, text: &str)
    ensures
        final(out)@ == old(out)@ + quoted_text(text@),
{
    let ghost start = out@;
    proof {
        reveal_strlit("\"");
        reveal_strlit("\\\"");
        reveal_strlit("\\\\");
        reveal_strlit("\\u00");
        assert("\""@ =~= seq!['"']);
        assert("\\\""@ =~= seq!['\\', '"']);
        assert("\\\\"@ =~= seq!['\\', '\\']);
        assert("\\u00"@ =~= seq!['\\', 'u', '0', '0']);
    }
    out.append("\"");
    let ghost opened = out@;
    let count = text.unicode_len();
    assert(out@ =~= opened + escaped_text(text@.take(0)));
    for i in 0..count
        invariant
            count == text@.len(),
            out@ == opened + escaped_text(text@.take(i as int)),
            "\\\""@ == seq!['\\', '"'],
            "\\\\"@ == seq!['\\', '\\'],
            "\\u00"@ == seq!['\\', 'u', '0', '0'],
    {
        let ghost before = out@;
        let c = text.get_char(i);
        let code: u32 = c as u32;
        if c == '"' {
            out.append("\\\"");
        } else if c == '\\' {
            out.append("\\\\");
        } else if code < 32 || code == 127 {
            out.append("\\u00");
            push_hex(out, code / 16);
            push_hex(out, code % 16);
        } else {
            out.append(text.substring_char(i, i + 1));
        }
        proof {
            let next = text@.take(i + 1);
            assert(out@ =~= before + escaped_char(c));
            assert(next.drop_last() =~= text@.take(i as int));
            assert(next.last() == c);
            assert(out@ =~= opened + escaped_text(next));
        }
    }
    assert(text@.take(count as int) =~= text@);
    out.append("\"");
    assert(out@ =~= start + quoted_text(text@));
}

/// True if both texts are the same characters.
pub fn same_text(left: &str, right: &str) -> (same: bool)
    ensures
        same == (left@ == right@),
{
    left.to_owned() == right.to_owned()
}

/// `text` without the slashes it ends in.
pub open spec fn without_trailing_slashes(text: Seq<char>) -> Seq<char>
    decreases text.len(),
{
    if text.len() > 0 && text.last() == '/' {
        without_trailing_slashes(text.drop_last())
    } else {
        text
    }
}

/// Drops every slash at the end of `text`.
pub fn trim_trailing_slashes(text: &str) -> (trimmed: String)
    ensures
        trimmed@ == without_trailing_slashes(text@),
{
    let mut end: usize = text.unicode_len();
    assert(text@.subrange(0, end as int) =~= text@);
    while end > 0 && text.get_char(end - 1) == '/'
        invariant
            end <= text@.len(),
            without_trailing_slashes(text@) == without_trailing_slashes(
                text@.subrange(0, end as int),
            ),
        decreases end,
    {
        proof {
            let before = text@.subrange(0, end as int);
            assert(before.drop_last() =~= text@.subrange(0, end - 1));
        }
        end = end - 1;
    }
    text.substring_char(0, end).to_owned()
}

/// The value of a digit, or `None` for any other character.
pub open spec fn digit_value(c: char) -> Option<int> {
    if '0' <= c && c <= '9' {
        Some(c as int - '0' as int)
    } else {
        None
    }
}

/// The number that a run of digits spells, or `None` if a character is no digit.
pub open spec fn digits_value(digits: Seq<char>) -> Option<int>
    decreases digits.len(),
{
    if digits.len() == 0 {
        Some(0)
    } else {
        match (digits_value(digits.drop_last()), digit_value(digits.last())) {
            (Some(high), Some(low)) => Some(10 * high + low),
            _ => None,
        }
    }
}

/// The 64-bit natural number that `text` spells: an optional plus sign and at
/// least one digit, nothing else, and a value that fits.
pub open spec fn natural_value(text: Seq<char>) -> Option<u64> {
    let digits = if text.len() > 0 && text[0] == '+' {
        text.skip(1)
    } else {
        text
    };
    if digits.len() == 0 {
        None
    } else {
        match digits_value(digits) {
            Some(value) => if value <= u64::MAX {
                Some(value as u64)
            } else {
                None
            },
            None => None,
        }
    }
}

/// What follows in a run of digits never lowers the number, and a character
/// that is no digit spoils the whole run.
proof fn lemma_digits_prefix(digits: Seq<char>, n: int)
    requires
        0 <= n <= digits.len(),
    ensures
        digits_value(digits) is Some ==> digits_value(digits.take(n)) is Some
            && digits_value(digits.take(n))->0 <= digits_value(digits)->0,
        digits_value(digits) is Some ==> digits_value(digits)->0 >= 0,
    decreases digits.len(),
{
    if n == digits.len() {
        assert(digits.take(n) =~= digits);
        if n > 0 {
            lemma_digits_prefix(digits.drop_last(), n - 1);
        }
    } else {
        lemma_digits_prefix(digits.drop_last(), n);
        assert(digits.drop_last().take(n) =~= digits.take(n));
    }
}

/// Reads a 64-bit natural number.
pub fn parse_natural(text: &str) -> (value: Option<u64>)
    ensures
        value == natural_value(text@),
{
    let length: usize = text.unicode_len();
    let start: usize = if length > 0 && text.get_char(0) == '+' {
        1
    } else {
        0
    };
    let ghost digits = if text@.len() > 0 && text@[0] == '+' {
        text@.skip(1)
    } else {
        text@
    };
    assert(digits =~= text@.skip(start as int));
    if start == length {
        return None;
    }
    let mut value: u64 = 0;
    let mut i: usize = start;
    assert(digits.take(0) =~= Seq::empty());
    while i < length
        invariant
            start <= i <= length,
            length == text@.len(),
            start < length,
            digits == text@.skip(start as int),
            start == (if text@.len() > 0 && text@[0] == '+' {
                1int
            } else {
                0int
            }),
            digits_value(digits.take(i - start)) == Some(value as int),
        decreases length - i,
    {
        let c = text.get_char(i);
        proof {
            let next = digits.take(i - start + 1);
            assert(next.drop_last() =~= digits.take(i - start));
            assert(next.last() == c);
            assert(text@.skip(0) =~= text@);
            lemma_digits_prefix(digits, i - start + 1);
        }
        if !('0' <= c && c <= '9') {
            return None;
        }
        let digit: u64 = (c as u64) - ('0' as u64);
        if value > (u64::MAX - digit) / 10 {
            return None;
        }
        value = 10 * value + digit;
        i = i + 1;
    }
    assert(digits.take(length - start) =~= digits);
    Some(value)
}

/// Law: the numeral of a number reads back as the number.
pub proof fn law_numeral_reads_back(n: u64)
    ensures
        natural_value(natural_text(n as nat)) == Some(n),
{
    lemma_numeral_value(n as nat);
}

/// A numeral starts with a digit and spells its number.
proof fn lemma_numeral_value(n: nat)
    ensures
        natural_text(n).len() > 0,
        '0' <= natural_text(n)[0] && natural_text(n)[0] <= '9',
        digits_value(natural_text(n)) == Some(n as int),
    decreases n,
{
    reveal_with_fuel(digits_value, 2);
    if n < 10 {
        assert(digit_text(n as int).drop_last() =~= Seq::<char>::empty());
    } else {
        lemma_numeral_value(n / 10);
        let low = digit_text((n % 10) as int);
        assert(natural_text(n).drop_last() =~= natural_text(n / 10));
        assert(natural_text(n).last() == low[0]);
    }
}

/// Law: a numeral ends in the digit of the ones, and what stands before it is
/// the numeral of the tens; nothing does for a number below ten.
pub proof fn law_numeral_is_positional(n: nat)
    ensures
        natural_text(n).len() > 0,
        natural_text(n).last() as int == 48 + n % 10,
        n < 10 ==> natural_text(n).len() == 1,
        n >= 10 ==> natural_text(n).drop_last() == natural_text(n / 10),
{
    if n >= 10 {
        assert(natural_text(n).drop_last() =~= natural_text(n / 10));
    }
}

/// Law: a numeral has a digit for every power of ten up to its number.
pub proof fn law_numeral_length(n: nat)
    ensures
        natural_text(10 * n + 10).len() == natural_text(n + 1).len() + 1,
        natural_text(n).len() <= natural_text(n + 1).len(),
    decreases n,
{
    assert((10 * n + 10) as nat / 10 == n + 1);
    if n >= 10 {
        let tens = n / 10;
        if (n + 1) / 10 == tens + 1 {
            law_numeral_length(tens);
        }
    }
}

/// Law: different numbers have different numerals.
pub proof fn law_numerals_differ(left: nat, right: nat)
    requires
        natural_text(left) == natural_text(right),
    ensures
        left == right,
{
    lemma_numeral_value(left);
    lemma_numeral_value(right);
}

/// Law: a negative number has a minus sign in front of the numeral of its size,
/// and any other number has its plain numeral.
pub proof fn law_sign_of_integer(n: int)
    ensures
        n < 0 ==> integer_text(n)[0] as int == 45 && integer_text(n).skip(1) == natural_text(
            (-n) as nat,
        ),
        n >= 0 ==> integer_text(n) == natural_text(n as nat),
{
    if n < 0 {
        assert(integer_text(n).skip(1) =~= natural_text((-n) as nat));
    }
}

/// Law: a list stands in brackets, and one more item comes behind a comma and a
/// space, unless it is the first.
pub proof fn law_list_grows_by_one(items: Seq<int>, item: int)
    ensures
        joined_text(Seq::<int>::empty()) == Seq::<char>::empty(),
        joined_text(items.push(item)) == (if items.len() == 0 {
            integer_text(item)
        } else {
            joined_text(items) + ", "@ + integer_text(item)
        }),
        list_text(items) == "["@ + joined_text(items) + "]"@,
{
    assert(items.push(item).drop_last() =~= items);
}

/// Law: machine integers stand in a list as the integers that they are, in
/// order.
pub proof fn law_listed_as_they_are(signed: Seq<i64>, sizes: Seq<usize>, i: int)
    ensures
        signed_ints(signed).len() == signed.len(),
        size_ints(sizes).len() == sizes.len(),
        0 <= i < signed.len() ==> signed_ints(signed)[i] == signed[i],
        0 <= i < sizes.len() ==> size_ints(sizes)[i] == sizes[i],
{
}

/// Law: trimming keeps a front part that does not end in a slash, and drops
/// nothing but slashes.
pub proof fn law_trimming_drops_slashes_only(text: Seq<char>)
    ensures
        ({
            let trimmed = without_trailing_slashes(text);
            &&& trimmed.len() <= text.len()
            &&& trimmed == text.take(trimmed.len() as int)
            &&& trimmed.len() > 0 ==> trimmed.last() != '/'
            &&& forall|i: int| trimmed.len() <= i < text.len() ==> #[trigger] text[i] == '/'
        }),
    decreases text.len(),
{
    if text.len() > 0 && text.last() == '/' {
        let front = text.drop_last();
        law_trimming_drops_slashes_only(front);
        let trimmed = without_trailing_slashes(front);
        assert(front.take(trimmed.len() as int) =~= text.take(trimmed.len() as int));
        assert forall|i: int| trimmed.len() <= i < text.len() implies #[trigger] text[i] == '/' by {
            if i < front.len() {
                assert(front[i] == text[i]);
            }
        }
    } else {
        assert(text.take(text.len() as int) =~= text);
    }
}

/// Law: one more digit makes a run of digits ten times as large, and the digit
/// more.
pub proof fn law_digits_are_positional(digits: Seq<char>, c: char)
    ensures
        digits_value(Seq::<char>::empty()) == Some(0int),
        digits_value(digits.push(c)) == (if 48 <= c as int <= 57 && digits_value(digits) is Some {
            Some(10 * digits_value(digits)->Some_0 + (c as int - 48))
        } else {
            None::<int>
        }),
{
    assert(digits.push(c).drop_last() =~= digits);
}

/// Law: a text reads as a number exactly if it is digits, at least one, that
/// spell a number of 64 bits, with or without a plus sign in front.
pub proof fn law_number_is_what_its_digits_spell(digits: Seq<char>)
    requires
        digits.len() > 0,
        digits[0] != '+',
    ensures
        natural_value(digits) == natural_value(seq!['+'] + digits),
        natural_value(digits) is Some <==> digits_value(digits) is Some && digits_value(
            digits,
        )->Some_0 <= 0xffff_ffff_ffff_ffff,
        natural_value(digits) is Some ==> natural_value(digits)->Some_0 == digits_value(
            digits,
        )->Some_0,
        natural_value(Seq::<char>::empty()) is None,
        natural_value(seq!['+']) is None,
{
    assert((seq!['+'] + digits).skip(1) =~= digits);
    assert(seq!['+'].skip(1) =~= Seq::<char>::empty());
    lemma_digits_prefix(digits, digits.len() as int);
}

/// Law: a text without quotes, backslashes and control characters stands
/// between quotes as it is.
pub proof fn law_plain_text_is_quoted_as_it_is(text: Seq<char>)
    requires
        forall|i: int|
            0 <= i < text.len() ==> (#[trigger] text[i]) as u32 >= 32 && text[i] as u32 != 34
                && text[i] as u32 != 92 && text[i] as u32 != 127,
    ensures
        quoted_text(text) == seq!['"'] + text + seq!['"'],
    decreases text.len(),
{
    if text.len() > 0 {
        let front = text.drop_last();
        assert(text.last() == text[text.len() - 1]);
        assert forall|i: int| 0 <= i < front.len() implies (#[trigger] front[i]) as u32 >= 32
            && front[i] as u32 != 34 && front[i] as u32 != 92 && front[i] as u32 != 127 by {
            assert(front[i] == text[i]);
        }
        law_plain_text_is_quoted_as_it_is(front);
        lemma_quoted_middle(front);
        lemma_quoted_middle(text);
        let quoted = seq!['"'] + front + seq!['"'];
        assert(quoted.subrange(1, quoted.len() - 1) =~= front);
        assert(escaped_text(text) =~= text);
    }
    assert(text.len() == 0 ==> escaped_text(text) =~= text);
}

/// What stands between the quotes is the escaped text.
proof fn lemma_quoted_middle(text: Seq<char>)
    ensures
        quoted_text(text).subrange(1, quoted_text(text).len() - 1) == escaped_text(text),
{
    assert(quoted_text(text).subrange(1, quoted_text(text).len() - 1) =~= escaped_text(text));
}

/// Law: a quote and a backslash get a backslash in front, and a control
/// character becomes a backslash, a `u` and four hexadecimal digits that spell
/// its number.
pub proof fn law_escapes(c: char)
    ensures
        c as u32 == 34 || c as u32 == 92 ==> escaped_char(c) == seq!['\\', c],
        (c as u32) < 32 || c as u32 == 127 ==> {
            let escape = escaped_char(c);
            &&& escape.len() == 6
            &&& escape[0] == '\\' && escape[1] == 'u' && escape[2] == '0' && escape[3] == '0'
            &&& escape[4] as int == 48 + c as u32 / 16
            &&& escape[5] as int == (if c as u32 % 16 < 10 {
                48 + c as u32 % 16
            } else {
                55 + c as u32 % 16
            })
        },
{
    if c as u32 == 34 {
        assert(c == '"');
    }
    if c as u32 == 92 {
        assert(c == '\\');
    }
}

/// Law: the parts of a text are escaped one by one.
pub proof fn law_parts_are_escaped_alike(left: Seq<char>, right: Seq<char>)
    ensures
        escaped_text(left + right) == escaped_text(left) + escaped_text(right),
    decreases right.len(),
{
    if right.len() == 0 {
        assert(left + right =~= left);
        assert(escaped_text(left) + escaped_text(right) =~= escaped_text(left));
    } else {
        assert((left + right).drop_last() =~= left + right.drop_last());
        law_parts_are_escaped_alike(left, right.drop_last());
        assert(escaped_text(left) + escaped_text(right) =~= escaped_text(left) + escaped_text(
            right.drop_last(),
        ) + escaped_char(right.last()));
    }
}

} // verus!
