//! Numbers as text: the page number typed into the toolbar, and the decimals in
//! status messages.

use vstd::prelude::*;
use vstd::string::*;

verus! {

/// The character of a decimal digit.
pub open spec fn digit_char(digit: int) -> char {
    ('0' as int + digit) as char
}

/// A number in decimal, without leading zeros.
pub open spec fn decimal(number: nat) -> Seq<char>
    decreases number,
{
    if number < 10 {
        seq![digit_char(number as int)]
    } else {
        decimal(number / 10).push(digit_char((number % 10) as int))
    }
}

/// A number in decimal, with a minus sign in front if it is negative.
pub open spec fn signed_decimal(number: int) -> Seq<char> {
    if number < 0 {
        seq!['-'] + decimal((-number) as nat)
    } else {
        decimal(number as nat)
    }
}

pub open spec fn is_digit(c: char) -> bool {
    '0' <= c && c <= '9'
}

/// The characters with the Unicode property `White_Space`.
pub open spec fn is_space(c: char) -> bool {
    let code = c as int;
    ||| 0x9 <= code <= 0xd
    ||| code == 0x20
    ||| code == 0x85
    ||| code == 0xa0
    ||| code == 0x1680
    ||| 0x2000 <= code <= 0x200a
    ||| code == 0x2028
    ||| code == 0x2029
    ||| code == 0x202f
    ||| code == 0x205f
    ||| code == 0x3000
}

/// The number that a run of digits writes.
pub open spec fn digits_value(digits: Seq<char>) -> int
    decreases digits.len(),
{
    if digits.len() == 0 {
        0
    } else {
        10 * digits_value(digits.drop_last()) + (digits.last() as int - '0' as int)
    }
}

/// `text` without leading and trailing white space.
pub open spec fn trimmed(text: Seq<char>) -> Seq<char>
    decreases text.len(),
{
    if text.len() == 0 {
        text
    } else if is_space(text.first()) {
        trimmed(text.drop_first())
    } else if is_space(text.last()) {
        trimmed(text.drop_last())
    } else {
        text
    }
}

/// The digits of a number: what follows its optional sign.
pub open spec fn after_sign(text: Seq<char>) -> Seq<char> {
    if text.len() > 0 && (text[0] == '-' || text[0] == '+') {
        text.drop_first()
    } else {
        text
    }
}

/// The integer that `text` writes: an optional sign and at least one digit,
/// nothing else, with a value of 32 bits.
pub open spec fn integer(text: Seq<char>) -> Option<i32> {
    let digits = after_sign(text);
    let value = if text.len() > 0 && text[0] == '-' {
        -digits_value(digits)
    } else {
        digits_value(digits)
    };
    if digits.len() == 0 || !(forall|i: int| 0 <= i < digits.len() ==> is_digit(
        #[trigger] digits[i],
    )) || !(i32::MIN <= value <= i32::MAX) {
        None
    } else {
        Some(value as i32)
    }
}

/// One digit as text.
fn digit_text(digit: u64) -> (text: &'static str)
    requires
        digit < 10,
    ensures
        text@ == seq![digit_char(digit as int)],
{
    proof {
        reveal_strlit("0");
        reveal_strlit("1");
        reveal_strlit("2");
        reveal_strlit("3");
        reveal_strlit("4");
        reveal_strlit("5");
        reveal_strlit("6");
        reveal_strlit("7");
        reveal_strlit("8");
        reveal_strlit("9");
    }
    if digit == 0 {
        "0"
    } else if digit == 1 {
        "1"
    } else if digit == 2 {
        "2"
    } else if digit == 3 {
        "3"
    } else if digit == 4 {
        "4"
    } else if digit == 5 {
        "5"
    } else if digit == 6 {
        "6"
    } else if digit == 7 {
        "7"
    } else if digit == 8 {
        "8"
    } else {
        "9"
    }
}

/// Appends a number in decimal.
pub fn append_decimal(text: &mut String, number: u64)
    ensures
        final(text)@ == old(text)@ + decimal(number as nat),
    decreases number,
{
    if number >= 10 {
        append_decimal(text, number / 10);
    }
    text.append(digit_text(number % 10));
}

/// Appends a number in decimal, with a minus sign in front if it is negative.
pub fn append_signed(text: &mut String, number: i64)
    ensures
        final(text)@ == old(text)@ + signed_decimal(number as int),
{
    if number < 0 {
        proof {
            reveal_strlit("-");
        }
        text.append("-");
        append_decimal(text, (-(number as i128)) as u64);
    } else {
        append_decimal(text, number as u64);
    }
}

fn is_space_char(c: char) -> (space: bool)
    ensures
        space == is_space(c),
{
    let code: u32 = c as u32;
    (0x9 <= code && code <= 0xd) || code == 0x20 || code == 0x85 || code == 0xa0 || code == 0x1680
        || (0x2000 <= code && code <= 0x200a) || code == 0x2028 || code == 0x2029 || code == 0x202f
        || code == 0x205f || code == 0x3000
}

/// The characters of a text.
pub fn chars_of(text: &str) -> (chars: Vec<char>)
    ensures
        chars@ == text@,
{
    let mut chars: Vec<char> = Vec::new();
    for c in it: text.chars()
        invariant
            chars@ == it.seq().take(it.index()),
            it.seq() == text@,
    {
        chars.push(c);
    }
    chars
}

/// A number does not shrink as digits are added to it.
proof fn lemma_more_digits(digits: Seq<char>, count: int)
    requires
        0 <= count <= digits.len(),
        forall|i: int| 0 <= i < digits.len() ==> is_digit(#[trigger] digits[i]),
    ensures
        0 <= digits_value(digits.take(count)) <= digits_value(digits),
    decreases digits.len(),
{
    if count == digits.len() {
        assert(digits.take(count) =~= digits);
        if count > 0 {
            assert(is_digit(digits[count - 1]));
            lemma_more_digits(digits.drop_last(), 0);
            assert(digits.drop_last().take(0) =~= Seq::<char>::empty());
            assert(digits_value(Seq::<char>::empty()) == 0);
        }
    } else {
        assert(is_digit(digits[digits.len() - 1]));
        lemma_more_digits(digits.drop_last(), count);
        assert(digits.drop_last().take(count) =~= digits.take(count));
    }
}

/// Reads a typed number: white space around it is ignored, anything else but an
/// optional sign and digits, or a value beyond 32 bits, makes it no number.
pub fn parse_integer(text: &str) -> (number: Option<i32>)
    ensures
        number == integer(trimmed(text@)),
{
    let chars: Vec<char> = chars_of(text);
    let mut start: usize = 0;
    let mut end: usize = chars.len();
    assert(chars@.subrange(0, chars@.len() as int) =~= chars@);
    while start < end && is_space_char(chars[start])
        invariant
            start <= end == chars@.len(),
            trimmed(chars@.subrange(start as int, end as int)) == trimmed(chars@),
        decreases end - start,
    {
        proof {
            let rest = chars@.subrange(start as int, end as int);
            assert(rest.drop_first() =~= chars@.subrange(start + 1, end as int));
        }
        start += 1;
    }
    while end > start && is_space_char(chars[end - 1])
        invariant
            start <= end <= chars@.len(),
            start < end ==> !is_space(chars@[start as int]),
            trimmed(chars@.subrange(start as int, end as int)) == trimmed(chars@),
        decreases end,
    {
        proof {
            let rest = chars@.subrange(start as int, end as int);
            assert(rest.drop_last() =~= chars@.subrange(start as int, end - 1));
        }
        end -= 1;
    }
    let ghost word = chars@.subrange(start as int, end as int);
    assert(word == trimmed(text@));
    if start == end {
        return None;
    }
    let sign: char = chars[start];
    let negative: bool = sign == '-';
    if sign == '-' || sign == '+' {
        start += 1;
    }
    let ghost digits = after_sign(word);
    assert(digits =~= chars@.subrange(start as int, end as int));
    if start == end {
        return None;
    }
    let mut value: i64 = 0;
    let mut i: usize = start;
    assert(digits.take(0) =~= Seq::<char>::empty());
    while i < end
        invariant
            start <= i <= end <= chars@.len(),
            digits == chars@.subrange(start as int, end as int),
            digits == after_sign(word),
            negative == (word[0] == '-'),
            word.len() > 0,
            word == trimmed(text@),
            0 <= value <= 2_147_483_648,
            value == digits_value(digits.take(i - start)),
            forall|k: int| 0 <= k < i - start ==> is_digit(#[trigger] digits[k]),
        decreases end - i,
    {
        let c: char = chars[i];
        assert(digits[i - start] == c);
        if !('0' <= c && c <= '9') {
            return None;
        }
        let digit: i64 = c as i64 - '0' as i64;
        value = 10 * value + digit;
        i += 1;
        proof {
            assert(digits.take(i - start).drop_last() =~= digits.take(i - start - 1));
            if value > 2_147_483_648 {
                if forall|k: int| 0 <= k < digits.len() ==> is_digit(#[trigger] digits[k]) {
                    lemma_more_digits(digits, i - start);
                }
            }
        }
        if value > 2_147_483_648 {
            return None;
        }
    }
    assert(digits.take(end - start) =~= digits);
    if negative {
        Some((-value) as i32)
    } else if value <= 2_147_483_647 {
        Some(value as i32)
    } else {
        None
    }
}

/// A decimal is made of digits that write its number.
proof fn lemma_decimal(number: nat)
    ensures
        decimal(number).len() > 0,
        forall|i: int| 0 <= i < decimal(number).len() ==> is_digit(#[trigger] decimal(number)[i]),
        digits_value(decimal(number)) == number,
    decreases number,
{
    reveal_with_fuel(digits_value, 2);
    if number >= 10 {
        lemma_decimal(number / 10);
        assert(decimal(number).drop_last() =~= decimal(number / 10));
    } else {
        assert(decimal(number).drop_last() =~= Seq::<char>::empty());
    }
}

/// A number that is written in decimal is read back as that number.
pub proof fn law_numbers_are_read_back(number: i32)
    ensures
        integer(trimmed(signed_decimal(number as int))) == Some(number),
        number >= 0 ==> integer(trimmed(decimal(number as nat))) == Some(number),
{
    let text = signed_decimal(number as int);
    let digits = decimal((if number < 0 { -number } else { number as int }) as nat);
    lemma_decimal((if number < 0 { -number } else { number as int }) as nat);
    assert(is_digit(digits[0]) && is_digit(digits[digits.len() - 1]));
    assert(text.first() == if number < 0 { '-' } else { digits[0] });
    assert(text.last() == digits[digits.len() - 1]);
    assert(trimmed(text) == text);
    assert(after_sign(text) =~= digits);
}

/// White space around what is typed makes no difference.
pub proof fn law_white_space_around_is_ignored(text: Seq<char>, space: char)
    requires
        is_space(space),
    ensures
        trimmed(seq![space] + text) == trimmed(text),
        trimmed(text.push(space)) == trimmed(text),
    decreases text.len(),
{
    assert((seq![space] + text).drop_first() =~= text);
    let longer = text.push(space);
    if text.len() == 0 {
        assert(longer.drop_first() =~= text);
    } else if is_space(text.first()) {
        assert(longer.drop_first() =~= text.drop_first().push(space));
        law_white_space_around_is_ignored(text.drop_first(), space);
    } else {
        assert(longer.first() == text.first());
        assert(longer.drop_last() =~= text);
    }
}

/// One more digit makes a number ten times as large, plus the digit, and, behind a minus
/// sign, ten times as small, less the digit. A number that needs more than 32 bits is
/// none.
pub proof fn law_each_digit_counts_ten_times_the_next(word: Seq<char>, c: char)
    requires
        integer(word) is Some,
        '0' <= c && c <= '9',
    ensures
        ({
            let digit = c as int - 48;
            let number = integer(word).unwrap();
            let longer = if word[0] == '-' {
                10 * number - digit
            } else {
                10 * number + digit
            };
            &&& -2_147_483_648 <= longer <= 2_147_483_647 ==> integer(word.push(c)) == Some(
                longer as i32,
            )
            &&& !(-2_147_483_648 <= longer <= 2_147_483_647) ==> integer(word.push(c)) is None
        }),
{
    let longer = word.push(c);
    let digits = after_sign(word);
    assert(after_sign(longer) =~= digits.push(c));
    assert(after_sign(longer).drop_last() =~= digits);
    assert forall|i: int| 0 <= i < after_sign(longer).len() implies is_digit(
        #[trigger] after_sign(longer)[i],
    ) by {
        if i < digits.len() {
            assert(is_digit(digits[i]));
        }
    }
}

/// A single digit is its number. A plus sign in front of digits makes no difference, and
/// a minus sign makes the number negative.
pub proof fn law_signs_go_in_front(c: char, word: Seq<char>)
    requires
        '0' <= c && c <= '9',
        word.len() > 0,
        '0' <= word[0] && word[0] <= '9',
    ensures
        integer(seq![c]) == Some((c as int - 48) as i32),
        integer(seq!['+'] + word) == integer(word),
        integer(word) matches Some(number) ==> integer(seq!['-'] + word) == Some((-number) as i32),
        integer(seq!['-'] + word) matches Some(number) ==> number <= 0,
{
    reveal_with_fuel(digits_value, 2);
    assert(after_sign(seq![c]) =~= seq![c]);
    assert(seq![c].drop_last() =~= Seq::<char>::empty());
    let plus = seq!['+'] + word;
    let minus = seq!['-'] + word;
    assert(plus[0] == '+' && minus[0] == '-');
    assert(plus.drop_first() =~= word);
    assert(minus.drop_first() =~= word);
    assert(after_sign(word) == word);
    assert(after_sign(plus) == word);
    assert(after_sign(minus) == word);
    if forall|i: int| 0 <= i < word.len() ==> is_digit(#[trigger] word[i]) {
        lemma_more_digits(word, 0);
    }
}

/// Nothing is no number, nor is a sign alone, nor anything with a character that is no
/// digit, but for a sign in front.
pub proof fn law_only_digits_make_a_number(word: Seq<char>, at: int)
    requires
        0 <= at < word.len(),
        !('0' <= word[at] && word[at] <= '9'),
        at == 0 ==> word[0] != '-' && word[0] != '+',
    ensures
        integer(word) is None,
        integer(Seq::empty()) is None,
        integer(seq!['-']) is None,
        integer(seq!['+']) is None,
{
    let digits = after_sign(word);
    if digits.len() < word.len() {
        assert(digits[at - 1] == word[at]);
    } else {
        assert(digits[at] == word[at]);
    }
}

/// What is left of a text without the white space around it: it is a part of the text,
/// it neither starts nor ends with white space, and nothing but white space was around
/// it.
pub proof fn law_nothing_but_white_space_is_left_out(text: Seq<char>) -> (bounds: (int, int))
    ensures
        0 <= bounds.0 <= bounds.1 <= text.len(),
        trimmed(text) == text.subrange(bounds.0, bounds.1),
        forall|i: int| 0 <= i < bounds.0 ==> is_space(#[trigger] text[i]),
        forall|i: int| bounds.1 <= i < text.len() ==> is_space(#[trigger] text[i]),
        trimmed(text).len() > 0 ==> !is_space(trimmed(text).first()) && !is_space(
            trimmed(text).last(),
        ),
    decreases text.len(),
{
    if text.len() == 0 {
        assert(text.subrange(0, 0) =~= text);
        (0, 0)
    } else if is_space(text.first()) {
        let rest = text.drop_first();
        let (start, end) = law_nothing_but_white_space_is_left_out(rest);
        assert(rest.subrange(start, end) =~= text.subrange(start + 1, end + 1));
        assert forall|i: int| 0 <= i < start + 1 implies is_space(#[trigger] text[i]) by {
            if i > 0 {
                assert(rest[i - 1] == text[i]);
            }
        }
        assert forall|i: int| end + 1 <= i < text.len() implies is_space(#[trigger] text[i]) by {
            assert(rest[i - 1] == text[i]);
        }
        (start + 1, end + 1)
    } else if is_space(text.last()) {
        let rest = text.drop_last();
        let (start, end) = law_nothing_but_white_space_is_left_out(rest);
        assert(rest.subrange(start, end) =~= text.subrange(start, end));
        assert forall|i: int| 0 <= i < start implies is_space(#[trigger] text[i]) by {
            assert(rest[i] == text[i]);
        }
        assert forall|i: int| end <= i < text.len() implies is_space(#[trigger] text[i]) by {
            if i < rest.len() {
                assert(rest[i] == text[i]);
            }
        }
        (start, end)
    } else {
        assert(text.subrange(0, text.len() as int) =~= text);
        (0, text.len() as int)
    }
}

/// White space: the space, the tab and the other controls that break a line or a page,
/// and the wider spaces and separators of Unicode. No digit and no sign is white space.
pub proof fn law_what_white_space_is(c: char)
    ensures
        is_space(c) <==> c == ' ' || c == '\t' || c == '\n' || c == '\u{b}' || c == '\u{c}' || c
            == '\r' || c == '\u{85}' || c == '\u{a0}' || c == '\u{1680}' || ('\u{2000}' <= c && c
            <= '\u{200a}') || c == '\u{2028}' || c == '\u{2029}' || c == '\u{202f}' || c
            == '\u{205f}' || c == '\u{3000}',
        is_space(c) ==> !('0' <= c && c <= '9') && c != '-' && c != '+',
{
}

/// A number below ten is one character. Any other one starts with a digit that is not
/// zero, and one more digit makes it ten times as large, plus the digit.
pub proof fn law_decimals_have_no_leading_zeros(number: nat, digit: nat)
    requires
        digit < 10,
    ensures
        decimal(digit) == seq![(48 + digit) as char],
        number > 0 ==> decimal(10 * number + digit) == decimal(number).push((48 + digit) as char),
        number > 0 ==> decimal(number)[0] != '0',
    decreases number,
{
    lemma_decimal(number);
    if number > 0 {
        assert((10 * number + digit) / 10 == number && (10 * number + digit) % 10 == digit);
        if number >= 10 {
            law_decimals_have_no_leading_zeros(number / 10, digit);
            lemma_decimal(number / 10);
        }
    }
}

}
