//! Text as sequences of characters: decimal numbers, trimming, letter case.

use vstd::prelude::*;
use vstd::string::*;
use vstd::utf8::*;

verus! {

/// The character of a decimal digit.
pub open spec fn digit_char(digit: nat) -> char {
    ('0' as nat + digit) as char
}

/// A number in decimal, without leading zeros.
pub open spec fn decimal(number: nat) -> Seq<char>
    decreases number,
{
    if number < 10 {
        seq![digit_char(number)]
    } else {
        decimal(number / 10).push(digit_char(number % 10))
    }
}

pub open spec fn is_digit(c: char) -> bool {
    '0' <= c && c <= '9'
}

pub open spec fn all_digits(s: Seq<char>) -> bool {
    forall|i: int| 0 <= i < s.len() ==> is_digit(#[trigger] s[i])
}

/// The number that a sequence of decimal digits stands for.
pub open spec fn digits_value(digits: Seq<char>) -> nat
    decreases digits.len(),
{
    if digits.len() == 0 {
        0
    } else {
        digits_value(digits.drop_last()) * 10 + (digits.last() as nat - '0' as nat) as nat
    }
}

/// The text without one leading plus sign.
pub open spec fn without_plus(s: Seq<char>) -> Seq<char> {
    if s.len() > 0 && s[0] == '+' {
        s.drop_first()
    } else {
        s
    }
}

/// The number that a text stands for: an optional plus sign, then one or more
/// digits, with a value of at most `max`.
pub open spec fn parsed(s: Seq<char>, max: nat) -> Option<nat> {
    let digits = without_plus(s);
    if digits.len() > 0 && all_digits(digits) && digits_value(digits) <= max {
        Some(digits_value(digits))
    } else {
        None
    }
}

/// A number written in decimal is read back as itself.
pub proof fn law_decimal_is_read_back(number: nat, max: nat)
    requires
        number <= max,
    ensures
        parsed(decimal(number), max) == Some(number),
{
    lemma_decimal(number);
}

pub(crate) proof fn lemma_decimal(number: nat)
    ensures
        decimal(number).len() > 0,
        all_digits(decimal(number)),
        digits_value(decimal(number)) == number,
    decreases number,
{
    if number < 10 {
        let s = decimal(number);
        assert(s.drop_last() =~= Seq::<char>::empty());
        assert(digits_value(s.drop_last()) == 0);
    } else {
        lemma_decimal(number / 10);
        let s = decimal(number);
        assert(s.drop_last() =~= decimal(number / 10));
        assert forall|i: int| 0 <= i < s.len() implies is_digit(#[trigger] s[i]) by {
            if i < s.len() - 1 {
                assert(s[i] == decimal(number / 10)[i]);
            }
        }
    }
}

/// The characters of a text.
pub(crate) fn chars_of(s: &str) -> (res: Vec<char>)
    ensures
        res@ == s@,
{
    let mut res: Vec<char> = Vec::new();
    for c in it: s.chars()
        invariant
            res@ == it.seq().take(it.index() as int),
            it.seq() == s@,
    {
        res.push(c);
    }
    assert(s@.take(s@.len() as int) =~= s@);
    res
}

fn digit_text(digit: u64) -> (res: &'static str)
    requires
        digit < 10,
    ensures
        res@ == seq![digit_char(digit as nat)],
{
    proof {
        reveal_strlit("0");
        reveal_strlit("1");
        reveal_strlit("2");
        reveal_strlit("3");
        reveal_strlit("4");
        reveal_strlit("5");
        reveal_strlit("6");
        reveal_strlit("7");
        reveal_strlit("8");
        reveal_strlit("9");
    }
    let res: &'static str = match digit {
        0 => "0",
        1 => "1",
        2 => "2",
        3 => "3",
        4 => "4",
        5 => "5",
        6 => "6",
        7 => "7",
        8 => "8",
        _ => "9",
    };
    assert(res@ =~= seq![digit_char(digit as nat)]);
    res
}

/// Writes a number in decimal.
pub fn to_decimal(number: u64) -> (res: String)
    ensures
        res@ == decimal(number as nat),
    decreases number,
{
    if number < 10 {
        digit_text(number).to_owned()
    } else {
        let mut res = to_decimal(number / 10);
        res.append(digit_text(number % 10));
        assert(res@ =~= decimal(number as nat));
        res
    }
}

/// Reads a decimal number of at most `max`.
pub fn parse_decimal(s: &str, max: u64) -> (res: Option<u64>)
    ensures
        match res {
            Some(number) => parsed(s@, max as nat) == Some(number as nat),
            None => parsed(s@, max as nat) is None,
        },
{
    let chars = chars_of(s);
    let start: usize = if chars.len() > 0 && chars[0] == '+' {
        1
    } else {
        0
    };
    let ghost digits = without_plus(s@);
    assert(digits =~= chars@.skip(start as int));
    if chars.len() == start {
        return None;
    }
    let mut value: u64 = 0;
    let mut i: usize = start;
    while i < chars.len()
        invariant
            start <= i <= chars.len(),
            chars@ == s@,
            digits == without_plus(s@),
            digits == chars@.skip(start as int),
            all_digits(digits.take(i - start)),
            value == digits_value(digits.take(i - start)),
            value <= max,
        decreases chars.len() - i,
    {
        let c = chars[i];
        assert(digits[i - start] == c);
        if c < '0' || c > '9' {
            return None;
        }
        let digit: u64 = c as u64 - '0' as u64;
        let ghost longer = digits.take(i + 1 - start);
        assert(longer.drop_last() =~= digits.take(i - start));
        assert(longer.last() == c);
        assert forall|j: int| 0 <= j < longer.len() implies is_digit(#[trigger] longer[j]) by {
            if j < longer.len() - 1 {
                assert(longer[j] == digits.take(i - start)[j]);
            }
        }
        let next: u128 = value as u128 * 10 + digit as u128;
        assert(next == digits_value(longer));
        if next > max as u128 {
            proof {
                lemma_prefix_value(digits, i + 1 - start);
            }
            return None;
        }
        value = next as u64;
        i = i + 1;
    }
    assert(digits.take(digits.len() as int) =~= digits);
    Some(value)
}

/// A longer sequence of digits stands for no smaller number.
proof fn lemma_prefix_value(digits: Seq<char>, count: int)
    requires
        0 <= count <= digits.len(),
    ensures
        digits_value(digits.take(count)) <= digits_value(digits),
    decreases digits.len() - count,
{
    if count == digits.len() {
        assert(digits.take(count) =~= digits);
    } else {
        lemma_prefix_value(digits, count + 1);
        assert(digits.take(count + 1).drop_last() =~= digits.take(count));
    }
}

/// Whether two texts are the same.
pub(crate) fn same_text(a: &str, b: &str) -> (res: bool)
    ensures
        res == (a@ == b@),
{
    let left = a.as_bytes();
    let right = b.as_bytes();
    proof {
        encode_utf8_decode_utf8(a@);
        encode_utf8_decode_utf8(b@);
    }
    if left.len() != right.len() {
        return false;
    }
    let mut i: usize = 0;
    while i < left.len()
        invariant
            i <= left.len() == right.len(),
            left@ == encode_utf8(a@),
            right@ == encode_utf8(b@),
            forall|j: int| 0 <= j < i ==> left@[j] == right@[j],
        decreases left.len() - i,
    {
        if left[i] != right[i] {
            return false;
        }
        i = i + 1;
    }
    assert(left@ =~= right@);
    true
}

/// The characters with Unicode's White_Space property.
pub open spec fn is_white_space(c: char) -> bool {
    ||| '\u{9}' <= c && c <= '\u{d}'
    ||| c == ' '
    ||| c == '\u{85}'
    ||| c == '\u{a0}'
    ||| c == '\u{1680}'
    ||| '\u{2000}' <= c && c <= '\u{200a}'
    ||| c == '\u{2028}'
    ||| c == '\u{2029}'
    ||| c == '\u{202f}'
    ||| c == '\u{205f}'
    ||| c == '\u{3000}'
}

/// The text without leading white space.
pub open spec fn trim_start(s: Seq<char>) -> Seq<char>
    decreases s.len(),
{
    if s.len() > 0 && is_white_space(s.first()) {
        trim_start(s.drop_first())
    } else {
        s
    }
}

/// The text without trailing white space.
pub open spec fn trim_end(s: Seq<char>) -> Seq<char>
    decreases s.len(),
{
    if s.len() > 0 && is_white_space(s.last()) {
        trim_end(s.drop_last())
    } else {
        s
    }
}

/// The text without leading and trailing white space.
pub open spec fn trimmed(s: Seq<char>) -> Seq<char> {
    trim_end(trim_start(s))
}

fn white_space(c: char) -> (res: bool)
    ensures
        res == is_white_space(c),
{
    ('\u{9}' <= c && c <= '\u{d}') || c == ' ' || c == '\u{85}' || c == '\u{a0}' || c
        == '\u{1680}' || ('\u{2000}' <= c && c <= '\u{200a}') || c == '\u{2028}' || c
        == '\u{2029}' || c == '\u{202f}' || c == '\u{205f}' || c == '\u{3000}'
}

/// Removes leading and trailing white space.
pub fn trim(s: &str) -> (res: &str)
    ensures
        res@ == trimmed(s@),
{
    let chars = chars_of(s);
    let mut start: usize = 0;
    assert(s@.skip(0) =~= s@);
    while start < chars.len() && white_space(chars[start])
        invariant
            start <= chars.len(),
            chars@ == s@,
            trim_start(s@.skip(start as int)) == trim_start(s@),
        decreases chars.len() - start,
    {
        assert(s@.skip(start as int).drop_first() =~= s@.skip(start + 1));
        start = start + 1;
    }
    let ghost rest = s@.skip(start as int);
    assert(trim_start(s@) == rest);
    let mut end: usize = chars.len();
    assert(s@.subrange(start as int, end as int) =~= rest);
    while end > start && white_space(chars[end - 1])
        invariant
            start <= end <= chars.len(),
            chars@ == s@,
            trim_end(s@.subrange(start as int, end as int)) == trim_end(rest),
        decreases end,
    {
        assert(s@.subrange(start as int, end as int).drop_last() =~= s@.subrange(
            start as int,
            end - 1,
        ));
        end = end - 1;
    }
    s.substring_char(start, end)
}

/// A character with an upper-case ASCII letter made lower-case.
pub open spec fn lower_char(c: char) -> char {
    if 'A' <= c && c <= 'Z' {
        (c as nat + 32) as char
    } else {
        c
    }
}

/// A text with its upper-case ASCII letters made lower-case.
pub open spec fn lower(s: Seq<char>) -> Seq<char> {
    s.map_values(|c: char| lower_char(c))
}

/// Whether a text, in lower case, is `expected`.
pub fn is_in_lower_case(s: &str, expected: &str) -> (res: bool)
    ensures
        res == (lower(s@) == expected@),
{
    let chars = chars_of(s);
    let wanted = chars_of(expected);
    if chars.len() != wanted.len() {
        assert(lower(s@).len() != expected@.len());
        return false;
    }
    let mut i: usize = 0;
    while i < chars.len()
        invariant
            i <= chars.len() == wanted.len(),
            chars@ == s@,
            wanted@ == expected@,
            forall|j: int| 0 <= j < i ==> lower(s@)[j] == expected@[j],
        decreases chars.len() - i,
    {
        let c = chars[i];
        let code: u32 = if 'A' <= c && c <= 'Z' {
            c as u32 + 32
        } else {
            c as u32
        };
        let other = wanted[i];
        proof {
            char_u32_cast(c, c as u32);
            char_u32_cast(other, other as u32);
        }
        if code != other as u32 {
            assert(lower(s@)[i as int] != expected@[i as int]);
            return false;
        }
        assert(lower(s@)[i as int] == other);
        i = i + 1;
    }
    assert(lower(s@) =~= expected@);
    true
}

/// How Rust's debug formatting writes a text: quoted, with escapes.
pub uninterp spec fn debug_text(s: Seq<char>) -> Seq<char>;

/// Calls the debug formatting of `str`. The contract claims only that the result
/// is determined by the text.
#[verifier::external_body]
pub(crate) fn quoted(s: &str) -> (res: String)
    ensures
        res@ == debug_text(s@),
{
    format!("{:?}", s)
}

/// A number is written in decimal digits, the last of which is its remainder by ten,
/// behind the digits of its tenth; there is no leading zero.
pub proof fn law_number_is_written_in_digits(number: u64, text: String)
    requires
        call_ensures(to_decimal, (number,), text),
    ensures
        text@.len() >= 1,
        text@.len() > 1 ==> text@[0] != '0',
        forall|i: int| 0 <= i < text@.len() ==> 48 <= #[trigger] text@[i] as int <= 57,
        text@.last() as int == 48 + number % 10,
        number < 10 ==> text@.len() == 1,
        forall|tenth: String|
            number >= 10 && #[trigger] call_ensures(to_decimal, ((number / 10) as u64,), tenth)
                ==> text@ == tenth@.push(text@.last()),
{
    lemma_decimal(number as nat);
    lemma_no_leading_zero(number as nat);
    assert forall|i: int| 0 <= i < text@.len() implies 48 <= #[trigger] text@[i] as int <= 57 by {
        assert(is_digit(decimal(number as nat)[i]));
    }
}

proof fn lemma_no_leading_zero(number: nat)
    ensures
        decimal(number).len() >= 1,
        number > 0 ==> decimal(number)[0] != '0',
        number < 10 ==> decimal(number).len() == 1,
    decreases number,
{
    if number >= 10 {
        lemma_no_leading_zero(number / 10);
    }
}

/// A number is read from its decimal text exactly if it is within the bound.
pub proof fn law_written_number_is_read(
    number: u64,
    max: u64,
    written: String,
    text: &str,
    res: Option<u64>,
)
    requires
        call_ensures(to_decimal, (number,), written),
        text@ == written@,
        call_ensures(parse_decimal, (text, max), res),
    ensures
        res == (if number <= max {
            Some(number)
        } else {
            None
        }),
{
    lemma_decimal(number as nat);
}

/// What is read as a number is one or more decimal digits, behind at most one plus
/// sign, and is within the bound; a plus sign makes no difference.
pub proof fn law_only_digits_are_numbers(
    text: &str,
    signed: &str,
    max: u64,
    res: Option<u64>,
    signed_res: Option<u64>,
)
    requires
        call_ensures(parse_decimal, (text, max), res),
        call_ensures(parse_decimal, (signed, max), signed_res),
        signed@ == seq!['+'] + text@,
    ensures
        res matches Some(number) ==> {
            &&& number <= max
            &&& text@.len() >= 1
            &&& forall|i: int|
                0 <= i < text@.len() ==> (48 <= #[trigger] text@[i] as int <= 57 || (i == 0
                    && text@[0] == '+' && text@.len() >= 2))
        },
        text@.len() == 0 || text@[0] != '+' ==> signed_res == res,
        text@.len() > 0 && text@[0] == '+' ==> signed_res is None,
{
    assert(signed@.drop_first() =~= text@);
    if res is Some {
        assert forall|i: int| 0 <= i < text@.len() implies (48 <= #[trigger] text@[i] as int <= 57
            || (i == 0 && text@[0] == '+' && text@.len() >= 2)) by {
            let digits = without_plus(text@);
            if text@[0] != '+' {
                assert(is_digit(digits[i]));
            } else if i > 0 {
                assert(digits[i - 1] == text@[i]);
                assert(is_digit(digits[i - 1]));
            }
        }
    }
    if text@.len() > 0 && text@[0] == '+' {
        assert(without_plus(signed@)[0] == '+');
        assert(!is_digit('+'));
    }
}

/// A digit stands for its place among the digits, and one more digit behind a
/// number makes it ten times as large plus that digit, as long as it is within the
/// bound. Nothing else can follow a number.
pub proof fn law_digit_by_digit(
    text: &str,
    last: char,
    longer: &str,
    max: u64,
    res: Option<u64>,
    longer_res: Option<u64>,
)
    requires
        call_ensures(parse_decimal, (text, max), res),
        call_ensures(parse_decimal, (longer, max), longer_res),
        longer@ == text@.push(last),
        text@ != seq!['+'],
    ensures
        ({
            let before: Option<int> = if text@.len() == 0 {
                Some(0)
            } else {
                match res {
                    Some(number) => Some(number as int),
                    None => None,
                }
            };
            let digit = last as int - 48;
            longer_res == (if before is Some && 0 <= digit <= 9 && before->0 * 10 + digit <= max {
                Some((before->0 * 10 + digit) as u64)
            } else {
                None
            })
        }),
{
    let digits = without_plus(text@);
    let more = without_plus(longer@);
    if text@.len() == 0 {
        if last == '+' {
            assert(more =~= Seq::<char>::empty());
        } else {
            assert(more =~= seq![last]);
            assert(more.drop_last() =~= Seq::<char>::empty());
            assert(digits_value(more.drop_last()) == 0);
            assert(is_digit(last) <==> 48 <= last as int <= 57);
            if is_digit(last) {
                assert(all_digits(more));
            } else {
                assert(!is_digit(more[0]));
            }
        }
    } else {
        assert(more =~= digits.push(last));
        assert(more.drop_last() =~= digits);
        assert(more.last() == last);
        assert(is_digit(last) <==> 48 <= last as int <= 57);
        assert(digits.len() > 0) by {
            if digits.len() == 0 {
                assert(text@ =~= seq!['+']);
            }
        }
        if all_digits(digits) {
            if is_digit(last) {
                assert forall|i: int| 0 <= i < more.len() implies is_digit(#[trigger] more[i]) by {
                    if i < digits.len() {
                        assert(more[i] == digits[i]);
                    }
                }
            } else {
                assert(!is_digit(more[digits.len() as int]));
            }
        } else {
            let i = choose|i: int| 0 <= i < digits.len() && !is_digit(#[trigger] digits[i]);
            assert(more[i] == digits[i]);
        }
    }
}

/// Trimming takes away white space at both ends, all of it and nothing else.
pub proof fn law_trimming_takes_away_white_space(text: &str, res: &str)
    requires
        call_ensures(trim, (text,), res),
    ensures
        ({
            let white = |c: char|
                {
                    let code = c as int;
                    ||| 9 <= code <= 13
                    ||| code == 0x20
                    ||| code == 0x85
                    ||| code == 0xa0
                    ||| code == 0x1680
                    ||| 0x2000 <= code <= 0x200a
                    ||| code == 0x2028
                    ||| code == 0x2029
                    ||| code == 0x202f
                    ||| code == 0x205f
                    ||| code == 0x3000
                };
            &&& exists|start: int, end: int|
                0 <= start <= end <= text@.len() && res@ == #[trigger] text@.subrange(start, end)
                    && (forall|i: int|
                    0 <= i < text@.len() && !(start <= i < end) ==> white(#[trigger] text@[i]))
            &&& res@.len() > 0 ==> !white(res@.first()) && !white(res@.last())
        }),
{
    lemma_trimmed(text@);
}

/// Where in a text the trimmed text lies.
pub(crate) proof fn lemma_trimmed(s: Seq<char>)
    ensures
        exists|start: int, end: int|
            0 <= start <= end <= s.len() && trimmed(s) == #[trigger] s.subrange(start, end) && (
            forall|i: int|
                0 <= i < s.len() && !(start <= i < end) ==> is_white_space(#[trigger] s[i])),
        trimmed(s).len() > 0 ==> !is_white_space(trimmed(s).first()) && !is_white_space(
            trimmed(s).last(),
        ),
    decreases s.len(),
{
    if s.len() > 0 && is_white_space(s.first()) {
        let rest = s.drop_first();
        lemma_trimmed(rest);
        let (start, end) = choose|start: int, end: int|
            0 <= start <= end <= rest.len() && trimmed(rest) == #[trigger] rest.subrange(start, end)
                && (forall|i: int|
                0 <= i < rest.len() && !(start <= i < end) ==> is_white_space(#[trigger] rest[i]));
        assert(s.subrange(start + 1, end + 1) =~= rest.subrange(start, end));
        assert forall|i: int| 0 <= i < s.len() && !(start + 1 <= i < end + 1) implies is_white_space(
            #[trigger] s[i],
        ) by {
            if i > 0 {
                assert(rest[i - 1] == s[i]);
            }
        }
    } else {
        lemma_trim_end(s);
        let n = trimmed(s).len() as int;
        assert(trimmed(s) == s.subrange(0, n));
        if n > 0 {
            assert(trimmed(s).first() == s.first());
        }
    }
}

proof fn lemma_trim_end(s: Seq<char>)
    ensures
        trim_end(s).len() <= s.len(),
        trim_end(s) == s.subrange(0, trim_end(s).len() as int),
        forall|i: int| trim_end(s).len() <= i < s.len() ==> is_white_space(#[trigger] s[i]),
        trim_end(s).len() > 0 ==> !is_white_space(trim_end(s).last()),
    decreases s.len(),
{
    if s.len() > 0 && is_white_space(s.last()) {
        let rest = s.drop_last();
        lemma_trim_end(rest);
        let n = trim_end(s).len() as int;
        assert(rest.subrange(0, n) =~= s.subrange(0, n));
        assert forall|i: int| n <= i < s.len() implies is_white_space(#[trigger] s[i]) by {
            if i < s.len() - 1 {
                assert(rest[i] == s[i]);
            }
        }
    } else {
        assert(s.subrange(0, s.len() as int) =~= s);
    }
}

/// A text is another in lower case exactly if each character is the same, or the
/// upper-case ASCII letter that belongs to it.
pub proof fn law_letter_case_is_ignored(text: &str, expected: &str, res: bool)
    requires
        call_ensures(is_in_lower_case, (text, expected), res),
        forall|i: int| 0 <= i < expected@.len() ==> 97 <= #[trigger] expected@[i] as int <= 122,
    ensures
        res <==> text@.len() == expected@.len() && forall|i: int|
            0 <= i < text@.len() ==> (#[trigger] text@[i] == expected@[i] || (65 <= text@[i] as int
                <= 90 && text@[i] as int + 32 == expected@[i] as int)),
{
    lemma_lower(text@, expected@);
}

pub(crate) proof fn lemma_lower(text: Seq<char>, expected: Seq<char>)
    requires
        forall|i: int| 0 <= i < expected.len() ==> 97 <= #[trigger] expected[i] as int <= 122,
    ensures
        lower(text) == expected <==> text.len() == expected.len() && forall|i: int|
            0 <= i < text.len() ==> (#[trigger] text[i] == expected[i] || (65 <= text[i] as int
                <= 90 && text[i] as int + 32 == expected[i] as int)),
{
    let same = text.len() == expected.len() && forall|i: int|
        0 <= i < text.len() ==> (#[trigger] text[i] == expected[i] || (65 <= text[i] as int <= 90
            && text[i] as int + 32 == expected[i] as int));
    if lower(text) == expected {
        assert forall|i: int| 0 <= i < text.len() implies (#[trigger] text[i] == expected[i] || (65
            <= text[i] as int <= 90 && text[i] as int + 32 == expected[i] as int)) by {
            assert(lower(text)[i] == lower_char(text[i]));
        }
    }
    if same {
        assert forall|i: int| 0 <= i < text.len() implies lower(text)[i] == expected[i] by {
            assert(lower(text)[i] == lower_char(text[i]));
            assert(97 <= expected[i] as int <= 122);
            assert(text[i] == expected[i] || (65 <= text[i] as int <= 90 && text[i] as int + 32
                == expected[i] as int));
        }
        assert(lower(text) =~= expected);
    }
}

} // verus!
