//! Small text routines that the header and URL handling share: comparing
//! and trimming text, reading a decimal number, and writing one.

use vstd::prelude::*;
use vstd::string::*;

verus! {

/// The characters of an owned text that may be missing.
pub open spec fn option_text(text: Option<String>) -> Option<Seq<char>> {
    match text {
        Some(text) => Some(text@),
        None => None,
    }
}

/// The characters of a borrowed text that may be missing.
pub open spec fn option_str_text(text: Option<&str>) -> Option<Seq<char>> {
    match text {
        Some(text) => Some(text@),
        None => None,
    }
}

/// The characters of a string, in order.
pub fn chars_of(s: &str) -> (r: Vec<char>)
    ensures
        r@ == s@,
{
    let mut out: Vec<char> = Vec::new();
    for c in it: s.chars()
        invariant
            out@ == it.seq().take(it.index() as int),
            it.seq() == s@,
    {
        out.push(c);
        assert(it.seq().take(it.index() + 1) =~= it.seq().take(it.index() as int).push(c));
    }
    assert(out@ =~= s@);
    out
}

/// Whether two strings hold the same characters.
#[verifier::loop_isolation(false)]
pub fn same_text(a: &str, b: &str) -> (r: bool)
    ensures
        r == (a@ == b@),
{
    let left = chars_of(a);
    let right = chars_of(b);
    if left.len() != right.len() {
        return false;
    }
    let mut index: usize = 0;
    while index < left.len()
        invariant
            index <= left@.len(),
            left@.len() == right@.len(),
            forall|i: int| 0 <= i < index ==> left@[i] == right@[i],
        decreases left@.len() - index,
    {
        if left[index] != right[index] {
            return false;
        }
        index = index + 1;
    }
    assert(left@ =~= right@);
    true
}

/// Whether a character is white space, in the sense of Unicode's
/// `White_Space` property.
pub open spec fn spec_is_whitespace(c: char) -> bool {
    let code = c as u32;
    ||| 0x09 <= code <= 0x0d
    ||| code == 0x20
    ||| code == 0x85
    ||| code == 0xa0
    ||| code == 0x1680
    ||| 0x2000 <= code <= 0x200a
    ||| code == 0x2028
    ||| code == 0x2029
    ||| code == 0x202f
    ||| code == 0x205f
    ||| code == 0x3000
}

/// Tests whether a character is white space.
pub fn is_whitespace(c: char) -> (r: bool)
    ensures
        r == spec_is_whitespace(c),
{
    let code: u32 = c as u32;
    (0x09 <= code && code <= 0x0d) || code == 0x20 || code == 0x85 || code == 0xa0 || code
        == 0x1680 || (0x2000 <= code && code <= 0x200a) || code == 0x2028 || code == 0x2029
        || code == 0x202f || code == 0x205f || code == 0x3000
}

/// The position of the first `mark` in `text`, or the length of `text`
/// where there is none.
pub open spec fn spec_index_of(text: Seq<char>, mark: char) -> int
    decreases text.len(),
{
    if text.len() == 0 || text[0] == mark {
        0
    } else {
        1 + spec_index_of(text.skip(1), mark)
    }
}

/// A position `at` with no `mark` before it, and with `mark` at it unless
/// it is the end of the text, is the position of the first `mark`.
pub proof fn lemma_index_of(text: Seq<char>, mark: char, at: int)
    requires
        0 <= at <= text.len(),
        forall|i: int| 0 <= i < at ==> text[i] != mark,
        at < text.len() ==> text[at] == mark,
    ensures
        spec_index_of(text, mark) == at,
    decreases text.len(),
{
    if text.len() == 0 || text[0] == mark {
    } else {
        assert forall|i: int| 0 <= i < at - 1 implies text.skip(1)[i] != mark by {
            assert(text.skip(1)[i] == text[i + 1]);
        }
        lemma_index_of(text.skip(1), mark, at - 1);
    }
}

/// Finds the first `mark` in `text`; returns the length of `text` where
/// there is none.
pub fn index_of(text: &Vec<char>, mark: char) -> (at: usize)
    ensures
        at == spec_index_of(text@, mark),
        at <= text@.len(),
{
    let mut at: usize = 0;
    while at < text.len() && text[at] != mark
        invariant
            at <= text@.len(),
            forall|i: int| 0 <= i < at ==> text@[i] != mark,
        decreases text@.len() - at,
    {
        at = at + 1;
    }
    proof {
        lemma_index_of(text@, mark, at as int);
    }
    at
}

/// Whether `text` is `core` with nothing but white space before and after
/// it: `core` begins at `lead`.
pub open spec fn is_padded(text: Seq<char>, core: Seq<char>, lead: int) -> bool {
    &&& 0 <= lead
    &&& lead + core.len() <= text.len()
    &&& text.subrange(lead, lead + core.len()) == core
    &&& forall|i: int| 0 <= i < lead ==> spec_is_whitespace(#[trigger] text[i])
    &&& forall|i: int| lead + core.len() <= i < text.len() ==> spec_is_whitespace(#[trigger] text[i])
}

/// Whether `text`, with the white space at both ends taken off, is `core`.
/// `core` is meant to begin and end with something other than white space.
pub open spec fn spec_trims_to(text: Seq<char>, core: Seq<char>) -> bool {
    exists|lead: int| is_padded(text, core, lead)
}

/// Tests whether the first `end` characters of `text`, with the white space
/// at both ends taken off, are `core`.
#[verifier::loop_isolation(false)]
pub fn trims_to(text: &Vec<char>, end: usize, core: &Vec<char>) -> (r: bool)
    requires
        end <= text@.len(),
        core@.len() > 0,
        !spec_is_whitespace(core@[0]),
    ensures
        r == spec_trims_to(text@.take(end as int), core@),
{
    let ghost head = text@.take(end as int);
    let mut lead: usize = 0;
    while lead < end && is_whitespace(text[lead])
        invariant
            lead <= end <= text@.len(),
            head == text@.take(end as int),
            forall|i: int| 0 <= i < lead ==> spec_is_whitespace(#[trigger] head[i]),
        decreases end - lead,
    {
        lead = lead + 1;
    }
    proof {
        // Any position where `core` could begin is this one: before it
        // stands only white space, and `core` does not begin with any.
        assert forall|other: int| is_padded(head, core@, other) implies other == lead by {
            assert(head.subrange(other, other + core@.len())[0] == core@[0]);
            if other < lead {
                assert(spec_is_whitespace(head[other]));
            }
            if lead < other {
                assert(spec_is_whitespace(head[lead as int]));
            }
        }
    }
    if end - lead < core.len() {
        return false;
    }
    let mut index: usize = 0;
    while index < core.len()
        invariant
            index <= core@.len(),
            lead + core@.len() <= end <= text@.len(),
            head == text@.take(end as int),
            forall|i: int| 0 <= i < index ==> head[lead + i] == core@[i],
        decreases core@.len() - index,
    {
        if text[lead + index] != core[index] {
            proof {
                assert(head.subrange(lead as int, lead + core@.len())[index as int] != core@[index as int]);
            }
            return false;
        }
        index = index + 1;
    }
    assert(head.subrange(lead as int, lead + core@.len()) =~= core@);
    let mut tail: usize = lead + core.len();
    while tail < end
        invariant
            lead + core@.len() <= tail <= end <= text@.len(),
            head == text@.take(end as int),
            forall|i: int| lead + core@.len() <= i < tail ==> spec_is_whitespace(#[trigger] head[i]),
        decreases end - tail,
    {
        if !is_whitespace(text[tail]) {
            proof {
                assert(!spec_is_whitespace(head[tail as int]));
            }
            return false;
        }
        tail = tail + 1;
    }
    assert(is_padded(head, core@, lead as int));
    true
}

/// Whether a character is one of the digits `0` to `9`.
pub open spec fn spec_is_digit(c: char) -> bool {
    '0' <= c <= '9'
}

/// The number that a sequence of digits spells in base ten.
pub open spec fn spec_decimal_value(digits: Seq<char>) -> nat
    decreases digits.len(),
{
    if digits.len() == 0 {
        0
    } else {
        spec_decimal_value(digits.drop_last()) * 10 + (digits.last() as u32 - '0' as u32) as nat
    }
}

/// Whether every character is a digit.
pub open spec fn spec_all_digits(digits: Seq<char>) -> bool {
    forall|i: int| 0 <= i < digits.len() ==> spec_is_digit(#[trigger] digits[i])
}

/// The `u64` that a text spells: an optional `+`, then one or more digits
/// whose value a `u64` holds. Anything else spells no number.
pub open spec fn spec_parse_u64(text: Seq<char>) -> Option<u64> {
    let digits = if text.len() > 0 && text[0] == '+' {
        text.skip(1)
    } else {
        text
    };
    if digits.len() > 0 && spec_all_digits(digits) && spec_decimal_value(digits) <= u64::MAX {
        Some(spec_decimal_value(digits) as u64)
    } else {
        None
    }
}

/// A number does not get smaller when digits are written behind it.
pub proof fn lemma_decimal_value_grows(digits: Seq<char>, shorter: int)
    requires
        0 <= shorter <= digits.len(),
        spec_all_digits(digits),
    ensures
        spec_decimal_value(digits.take(shorter)) <= spec_decimal_value(digits),
    decreases digits.len() - shorter,
{
    if shorter < digits.len() {
        lemma_decimal_value_grows(digits, shorter + 1);
        assert(digits.take(shorter + 1).drop_last() =~= digits.take(shorter));
        assert(spec_is_digit(digits[shorter]));
    } else {
        assert(digits.take(shorter) =~= digits);
    }
}

/// Reads a `u64` written in base ten, as `str::parse::<u64>` does.
#[verifier::loop_isolation(false)]
pub fn parse_u64(text: &str) -> (r: Option<u64>)
    ensures
        r == spec_parse_u64(text@),
{
    let chars = chars_of(text);
    let start: usize = if chars.len() > 0 && chars[0] == '+' {
        1
    } else {
        0
    };
    let ghost digits = chars@.skip(start as int);
    assert(chars@.skip(0) =~= chars@);
    if chars.len() == start {
        return None;
    }
    let mut value: u64 = 0;
    let mut index: usize = start;
    while index < chars.len()
        invariant
            start <= index <= chars@.len(),
            digits == chars@.skip(start as int),
            spec_all_digits(digits.take(index - start)),
            value == spec_decimal_value(digits.take(index - start)),
        decreases chars@.len() - index,
    {
        let c: char = chars[index];
        let ghost longer = digits.take(index - start + 1);
        proof {
            assert(longer.drop_last() =~= digits.take(index - start));
            assert(longer.last() == c);
        }
        if !(c >= '0' && c <= '9') {
            proof {
                assert(!spec_is_digit(digits[index - start]));
            }
            return None;
        }
        let digit: u64 = (c as u32 - '0' as u32) as u64;
        if value > (u64::MAX - digit) / 10 {
            proof {
                assert(spec_decimal_value(longer) > u64::MAX);
                if spec_all_digits(digits) {
                    lemma_decimal_value_grows(digits, index - start + 1);
                }
            }
            return None;
        }
        value = value * 10 + digit;
        proof {
            assert forall|i: int| 0 <= i < longer.len() implies spec_is_digit(
                #[trigger] longer[i],
            ) by {
                if i < longer.len() - 1 {
                    assert(longer[i] == digits.take(index - start)[i]);
                }
            }
        }
        index = index + 1;
    }
    assert(digits.take(index - start) =~= digits);
    Some(value)
}

/// The character that stands for a digit value below ten.
pub open spec fn spec_digit_char(value: nat) -> char
    recommends
        value < 10,
{
    ('0' as u32 + value) as char
}

/// The digits that spell a number in base ten, without leading zeros.
pub open spec fn spec_decimal_digits(n: nat) -> Seq<char>
    decreases n,
{
    if n < 10 {
        seq![spec_digit_char(n)]
    } else {
        spec_decimal_digits(n / 10).push(spec_digit_char(n % 10))
    }
}

/// The one-character text of a digit value below ten.
fn digit_text(value: u64) -> (r: &'static str)
    requires
        value < 10,
    ensures
        r@ == seq![spec_digit_char(value as nat)],
{
    proof {
        reveal_strlit("0");
        reveal_strlit("1");
        reveal_strlit("2");
        reveal_strlit("3");
        reveal_strlit("4");
        reveal_strlit("5");
        reveal_strlit("6");
        reveal_strlit("7");
        reveal_strlit("8");
        reveal_strlit("9");
    }
    let text = if value == 0 {
        "0"
    } else if value == 1 {
        "1"
    } else if value == 2 {
        "2"
    } else if value == 3 {
        "3"
    } else if value == 4 {
        "4"
    } else if value == 5 {
        "5"
    } else if value == 6 {
        "6"
    } else if value == 7 {
        "7"
    } else if value == 8 {
        "8"
    } else {
        "9"
    };
    assert(text@ =~= seq![spec_digit_char(value as nat)]);
    text
}

/// Writes a number in base ten behind what a text already holds.
pub fn append_decimal(out: &mut String, n: u64)
    ensures
        final(out)@ == old(out)@ + spec_decimal_digits(n as nat),
    decreases n,
{
    if n >= 10 {
        append_decimal(out, n / 10);
    }
    out.append(digit_text(n % 10));
    assert(final(out)@ =~= old(out)@ + spec_decimal_digits(n as nat));
}

} // verus!
