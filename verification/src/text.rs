//! Text helpers shared by the clients: prefixes, separators and decimal
//! numerals, each specified over sequences of characters.

use vstd::prelude::*;
use vstd::string::*;

verus! {

/// `text` begins with `prefix`.
pub open spec fn has_prefix(text: Seq<char>, prefix: Seq<char>) -> bool {
    prefix.len() <= text.len() && text.subrange(0, prefix.len() as int) == prefix
}

/// `text` without a leading `prefix`; unchanged where it does not begin with it.
pub open spec fn without_prefix(text: Seq<char>, prefix: Seq<char>) -> Seq<char> {
    if has_prefix(text, prefix) {
        text.subrange(prefix.len() as int, text.len() as int)
    } else {
        text
    }
}

/// `text` is not empty and its last character is `c`.
pub open spec fn has_last(text: Seq<char>, c: char) -> bool {
    text.len() > 0 && text[text.len() - 1] == c
}

/// Index of the first `c` in `text`, or the length of `text` if there is none.
pub open spec fn position(text: Seq<char>, c: char) -> int
    decreases text.len(),
{
    if text.len() == 0 || text[0] == c {
        0
    } else {
        1 + position(text.subrange(1, text.len() as int), c)
    }
}

/// The parts of `text` before and after its first `sep`, if it has one.
pub open spec fn split_first(text: Seq<char>, sep: char) -> Option<(Seq<char>, Seq<char>)> {
    let at = position(text, sep);
    if at < text.len() {
        Some((text.subrange(0, at), text.subrange(at + 1, text.len() as int)))
    } else {
        None
    }
}

/// What `position` finds: nothing before it is `c`, and it is `c` unless it
/// is the end of the text.
pub proof fn lemma_position(text: Seq<char>, c: char)
    ensures
        0 <= position(text, c) <= text.len(),
        forall|j: int| 0 <= j < position(text, c) ==> text[j] != c,
        position(text, c) < text.len() ==> text[position(text, c)] == c,
    decreases text.len(),
{
    if text.len() == 0 || text[0] == c {
    } else {
        let rest = text.subrange(1, text.len() as int);
        lemma_position(rest, c);
        assert forall|j: int| 0 <= j < position(text, c) implies text[j] != c by {
            if j > 0 {
                assert(text[j] == rest[j - 1]);
            }
        }
    }
}

/// An index that holds `c` with no `c` before it is the `position` of `c`.
pub proof fn lemma_position_is(text: Seq<char>, c: char, at: int)
    requires
        0 <= at <= text.len(),
        forall|j: int| 0 <= j < at ==> text[j] != c,
        at < text.len() ==> text[at] == c,
    ensures
        position(text, c) == at,
{
    lemma_position(text, c);
}

/// Copies the characters of a string slice into a vector.
pub fn chars_of(text: &str) -> (chars: Vec<char>)
    ensures
        chars@ == text@,
{
    let mut chars: Vec<char> = Vec::new();
    for c in it: text.chars()
        invariant
            it.seq() == text@,
            chars@ == text@.subrange(0, it.index() as int),
    {
        chars.push(c);
    }
    chars
}

/// Whether `text` begins with `prefix`.
pub fn starts_with(text: &str, prefix: &str) -> (r: bool)
    ensures
        r == has_prefix(text@, prefix@),
{
    let whole = chars_of(text);
    let head = chars_of(prefix);
    if head.len() > whole.len() {
        return false;
    }
    let mut i: usize = 0;
    while i < head.len()
        invariant
            whole@ == text@,
            head@ == prefix@,
            i <= head.len() <= whole.len(),
            forall|j: int| 0 <= j < i ==> whole@[j] == head@[j],
        decreases head.len() - i,
    {
        if whole[i] != head[i] {
            return false;
        }
        i = i + 1;
    }
    assert(whole@.subrange(0, head@.len() as int) =~= head@);
    true
}

/// `text` with a leading `prefix` removed, and `text` itself where it has none.
pub fn strip_prefix(text: &str, prefix: &str) -> (r: String)
    ensures
        r@ == without_prefix(text@, prefix@),
{
    if starts_with(text, prefix) {
        let from = prefix.unicode_len();
        let to = text.unicode_len();
        String::from_str(text.substring_char(from, to))
    } else {
        String::from_str(text)
    }
}

/// Whether the last character of `text` is `c`.
pub fn ends_with_char(text: &str, c: char) -> (r: bool)
    ensures
        r == has_last(text@, c),
{
    let n = text.unicode_len();
    n > 0 && text.get_char(n - 1) == c
}

/// Splits `text` at its first `sep`: the part before it and the part after
/// it, or `None` where `text` holds no `sep`.
pub fn split_once(text: &str, sep: char) -> (r: Option<(String, String)>)
    ensures
        match r {
            Some((head, tail)) => split_first(text@, sep) == Some((head@, tail@)),
            None => split_first(text@, sep) is None,
        },
{
    let chars = chars_of(text);
    let n = chars.len();
    let mut i: usize = 0;
    while i < n && chars[i] != sep
        invariant
            n == chars@.len(),
            i <= n,
            forall|j: int| 0 <= j < i ==> chars@[j] != sep,
        decreases n - i,
    {
        i = i + 1;
    }
    proof {
        lemma_position_is(text@, sep, i as int);
    }
    if i < n {
        let head = String::from_str(text.substring_char(0, i));
        let tail = String::from_str(text.substring_char(i + 1, n));
        Some((head, tail))
    } else {
        None
    }
}

/// Joins two pieces of text.
pub fn join2(a: &str, b: &str) -> (r: String)
    ensures
        r@ == a@ + b@,
{
    let mut r = String::from_str(a);
    r.append(b);
    r
}

/// Joins three pieces of text.
pub fn join3(a: &str, b: &str, c: &str) -> (r: String)
    ensures
        r@ == a@ + b@ + c@,
{
    let mut r = String::from_str(a);
    r.append(b);
    r.append(c);
    r
}

/// `c` is one of the ten decimal digits.
pub open spec fn is_digit(c: char) -> bool {
    '0' <= c <= '9'
}

/// The number that the digit `c` stands for.
pub open spec fn digit_value(c: char) -> int {
    c as int - '0' as int
}

/// The digit that stands for `d`, for `d` from 0 to 9.
pub open spec fn digit_char(d: int) -> char {
    ('0' as int + d) as char
}

/// Every character of `text` is a decimal digit.
pub open spec fn all_digits(text: Seq<char>) -> bool {
    forall|i: int| 0 <= i < text.len() ==> is_digit(#[trigger] text[i])
}

/// The number that a run of decimal digits stands for; 0 for the empty run.
pub open spec fn decimal_value(digits: Seq<char>) -> int
    decreases digits.len(),
{
    if digits.len() == 0 {
        0
    } else {
        decimal_value(digits.drop_last()) * 10 + digit_value(digits.last())
    }
}

/// The number that `text` denotes: at least one decimal digit, after one
/// optional `+`, or, where `signed`, one optional `-`. Nothing else is a
/// numeral: no blank, no separator, no second sign.
pub open spec fn numeral(text: Seq<char>, signed: bool) -> Option<int> {
    let negative = signed && text.len() > 0 && text[0] == '-';
    let digits = if text.len() > 0 && (text[0] == '+' || negative) {
        text.subrange(1, text.len() as int)
    } else {
        text
    };
    if digits.len() > 0 && all_digits(digits) {
        Some(
            if negative {
                -decimal_value(digits)
            } else {
                decimal_value(digits)
            },
        )
    } else {
        None
    }
}

/// The number that `text` denotes, if it lies between 0 and `limit`.
pub open spec fn numeral_within(text: Seq<char>, signed: bool, limit: int) -> Option<int> {
    match numeral(text, signed) {
        Some(value) => if 0 <= value <= limit {
            Some(value)
        } else {
            None
        },
        None => None,
    }
}

/// The decimal digits of `n`, without leading zeros.
pub open spec fn decimal_text(n: nat) -> Seq<char>
    decreases n,
{
    if n < 10 {
        seq![digit_char(n as int)]
    } else {
        decimal_text(n / 10).push(digit_char((n % 10) as int))
    }
}

/// A run of digits stands for no less than any run it begins with.
pub proof fn lemma_decimal_value_grows(digits: Seq<char>, k: int)
    requires
        all_digits(digits),
        0 <= k <= digits.len(),
    ensures
        0 <= decimal_value(digits.subrange(0, k)) <= decimal_value(digits),
    decreases digits.len() - k,
{
    if k == digits.len() {
        assert(digits.subrange(0, k) =~= digits);
        lemma_decimal_value_nonnegative(digits);
    } else {
        lemma_decimal_value_grows(digits, k + 1);
        let longer = digits.subrange(0, k + 1);
        assert(longer.drop_last() =~= digits.subrange(0, k));
        lemma_decimal_value_nonnegative(digits.subrange(0, k));
    }
}

proof fn lemma_decimal_value_nonnegative(digits: Seq<char>)
    requires
        all_digits(digits),
    ensures
        0 <= decimal_value(digits),
    decreases digits.len(),
{
    if digits.len() > 0 {
        lemma_decimal_value_nonnegative(digits.drop_last());
    }
}

/// The digits written for `n` are digits, and they stand for `n`.
pub proof fn lemma_decimal_text(n: nat)
    ensures
        decimal_text(n).len() > 0,
        all_digits(decimal_text(n)),
        decimal_value(decimal_text(n)) == n,
    decreases n,
{
    if n < 10 {
        let text = decimal_text(n);
        assert(decimal_value(text.drop_last()) == 0);
    } else {
        lemma_decimal_text(n / 10);
        let text = decimal_text(n);
        assert(text.drop_last() =~= decimal_text(n / 10));
    }
}

/// What was written for `n` reads back as `n`, signed or not.
pub proof fn lemma_numeral_of_decimal_text(n: nat, signed: bool)
    ensures
        numeral(decimal_text(n), signed) == Some(n as int),
{
    lemma_decimal_text(n);
}

/// The text of one decimal digit.
fn digit_str(d: u64) -> (r: &'static str)
    requires
        d < 10,
    ensures
        r@ == seq![digit_char(d as int)],
{
    proof {
        reveal_strlit("0");
        reveal_strlit("1");
        reveal_strlit("2");
        reveal_strlit("3");
        reveal_strlit("4");
        reveal_strlit("5");
        reveal_strlit("6");
        reveal_strlit("7");
        reveal_strlit("8");
        reveal_strlit("9");
    }
    let r = if d == 0 {
        "0"
    } else if d == 1 {
        "1"
    } else if d == 2 {
        "2"
    } else if d == 3 {
        "3"
    } else if d == 4 {
        "4"
    } else if d == 5 {
        "5"
    } else if d == 6 {
        "6"
    } else if d == 7 {
        "7"
    } else if d == 8 {
        "8"
    } else {
        "9"
    };
    r
}

/// Writes `n` in decimal digits.
pub fn decimal_string(n: u64) -> (r: String)
    ensures
        r@ == decimal_text(n as nat),
    decreases n,
{
    if n < 10 {
        String::from_str(digit_str(n))
    } else {
        let mut r = decimal_string(n / 10);
        r.append(digit_str(n % 10));
        r
    }
}

/// Reads `text` as a decimal numeral between 0 and `limit`: `None` where it
/// is no numeral, or where the number lies outside that range.
pub fn parse_numeral(text: &str, signed: bool, limit: u32) -> (r: Option<u32>)
    ensures
        match r {
            Some(value) => numeral_within(text@, signed, limit as int) == Some(value as int),
            None => numeral_within(text@, signed, limit as int) is None,
        },
{
    let chars = chars_of(text);
    let n = chars.len();
    let negative = signed && n > 0 && chars[0] == '-';
    let start: usize = if n > 0 && (chars[0] == '+' || negative) {
        1
    } else {
        0
    };
    let ghost digits = text@.subrange(start as int, n as int);
    if start == n {
        return None;
    }
    let mut value: u64 = 0;
    let mut i: usize = start;
    while i < n
        invariant
            chars@ == text@,
            n == chars@.len(),
            start <= i <= n,
            negative == (signed && n > 0 && text@[0] == '-'),
            start == (if n > 0 && (text@[0] == '+' || negative) {
                1usize
            } else {
                0usize
            }),
            digits == text@.subrange(start as int, n as int),
            all_digits(digits.subrange(0, i - start)),
            value == decimal_value(digits.subrange(0, i - start)),
            value <= limit,
        decreases n - i,
    {
        let c = chars[i];
        if c < '0' || c > '9' {
            assert(!is_digit(digits[i - start]));
            return None;
        }
        let ghost read = digits.subrange(0, i - start + 1);
        assert(read.drop_last() =~= digits.subrange(0, i - start));
        let d: u64 = (c as u32 - '0' as u32) as u64;
        value = value * 10 + d;
        if value > limit as u64 {
            proof {
                if all_digits(digits) {
                    lemma_decimal_value_grows(digits, i - start + 1);
                }
                assert(start == 0 ==> digits =~= text@);
            }
            return None;
        }
        i = i + 1;
    }
    assert(digits.subrange(0, n - start) =~= digits);
    assert(start == 0 ==> digits =~= text@);
    if negative && value != 0 {
        None
    } else {
        Some(value as u32)
    }
}

/// Two texts joined by a separator that the first one lacks split at that
/// separator into the two.
pub proof fn lemma_split_joined(head: Seq<char>, sep: char, tail: Seq<char>)
    requires
        !head.contains(sep),
    ensures
        split_first(head + seq![sep] + tail, sep) == Some((head, tail)),
{
    let text = head + seq![sep] + tail;
    lemma_position_is(text, sep, head.len() as int);
}

/// A text without the separator does not split.
pub proof fn lemma_split_needs_separator(text: Seq<char>, sep: char)
    requires
        !text.contains(sep),
    ensures
        split_first(text, sep) is None,
{
    lemma_position(text, sep);
}

/// The digits written for a number hold no character but digits.
pub proof fn lemma_decimal_text_lacks(n: nat, c: char)
    requires
        !is_digit(c),
    ensures
        !decimal_text(n).contains(c),
{
    lemma_decimal_text(n);
}

} // verus!
