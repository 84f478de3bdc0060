//! Text primitives: comparison, and reading and writing decimal numbers.
use vstd::prelude::*;
use vstd::string::StrSliceExecFns;
use vstd::string::StringExecFns;

verus! {

/// The characters that may stand in a decimal number.
pub open spec fn is_digit(c: char) -> bool {
    '0' <= c <= '9'
}

/// The number that a string of decimal digits denotes, most significant digit first.
pub open spec fn digits_value(s: Seq<char>) -> nat
    decreases s.len(),
{
    if s.len() == 0 {
        0
    } else {
        (digits_value(s.drop_last()) * 10 + (s.last() as int - '0' as int)) as nat
    }
}

/// What is left of a number once an optional leading `+` is taken off.
pub open spec fn unsigned_part(s: Seq<char>) -> Seq<char> {
    if s.len() > 0 && s[0] == '+' {
        s.drop_first()
    } else {
        s
    }
}

/// Whether a string denotes a `u32`: an optional `+`, then one or more decimal
/// digits and nothing else, with a value that fits.
pub open spec fn denotes_u32(s: Seq<char>) -> bool {
    let digits = unsigned_part(s);
    &&& digits.len() > 0
    &&& forall|i: int| 0 <= i < digits.len() ==> is_digit(#[trigger] digits[i])
    &&& digits_value(digits) <= u32::MAX
}

/// The `u32` that a string denotes, or `None` when it denotes none.
pub open spec fn u32_in(s: Seq<char>) -> Option<u32> {
    if denotes_u32(s) {
        Some(digits_value(unsigned_part(s)) as u32)
    } else {
        None
    }
}

/// The character for a decimal digit.
pub open spec fn digit_char(d: nat) -> char {
    (('0' as int) + d) as char
}

/// The decimal notation of a number, without leading zeros.
pub open spec fn decimal_text(n: nat) -> Seq<char>
    decreases n,
{
    if n < 10 {
        seq![digit_char(n)]
    } else {
        decimal_text(n / 10).push(digit_char(n % 10))
    }
}

/// A character with `A` to `Z` mapped to `a` to `z`; every other character is kept.
pub open spec fn ascii_lower(c: char) -> char {
    if 'A' <= c <= 'Z' {
        ((c as int) + 32) as char
    } else {
        c
    }
}

/// A string with each character in ASCII lower case.
pub open spec fn ascii_lowercase(s: Seq<char>) -> Seq<char> {
    Seq::new(s.len(), |i: int| ascii_lower(s[i]))
}

/// Appending digits never makes the denoted number smaller.
proof fn lemma_digits_value_prefix(s: Seq<char>, i: int)
    requires
        0 <= i <= s.len(),
        forall|j: int| 0 <= j < s.len() ==> is_digit(#[trigger] s[j]),
    ensures
        digits_value(s.take(i)) <= digits_value(s),
    decreases s.len() - i,
{
    if i < s.len() {
        lemma_digits_value_prefix(s, i + 1);
        assert(s.take(i + 1).drop_last() =~= s.take(i));
        assert(is_digit(s[i]));
    } else {
        assert(s.take(i) =~= s);
    }
}

/// The decimal notation of a number reads back as that number.
pub proof fn lemma_decimal_text_reads_back(n: u32)
    ensures
        u32_in(decimal_text(n as nat)) == Some(n),
{
    lemma_decimal_text_value(n as nat);
    let s = decimal_text(n as nat);
    assert(is_digit(s[0]));
    assert(unsigned_part(s) == s);
}

/// Decimal notation is a non-empty string of digits with the right value.
proof fn lemma_decimal_text_value(n: nat)
    ensures
        decimal_text(n).len() > 0,
        forall|i: int| 0 <= i < decimal_text(n).len() ==> is_digit(#[trigger] decimal_text(n)[i]),
        digits_value(decimal_text(n)) == n,
    decreases n,
{
    if n < 10 {
        let s = decimal_text(n);
        assert(s.drop_last() =~= Seq::<char>::empty());
        assert(digits_value(s.drop_last()) == 0);
    } else {
        lemma_decimal_text_value(n / 10);
        assert(decimal_text(n).drop_last() =~= decimal_text(n / 10));
    }
}

/// Whether two strings hold the same characters.
pub fn str_eq(a: &str, b: &str) -> (same: bool)
    ensures
        same == (a@ == b@),
{
    let left = a.as_bytes();
    let right = b.as_bytes();
    proof {
        assert(vstd::utf8::encode_utf8(a@) == vstd::utf8::encode_utf8(b@) ==> a@ == b@) by {
            vstd::utf8::encode_utf8_decode_utf8(a@);
            vstd::utf8::encode_utf8_decode_utf8(b@);
        }
    }
    if left.len() != right.len() {
        return false;
    }
    let mut i: usize = 0;
    while i < left.len()
        invariant
            left@.len() == right@.len(),
            i <= left@.len(),
            forall|j: int| 0 <= j < i ==> left@[j] == right@[j],
            left@ == vstd::utf8::encode_utf8(a@),
            right@ == vstd::utf8::encode_utf8(b@),
        decreases left@.len() - i,
    {
        if left[i] != right[i] {
            return false;
        }
        i += 1;
    }
    assert(left@ =~= right@);
    true
}

/// Reads a `u32` in decimal notation with an optional leading `+`.
pub fn parse_u32(s: &str) -> (parsed: Option<u32>)
    ensures
        parsed == u32_in(s@),
{
    let mut value: u64 = 0;
    let mut digits: bool = false;
    let mut first: bool = true;
    let ghost part = unsigned_part(s@);
    let ghost skipped: int = s@.len() - part.len();
    assert(part.take(0) =~= Seq::<char>::empty());
    for c in it: s.chars()
        invariant
            it.seq() == s@,
            part == unsigned_part(s@),
            skipped == s@.len() - part.len(),
            first == (it.index() == 0),
            digits == (it.index() > skipped),
            it.index() >= skipped ==> value == digits_value(part.take(it.index() - skipped)),
            it.index() < skipped ==> value == 0,
            value <= u32::MAX,
            forall|j: int| 0 <= j < it.index() - skipped ==> is_digit(#[trigger] part[j]),
    {
        let ghost at: int = it.index() - skipped;
        if first && c == '+' {
            first = false;
            assert(part.take(0) =~= Seq::<char>::empty());
        } else {
            assert(part[at] == c);
            if c < '0' || c > '9' {
                return None;
            }
            value = value * 10 + (c as u64 - '0' as u64);
            assert(part.take(at + 1).drop_last() =~= part.take(at));
            if value > u32::MAX as u64 {
                proof {
                    if denotes_u32(s@) {
                        lemma_digits_value_prefix(part, at + 1);
                    }
                }
                return None;
            }
            digits = true;
            first = false;
        }
    }
    assert(part.take(part.len() as int) =~= part);
    if digits {
        Some(value as u32)
    } else {
        None
    }
}

/// Writes a number in decimal notation.
pub fn decimal(n: u32) -> (written: String)
    ensures
        written@ == decimal_text(n as nat),
    decreases n,
{
    if n < 10 {
        digit(n).to_owned()
    } else {
        let mut written = decimal(n / 10);
        let ghost prefix = written@;
        written.append(digit(n % 10));
        assert(written@ =~= prefix.push(digit_char((n % 10) as nat)));
        written
    }
}

/// The one-character string for a decimal digit.
fn digit(d: u32) -> (written: &'static str)
    requires
        d < 10,
    ensures
        written@ == seq![digit_char(d as nat)],
{
    proof {
        reveal_strlit("0");
        reveal_strlit("1");
        reveal_strlit("2");
        reveal_strlit("3");
        reveal_strlit("4");
        reveal_strlit("5");
        reveal_strlit("6");
        reveal_strlit("7");
        reveal_strlit("8");
        reveal_strlit("9");
    }
    match d {
        0 => "0",
        1 => "1",
        2 => "2",
        3 => "3",
        4 => "4",
        5 => "5",
        6 => "6",
        7 => "7",
        8 => "8",
        _ => "9",
    }
}

/// Whether a string, once put in ASCII lower case, is the given word.
pub fn lowercase_is(s: &str, word: &str) -> (same: bool)
    ensures
        same == (ascii_lowercase(s@) == word@),
{
    let expected = word.unicode_len();
    let mut seen: usize = 0;
    for c in it: s.chars()
        invariant
            it.seq() == s@,
            expected == word@.len(),
            seen == it.index(),
            seen <= expected,
            forall|j: int| 0 <= j < seen ==> ascii_lower(#[trigger] s@[j]) == word@[j],
    {
        assert(ascii_lowercase(s@)[seen as int] == ascii_lower(c));
        if seen >= expected || lower(c) != word.get_char(seen) {
            return false;
        }
        seen += 1;
    }
    assert(seen == expected ==> ascii_lowercase(s@) =~= word@);
    seen == expected
}

/// Puts one character in ASCII lower case.
fn lower(c: char) -> (lowered: char)
    ensures
        lowered == ascii_lower(c),
{
    if 'A' <= c && c <= 'Z' {
        (c as u8 + 32) as char
    } else {
        c
    }
}

/// Whether a string starts with the given character.
pub fn starts_with(s: &str, c: char) -> (starts: bool)
    ensures
        starts == (s@.len() > 0 && s@[0] == c),
{
    !s.is_empty() && s.get_char(0) == c
}

/// A single digit is read as its value.
pub proof fn digit_is_read(c: char)
    requires
        '0' <= c <= '9',
    ensures
        u32_in(seq![c]) == Some((c as int - '0' as int) as u32),
{
    let s = seq![c];
    assert(unsigned_part(s) == s);
    assert(s.drop_last() =~= Seq::<char>::empty());
    assert(digits_value(s.drop_last()) == 0);
    assert(is_digit(s[0]));
}

/// One more digit makes a number ten times as large and adds the digit; a number
/// that does not fit is not read.
pub proof fn further_digit_is_read(s: Seq<char>, c: char)
    requires
        u32_in(s) is Some,
        '0' <= c <= '9',
    ensures
        ({
            let n = u32_in(s)->0 * 10 + (c as int - '0' as int);
            u32_in(s.push(c)) == if n <= u32::MAX {
                Some(n as u32)
            } else {
                None
            }
        }),
{
    let digits = unsigned_part(s);
    let longer = unsigned_part(s.push(c));
    assert(longer =~= digits.push(c));
    assert(longer.drop_last() =~= digits);
    assert forall|i: int| 0 <= i < longer.len() implies is_digit(#[trigger] longer[i]) by {
        if i < digits.len() {
            assert(is_digit(digits[i]));
        }
    }
}

/// A number that does not fit does not fit with a further digit either.
pub proof fn number_too_large_is_not_read(s: Seq<char>, c: char)
    requires
        s.len() > 0,
        '0' <= s[0] <= '9' || s.len() > 1,
        u32_in(s) is None,
    ensures
        u32_in(s.push(c)) is None,
{
    let digits = unsigned_part(s);
    let longer = unsigned_part(s.push(c));
    assert(longer =~= digits.push(c));
    assert(longer.drop_last() =~= digits);
    if denotes_u32(s.push(c)) {
        assert forall|i: int| 0 <= i < digits.len() implies is_digit(#[trigger] digits[i]) by {
            assert(is_digit(longer[i]));
        }
        assert(is_digit(longer[digits.len() as int]));
    }
}

/// A leading plus sign makes no difference to a number that has none.
pub proof fn plus_sign_is_read_over(s: Seq<char>)
    requires
        s.len() == 0 || s[0] != '+',
    ensures
        u32_in(seq!['+'] + s) == u32_in(s),
{
    assert((seq!['+'] + s).drop_first() =~= s);
}

/// Text without a digit is no number, nor is text with a character other than
/// a digit after its first one, or other than a digit or a plus sign as its first.
pub proof fn other_text_is_not_a_number(s: Seq<char>, i: int)
    ensures
        s.len() == 0 ==> u32_in(s) is None,
        s == seq!['+'] ==> u32_in(s) is None,
        0 < i < s.len() && !('0' <= s[i] <= '9') ==> u32_in(s) is None,
        s.len() > 0 && s[0] != '+' && !('0' <= s[0] <= '9') ==> u32_in(s) is None,
{
    let digits = unsigned_part(s);
    if s == seq!['+'] {
        assert(digits =~= Seq::<char>::empty());
    }
    if 0 < i < s.len() && !('0' <= s[i] <= '9') {
        let at = i - (s.len() - digits.len());
        assert(digits[at] == s[i]);
    }
    if s.len() > 0 && s[0] != '+' && !('0' <= s[0] <= '9') {
        assert(digits[0] == s[0]);
    }
}

/// Decimal notation has digits alone, and no leading zero but that of 0 itself.
pub proof fn decimal_text_has_no_leading_zero(n: nat)
    ensures
        decimal_text(n).len() > 0,
        forall|i: int|
            0 <= i < decimal_text(n).len() ==> '0' <= #[trigger] decimal_text(n)[i] <= '9',
        n == 0 ==> decimal_text(n) == seq!['0'],
        n > 0 ==> decimal_text(n)[0] != '0',
    decreases n,
{
    lemma_decimal_text_value(n);
    assert forall|i: int| 0 <= i < decimal_text(n).len() implies '0' <= #[trigger] decimal_text(
        n,
    )[i] <= '9' by {
        assert(is_digit(decimal_text(n)[i]));
    }
    if n >= 10 {
        decimal_text_has_no_leading_zero(n / 10);
    }
}

/// Lower case keeps the length of a text and every character but `A` to `Z`, and
/// each of these moves by as much as `A` does to become `a`.
pub proof fn lower_case_changes_capitals_alone(s: Seq<char>, i: int)
    requires
        0 <= i < s.len(),
    ensures
        ascii_lowercase(s).len() == s.len(),
        'A' <= s[i] <= 'Z' ==> ascii_lowercase(s)[i] as int - s[i] as int == 'a' as int
            - 'A' as int,
        !('A' <= s[i] <= 'Z') ==> ascii_lowercase(s)[i] == s[i],
{
}

} // verus!
