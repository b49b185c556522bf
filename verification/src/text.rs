//! Text helpers: decimal numerals, splitting, concatenation and comparison.

use vstd::prelude::*;
use vstd::utf8::{decode_utf8, encode_utf8, is_ascii_chars, is_ascii_chars_encode_utf8, valid_utf8};

verus! {

/// `String::push` appends one character to the end of the string.
pub assume_specification[ String::push ](text: &mut String, c: char)
    ensures
        final(text)@ == old(text)@.push(c),
;

/// `std::str::from_utf8` gives the text that the bytes encode when they are
/// valid UTF-8, and fails on all other bytes.
#[verifier::external_body]
pub(crate) fn utf8_text(bytes: &[u8]) -> (text: Option<&str>)
    ensures
        match text {
            Some(text) => valid_utf8(bytes@) && text@ == decode_utf8(bytes@),
            None => !valid_utf8(bytes@),
        },
{
    std::str::from_utf8(bytes).ok()
}

/// The character of a decimal digit.
pub open spec fn digit_char(digit: nat) -> char {
    (48 + digit) as char
}

/// Whether a character is a decimal digit.
pub open spec fn is_digit(c: char) -> bool {
    '0' <= c <= '9'
}

/// The numeral of `n` in base ten, without leading zeros.
pub open spec fn decimal(n: nat) -> Seq<char>
    decreases n,
{
    if n < 10 {
        seq![digit_char(n)]
    } else {
        decimal(n / 10).push(digit_char(n % 10))
    }
}

/// The number that a string of decimal digits denotes.
pub open spec fn digits_value(digits: Seq<char>) -> nat
    decreases digits.len(),
{
    if digits.len() == 0 {
        0
    } else {
        digits_value(digits.drop_last()) * 10 + (digits.last() as nat - 48) as nat
    }
}

/// A nonempty string of decimal digits that starts with `0` only when it is `0`.
pub open spec fn is_numeral(s: Seq<char>) -> bool {
    &&& s.len() > 0
    &&& forall|i: int| 0 <= i < s.len() ==> is_digit(#[trigger] s[i])
    &&& s[0] == '0' ==> s.len() == 1
}

/// The decimal digits of a number are a numeral, and denote it.
pub proof fn lemma_decimal_is_numeral(n: nat)
    ensures
        is_numeral(decimal(n)),
        digits_value(decimal(n)) == n,
        n > 0 ==> decimal(n)[0] != '0',
    decreases n,
{
    reveal_with_fuel(digits_value, 2);
    if n < 10 {
        assert(decimal(n).drop_last() =~= seq![]);
    } else {
        lemma_decimal_is_numeral(n / 10);
        let shorter = decimal(n / 10);
        assert(decimal(n).drop_last() =~= shorter);
        assert(decimal(n)[0] == shorter[0]);
    }
}

/// A numeral is the decimal digits of the number it denotes.
pub proof fn lemma_numeral_is_decimal(s: Seq<char>)
    requires
        is_numeral(s),
    ensures
        s == decimal(digits_value(s)),
        s[0] != '0' ==> digits_value(s) > 0,
    decreases s.len(),
{
    reveal_with_fuel(digits_value, 2);
    let shorter = s.drop_last();
    let digit = (s.last() as nat - 48) as nat;
    assert(is_digit(s.last()));
    assert(s.last() == digit_char(digit));
    if s.len() == 1 {
        assert(shorter =~= seq![]);
        assert(s =~= seq![digit_char(digit)]);
    } else {
        assert(is_numeral(shorter));
        lemma_numeral_is_decimal(shorter);
        let n = digits_value(shorter);
        assert(n > 0);
        assert((n * 10 + digit) / 10 == n && (n * 10 + digit) % 10 == digit);
        assert(s =~= shorter.push(s.last()));
    }
}

/// Decimal numerals of different numbers differ.
pub proof fn decimal_is_injective(m: nat, n: nat)
    requires
        decimal(m) == decimal(n),
    ensures
        m == n,
{
    lemma_decimal_is_numeral(m);
    lemma_decimal_is_numeral(n);
}

/// The decimal numeral of `n`.
pub fn decimal_text(n: u64) -> (text: String)
    ensures
        text@ == decimal(n as nat),
    decreases n,
{
    let mut text = if n < 10 {
        String::new()
    } else {
        decimal_text(n / 10)
    };
    let digit: u8 = (n % 10) as u8;
    text.push((48u8 + digit) as char);
    assert(text@ =~= decimal(n as nat));
    text
}

/// The number no larger than `limit` whose decimal numeral is `s`.
pub open spec fn numeral(s: Seq<char>, limit: u32) -> Option<u32> {
    if is_numeral(s) && digits_value(s) <= limit {
        Some(digits_value(s) as u32)
    } else {
        None
    }
}

/// A numeral is read as `n` exactly when it is the numeral that `n` is written as.
pub proof fn numeral_reads_back(s: Seq<char>, n: u32, limit: u32)
    ensures
        numeral(s, limit) == Some(n) <==> n <= limit && s == decimal(n as nat),
{
    lemma_decimal_is_numeral(n as nat);
    if is_numeral(s) {
        lemma_numeral_is_decimal(s);
    }
}

/// Reads the decimal numeral of a number no larger than `limit`.
pub fn parse_numeral(chars: &[char], limit: u32) -> (number: Option<u32>)
    ensures
        number == numeral(chars@, limit),
{
    if chars.len() == 0 || (chars[0] == '0' && chars.len() > 1) {
        return None;
    }
    let mut value: u64 = 0;
    let mut i: usize = 0;
    while i < chars.len()
        invariant
            i <= chars.len(),
            value == digits_value(chars@.take(i as int)),
            value <= limit,
            forall|j: int| 0 <= j < i ==> is_digit(#[trigger] chars@[j]),
        decreases chars.len() - i,
    {
        let c: char = chars[i];
        if !('0' <= c && c <= '9') {
            assert(!is_digit(chars@[i as int]));
            return None;
        }
        value = value * 10 + (c as u64 - 48);
        proof {
            assert(chars@.take(i + 1).drop_last() =~= chars@.take(i as int));
            lemma_value_grows(chars@, i + 1);
        }
        if value > limit as u64 {
            return None;
        }
        i = i + 1;
    }
    assert(chars@.take(chars@.len() as int) =~= chars@);
    Some(value as u32)
}

/// Reading further digits never lowers the value.
proof fn lemma_value_grows(digits: Seq<char>, i: int)
    requires
        0 <= i <= digits.len(),
    ensures
        digits_value(digits.take(i)) <= digits_value(digits),
    decreases digits.len() - i,
{
    if i < digits.len() {
        lemma_value_grows(digits, i + 1);
        assert(digits.take(i + 1).drop_last() =~= digits.take(i));
    } else {
        assert(digits.take(i) =~= digits);
    }
}

/// The characters of a string.
pub fn chars_of(text: &str) -> (chars: Vec<char>)
    ensures
        chars@ == text@,
{
    let mut chars: Vec<char> = Vec::new();
    for c in iter: text.chars()
        invariant
            iter.seq() == text@,
            chars@ == text@.take(iter.index() as int),
    {
        chars.push(c);
        assert(text@.take(iter.index() + 1) =~= text@.take(iter.index() as int).push(c));
    }
    assert(text@.take(text@.len() as int) =~= text@);
    chars
}

/// Whether two strings hold the same characters.
pub fn same_text(left: &str, right: &str) -> (same: bool)
    ensures
        same == (left@ == right@),
{
    left.to_owned() == right.to_owned()
}

/// The text of two parts.
pub fn concat2(first: &str, second: &str) -> (text: String)
    ensures
        text@ == first@ + second@,
{
    let mut text = first.to_owned();
    text.append(second);
    text
}

/// The text of three parts.
pub fn concat3(first: &str, second: &str, third: &str) -> (text: String)
    ensures
        text@ == first@ + second@ + third@,
{
    let mut text = first.to_owned();
    text.append(second);
    text.append(third);
    text
}

/// The text of a result.
pub open spec fn text_result<E>(result: Result<String, E>) -> Result<Seq<char>, E> {
    match result {
        Ok(text) => Ok(text@),
        Err(error) => Err(error),
    }
}

/// Whether `text` begins with `prefix`.
pub open spec fn starts_with<T>(text: Seq<T>, prefix: Seq<T>) -> bool {
    prefix.len() <= text.len() && text.take(prefix.len() as int) == prefix
}

/// The bytes of a text that holds only ASCII characters.
pub open spec fn ascii_bytes(text: Seq<char>) -> Seq<u8> {
    text.map_values(|c: char| c as u8)
}

/// The pieces of `s` between the separators.
pub open spec fn split<T>(s: Seq<T>, separator: T) -> Seq<Seq<T>>
    decreases s.len(),
{
    if s.len() == 0 {
        seq![Seq::empty()]
    } else {
        let before = split(s.drop_last(), separator);
        if s.last() == separator {
            before.push(Seq::empty())
        } else {
            before.drop_last().push(before.last().push(s.last()))
        }
    }
}

/// The pieces one after the other, with the separator between them.
pub open spec fn join<T>(pieces: Seq<Seq<T>>, separator: T) -> Seq<T>
    decreases pieces.len(),
{
    if pieces.len() == 0 {
        Seq::empty()
    } else if pieces.len() == 1 {
        pieces[0]
    } else {
        join(pieces.drop_last(), separator).push(separator) + pieces.last()
    }
}

/// Splitting takes a sequence apart at every separator and loses nothing.
pub proof fn split_takes_apart<T>(s: Seq<T>, separator: T)
    ensures
        split(s, separator).len() > 0,
        join(split(s, separator), separator) == s,
        forall|i: int|
            0 <= i < split(s, separator).len() ==> !(#[trigger] split(s, separator)[i]).contains(
                separator,
            ),
    decreases s.len(),
{
    reveal_with_fuel(join, 2);
    if s.len() > 0 {
        let before = split(s.drop_last(), separator);
        let pieces = split(s, separator);
        split_takes_apart(s.drop_last(), separator);
        if s.last() == separator {
            assert(pieces.drop_last() =~= before);
            assert(join(pieces, separator) =~= s);
        } else {
            assert(pieces.drop_last() =~= before.drop_last());
            assert(join(pieces, separator) =~= join(before, separator).push(s.last()));
            assert(join(pieces, separator) =~= s);
            assert forall|i: int| 0 <= i < pieces.len() implies !(
            #[trigger] pieces[i]).contains(separator) by {
                if i == pieces.len() - 1 {
                    assert(!before.last().contains(separator));
                    let piece = pieces[i];
                    if piece.contains(separator) {
                        let k = choose|k: int| 0 <= k < piece.len() && piece[k] == separator;
                        assert(k < before.last().len());
                        assert(before.last()[k] == separator);
                    }
                } else {
                    assert(pieces[i] == before[i]);
                }
            }
        }
    }
}

/// A number is written digit by digit: a single digit as itself, and every further digit
/// behind those of ten times less.
pub proof fn numbers_are_written_in_base_ten(n: nat, digit: nat)
    requires
        digit < 10,
    ensures
        decimal(digit) == seq!["0123456789"@[digit as int]],
        n > 0 ==> decimal(n * 10 + digit) == decimal(n).push("0123456789"@[digit as int]),
{
    reveal_strlit("0123456789");
    assert((n * 10 + digit) / 10 == n && (n * 10 + digit) % 10 == digit);
    assert("0123456789"@[digit as int] == digit_char(digit));
}

/// A text begins with a prefix exactly when it is the prefix and something behind it.
pub proof fn prefixes_stand_in_front<T>(text: Seq<T>, prefix: Seq<T>)
    ensures
        starts_with(text, prefix) <==> exists|rest: Seq<T>| text == #[trigger] (prefix + rest),
{
    if starts_with(text, prefix) {
        assert(text =~= prefix + text.skip(prefix.len() as int));
    }
    if exists|rest: Seq<T>| text == #[trigger] (prefix + rest) {
        let rest = choose|rest: Seq<T>| text == #[trigger] (prefix + rest);
        assert(text.take(prefix.len() as int) =~= prefix);
    }
}

/// The bytes of an ASCII text are its UTF-8 encoding.
pub proof fn ascii_bytes_are_utf8(text: Seq<char>)
    requires
        is_ascii_chars(text),
    ensures
        ascii_bytes(text) == encode_utf8(text),
{
    is_ascii_chars_encode_utf8(text);
    assert(ascii_bytes(text) =~= encode_utf8(text));
}

/// The model of a result is the text that it holds, or its error.
pub proof fn results_are_shown_as_they_are<E>(text: String, error: E)
    ensures
        text_result::<E>(Ok(text)) == Ok::<Seq<char>, E>(text@),
        text_result::<E>(Err(error)) == Err::<Seq<char>, E>(error),
{
}

} // verus!
