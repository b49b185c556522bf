//! The grammars of names: services, publishers, DNS names, hosts and users.

use crate::paths::{lemma_split_at_separator, lemma_split_unseparated};
use crate::text::{
    chars_of, decimal, is_digit, join, lemma_decimal_is_numeral, numeral, numeral_reads_back,
    parse_numeral, split, split_takes_apart,
};
use vstd::prelude::*;

verus! {

/// The characters with the Unicode property White_Space.
pub open spec fn is_white_space(c: char) -> bool {
    ||| '\u{9}' <= c <= '\u{d}'
    ||| c == '\u{20}'
    ||| c == '\u{85}'
    ||| c == '\u{a0}'
    ||| c == '\u{1680}'
    ||| '\u{2000}' <= c <= '\u{200a}'
    ||| '\u{2028}' <= c <= '\u{2029}'
    ||| c == '\u{202f}'
    ||| c == '\u{205f}'
    ||| c == '\u{3000}'
}

/// The characters of the Unicode general category Cc.
pub open spec fn is_control(c: char) -> bool {
    c <= '\u{1f}' || '\u{7f}' <= c <= '\u{9f}'
}

/// Tells whether a character is white space.
pub fn char_is_white_space(c: char) -> (white: bool)
    ensures
        white == is_white_space(c),
{
    ('\u{9}' <= c && c <= '\u{d}') || c == '\u{20}' || c == '\u{85}' || c == '\u{a0}' || c
        == '\u{1680}' || ('\u{2000}' <= c && c <= '\u{200a}') || ('\u{2028}' <= c && c
        <= '\u{2029}') || c == '\u{202f}' || c == '\u{205f}' || c == '\u{3000}'
}

/// Tells whether a character is a control character.
pub fn char_is_control(c: char) -> (control: bool)
    ensures
        control == is_control(c),
{
    c <= '\u{1f}' || ('\u{7f}' <= c && c <= '\u{9f}')
}

/// A service name: nonempty, without white space at its ends, and without control
/// characters.
pub open spec fn service_name(name: Seq<char>) -> bool {
    &&& name.len() > 0
    &&& !is_white_space(name.first())
    &&& !is_white_space(name.last())
    &&& forall|i: int| 0 <= i < name.len() ==> !is_control(#[trigger] name[i])
}

/// Whether `name` can name a service.
pub fn service_name_is_valid(name: &str) -> (valid: bool)
    ensures
        valid == service_name(name@),
{
    let chars = chars_of(name);
    if chars.len() == 0 || char_is_white_space(chars[0]) || char_is_white_space(
        chars[chars.len() - 1],
    ) {
        return false;
    }
    let mut i: usize = 0;
    while i < chars.len()
        invariant
            i <= chars.len(),
            chars@ == name@,
            forall|j: int| 0 <= j < i ==> !is_control(#[trigger] name@[j]),
        decreases chars.len() - i,
    {
        if char_is_control(chars[i]) {
            assert(is_control(name@[i as int]));
            return false;
        }
        i = i + 1;
    }
    true
}

/// Whether a character is white space or a control character.
pub open spec fn is_blank(c: char) -> bool {
    is_white_space(c) || is_control(c)
}

/// Whether a text holds neither white space nor control characters.
pub open spec fn no_blank(s: Seq<char>) -> bool {
    forall|i: int| 0 <= i < s.len() ==> !is_blank(#[trigger] s[i])
}

fn has_no_blank(chars: &[char]) -> (none: bool)
    ensures
        none == no_blank(chars@),
{
    let mut i: usize = 0;
    while i < chars.len()
        invariant
            i <= chars.len(),
            forall|j: int| 0 <= j < i ==> !is_blank(#[trigger] chars@[j]),
        decreases chars.len() - i,
    {
        if char_is_white_space(chars[i]) || char_is_control(chars[i]) {
            assert(is_blank(chars@[i as int]));
            return false;
        }
        i = i + 1;
    }
    true
}

/// An SSH user: nonempty, without white space and control characters.
pub open spec fn user_name(user: Seq<char>) -> bool {
    user.len() > 0 && no_blank(user)
}

/// Whether `user` can name an SSH user.
pub fn user_is_valid(user: &str) -> (valid: bool)
    ensures
        valid == user_name(user@),
{
    let chars = chars_of(user);
    chars.len() > 0 && has_no_blank(&chars)
}

/// Whether a character is a lower-case letter of ASCII.
pub open spec fn is_lower(c: char) -> bool {
    'a' <= c <= 'z'
}

/// A publisher token: lowercase letters, digits and single inner hyphens, after a
/// lowercase letter.
pub open spec fn publisher_token(token: Seq<char>) -> bool {
    &&& token.len() > 0
    &&& is_lower(token.first())
    &&& token.last() != '-'
    &&& forall|i: int|
        0 <= i < token.len() ==> is_lower(#[trigger] token[i]) || is_digit(token[i]) || token[i] == '-'
    &&& forall|i: int| 0 < i < token.len() ==> !(token[i - 1] == '-' && #[trigger] token[i] == '-')
}

/// Whether `publisher` is a lexically valid publisher token.
pub fn publisher_token_is_valid(publisher: &str) -> (valid: bool)
    ensures
        valid == publisher_token(publisher@),
{
    let chars = chars_of(publisher);
    if chars.len() == 0 || !('a' <= chars[0] && chars[0] <= 'z') {
        return false;
    }
    let mut previous_was_hyphen = false;
    let mut i: usize = 1;
    while i < chars.len()
        invariant
            1 <= i <= chars.len(),
            chars@ == publisher@,
            is_lower(chars@[0]),
            previous_was_hyphen == (chars@[i - 1] == '-'),
            forall|j: int|
                0 <= j < i ==> is_lower(#[trigger] chars@[j]) || is_digit(chars@[j]) || chars@[j] == '-',
            forall|j: int|
                0 < j < i ==> !(chars@[j - 1] == '-' && #[trigger] chars@[j] == '-'),
        decreases chars.len() - i,
    {
        let c: char = chars[i];
        if ('a' <= c && c <= 'z') || ('0' <= c && c <= '9') {
            previous_was_hyphen = false;
        } else if c == '-' && !previous_was_hyphen {
            previous_was_hyphen = true;
        } else {
            assert(chars@[i as int] == c);
            return false;
        }
        i = i + 1;
    }
    !previous_was_hyphen
}

/// The pieces of `chars` between the separators.
fn split_chars(chars: &[char], separator: char) -> (pieces: Vec<Vec<char>>)
    ensures
        pieces.deep_view() == split(chars@, separator),
        pieces.len() > 0,
{
    let mut pieces: Vec<Vec<char>> = Vec::new();
    let mut piece: Vec<char> = Vec::new();
    let mut i: usize = 0;
    assert(pieces.deep_view().push(piece@) =~= seq![Seq::<char>::empty()]);
    while i < chars.len()
        invariant
            i <= chars.len(),
            pieces.deep_view().push(piece@) == split(chars@.take(i as int), separator),
        decreases chars.len() - i,
    {
        let ghost before = pieces.deep_view().push(piece@);
        assert(chars@.take(i + 1).drop_last() =~= chars@.take(i as int));
        assert(before.drop_last() =~= pieces.deep_view());
        if chars[i] == separator {
            let ghost done = pieces.deep_view();
            let ghost last = piece@;
            pieces.push(piece);
            assert(pieces.deep_view() =~= done.push(last)) by {
                assert(pieces@.last().deep_view() =~= last);
            }
            piece = Vec::new();
            assert(pieces.deep_view().push(piece@) =~= before.push(Seq::empty()));
        } else {
            piece.push(chars[i]);
        }
        i = i + 1;
    }
    assert(chars@.take(chars@.len() as int) =~= chars@);
    let ghost done = pieces.deep_view();
    let ghost last = piece@;
    pieces.push(piece);
    assert(pieces.deep_view() =~= done.push(last)) by {
        assert(pieces@.last().deep_view() =~= last);
    }
    pieces
}

/// Whether a character is a letter or digit of ASCII.
pub open spec fn is_alphanumeric(c: char) -> bool {
    'a' <= c <= 'z' || 'A' <= c <= 'Z' || '0' <= c <= '9'
}

fn char_is_alphanumeric(c: char) -> (alphanumeric: bool)
    ensures
        alphanumeric == is_alphanumeric(c),
{
    ('a' <= c && c <= 'z') || ('A' <= c && c <= 'Z') || ('0' <= c && c <= '9')
}

/// A DNS label: at most 63 ASCII letters, digits and inner hyphens.
pub open spec fn dns_label(label: Seq<char>) -> bool {
    &&& 0 < label.len() <= 63
    &&& is_alphanumeric(label.first())
    &&& is_alphanumeric(label.last())
    &&& forall|i: int|
        0 <= i < label.len() ==> is_alphanumeric(#[trigger] label[i]) || label[i] == '-'
}

fn label_is_valid(label: &[char]) -> (valid: bool)
    ensures
        valid == dns_label(label@),
{
    if label.len() == 0 || label.len() > 63 || !char_is_alphanumeric(label[0])
        || !char_is_alphanumeric(label[label.len() - 1]) {
        return false;
    }
    let mut i: usize = 0;
    while i < label.len()
        invariant
            i <= label.len(),
            forall|j: int|
                0 <= j < i ==> is_alphanumeric(#[trigger] label@[j]) || label@[j] == '-',
        decreases label.len() - i,
    {
        if !char_is_alphanumeric(label[i]) && label[i] != '-' {
            assert(!is_alphanumeric(label@[i as int]));
            return false;
        }
        i = i + 1;
    }
    true
}

/// A DNS name: labels separated by dots, at most 253 characters in all.
pub open spec fn dns_name(name: Seq<char>) -> bool {
    &&& 0 < name.len() <= 253
    &&& forall|i: int| 0 <= i < split(name, '.').len() ==> dns_label(#[trigger] split(name, '.')[i])
}

fn dns_chars_are_valid(chars: &[char]) -> (valid: bool)
    ensures
        valid == dns_name(chars@),
{
    if chars.len() == 0 || chars.len() > 253 {
        return false;
    }
    let labels = split_chars(chars, '.');
    let mut i: usize = 0;
    while i < labels.len()
        invariant
            i <= labels.len(),
            labels.deep_view() == split(chars@, '.'),
            forall|j: int| 0 <= j < i ==> dns_label(#[trigger] split(chars@, '.')[j]),
        decreases labels.len() - i,
    {
        assert(split(chars@, '.')[i as int] =~= labels@[i as int]@);
        if !label_is_valid(&labels[i]) {
            return false;
        }
        i = i + 1;
    }
    true
}

/// Whether `dns_name` is a DNS name without a trailing dot.
pub fn dns_name_is_valid(dns_name: &str) -> (valid: bool)
    ensures
        valid == self::dns_name(dns_name@),
{
    let chars = chars_of(dns_name);
    dns_chars_are_valid(&chars)
}

/// An IPv4 address: four decimal numbers up to 255, separated by dots.
pub open spec fn ipv4_address(s: Seq<char>) -> bool {
    &&& split(s, '.').len() == 4
    &&& forall|i: int| 0 <= i < 4 ==> numeral(#[trigger] split(s, '.')[i], 255) is Some
}

fn chars_are_ipv4(chars: &[char]) -> (valid: bool)
    ensures
        valid == ipv4_address(chars@),
{
    let octets = split_chars(chars, '.');
    if octets.len() != 4 {
        return false;
    }
    let mut i: usize = 0;
    while i < 4
        invariant
            i <= 4,
            octets.len() == 4,
            octets.deep_view() == split(chars@, '.'),
            forall|j: int| 0 <= j < i ==> numeral(#[trigger] split(chars@, '.')[j], 255) is Some,
        decreases 4 - i,
    {
        assert(split(chars@, '.')[i as int] =~= octets@[i as int]@);
        if parse_numeral(&octets[i], 255).is_none() {
            return false;
        }
        i = i + 1;
    }
    true
}

/// Whether `address` is an IPv4 address in dotted decimal notation.
pub fn ipv4_is_valid(address: &str) -> (valid: bool)
    ensures
        valid == ipv4_address(address@),
{
    let chars = chars_of(address);
    chars_are_ipv4(&chars)
}

/// Digits and dots alone, with at least one dot.
pub open spec fn dotted_numeric(s: Seq<char>) -> bool {
    &&& s.contains('.')
    &&& forall|i: int| 0 <= i < s.len() ==> is_digit(#[trigger] s[i]) || s[i] == '.'
}

fn is_dotted_numeric(chars: &[char]) -> (dotted: bool)
    ensures
        dotted == dotted_numeric(chars@),
{
    let mut dot = false;
    let mut i: usize = 0;
    while i < chars.len()
        invariant
            i <= chars.len(),
            dot == exists|j: int| 0 <= j < i && chars@[j] == '.',
            forall|j: int| 0 <= j < i ==> is_digit(#[trigger] chars@[j]) || chars@[j] == '.',
        decreases chars.len() - i,
    {
        if chars[i] == '.' {
            dot = true;
        } else if !('0' <= chars[i] && chars[i] <= '9') {
            assert(!is_digit(chars@[i as int]) && chars@[i as int] != '.');
            return false;
        }
        i = i + 1;
    }
    dot
}

/// A name without the one dot that it may end in.
pub open spec fn without_final_dot(s: Seq<char>) -> Seq<char> {
    if s.len() > 0 && s.last() == '.' {
        s.drop_last()
    } else {
        s
    }
}

/// An SSH host: an IPv4 address, or a DNS name, with or without a final dot, that
/// does not look like a malformed IPv4 address.
pub open spec fn ssh_host(host: Seq<char>) -> bool {
    &&& host.len() > 0
    &&& host.first() != '-'
    &&& no_blank(host)
    &&& ipv4_address(host) || (!dotted_numeric(host) && dns_name(without_final_dot(host)))
}

/// Whether `host` can name an SSH host.
pub fn host_is_valid(host: &str) -> (valid: bool)
    ensures
        valid == ssh_host(host@),
{
    let mut chars = chars_of(host);
    if chars.len() == 0 || chars[0] == '-' || !has_no_blank(&chars) {
        return false;
    }
    if chars_are_ipv4(&chars) {
        return true;
    }
    if is_dotted_numeric(&chars) {
        return false;
    }
    if chars[chars.len() - 1] == '.' {
        chars.pop();
        assert(chars@ =~= host@.drop_last());
    }
    dns_chars_are_valid(&chars)
}

/// A valid host is not empty, cannot be taken for an option, holds neither white space nor
/// control characters, and when it is written like an IPv4 address it is one.
pub proof fn valid_hosts_are_plain(host: Seq<char>)
    requires
        ssh_host(host),
    ensures
        host.len() > 0,
        host.first() != '-',
        no_blank(host),
        dotted_numeric(host) ==> ipv4_address(host),
{
}

/// A service name is valid exactly when it holds at least one character, neither begins nor
/// ends with white space, and holds no control character anywhere.
pub proof fn service_names_are_trimmed_and_printable(name: Seq<char>)
    ensures
        service_name(name) <==> {
            &&& name.len() > 0
            &&& !is_white_space(name[0])
            &&& !is_white_space(name[name.len() - 1])
            &&& !exists|i: int| 0 <= i < name.len() && is_control(#[trigger] name[i])
        },
        name.len() == 1 ==> (service_name(name) <==> !is_white_space(name[0]) && !is_control(
            name[0],
        )),
{
}

/// The characters between the ends of a service name may be anything but control
/// characters: white space between words is kept.
pub proof fn words_make_service_names(left: Seq<char>, right: Seq<char>)
    requires
        service_name(left),
        service_name(right),
    ensures
        service_name(left + right),
        service_name(left.push(' ') + right),
        !service_name(left.push(' ')),
        !service_name(seq![' '] + left),
        !service_name(left.push('\n') + right),
{
    let spaced = left.push(' ') + right;
    assert forall|i: int| 0 <= i < spaced.len() implies !is_control(#[trigger] spaced[i]) by {
        if i < left.len() {
            assert(spaced[i] == left[i]);
        } else if i > left.len() {
            assert(spaced[i] == right[i - left.len() - 1]);
        }
    }
    let whole = left + right;
    assert forall|i: int| 0 <= i < whole.len() implies !is_control(#[trigger] whole[i]) by {
        if i < left.len() {
            assert(whole[i] == left[i]);
        } else {
            assert(whole[i] == right[i - left.len()]);
        }
    }
    assert(left.push(' ').last() == ' ');
    assert((seq![' '] + left).first() == ' ');
    let broken = left.push('\n') + right;
    assert(broken[left.len() as int] == '\n');
    assert(is_control(broken[left.len() as int]));
}

/// A user is valid exactly when it is not empty and each of its characters is neither white
/// space nor a control character.
pub proof fn users_hold_no_blanks(user: Seq<char>)
    ensures
        user_name(user) <==> user.len() > 0 && !exists|i: int|
            0 <= i < user.len() && (is_white_space(#[trigger] user[i]) || is_control(user[i])),
{
    if user_name(user) {
        assert forall|i: int| 0 <= i < user.len() implies !is_white_space(#[trigger] user[i])
            && !is_control(user[i]) by {
            assert(!is_blank(user[i]));
        }
    } else if user.len() > 0 {
        let i = choose|i: int| 0 <= i < user.len() && is_blank(#[trigger] user[i]);
        assert(is_white_space(user[i]) || is_control(user[i]));
    }
}

/// Publisher tokens grow character by character: a lowercase letter is one, a token and a
/// lowercase letter or digit behind it is one, a hyphen may stand between the two, and there
/// are no others.
pub proof fn publisher_tokens_grow(token: Seq<char>, c: char)
    ensures
        !publisher_token(Seq::empty()),
        publisher_token(seq![c]) <==> 'a' <= c <= 'z',
        token.len() > 0 ==> (publisher_token(token.push(c)) <==> ('a' <= c <= 'z' || '0' <= c
            <= '9') && (publisher_token(token) || (token.last() == '-' && publisher_token(
            token.drop_last(),
        )))),
{
    let one = seq![c];
    assert(one[0] == c && one.len() == 1);
    if token.len() > 0 {
        let more = token.push(c);
        let n = token.len() as int;
        assert(forall|i: int| 0 <= i < n ==> more[i] == token[i]);
        assert(more[n] == c);
        if publisher_token(more) {
            assert(more[n - 1] == token.last());
            assert(is_lower(more[n]) || is_digit(more[n]) || more[n] == '-');
            if token.last() != '-' {
                assert forall|i: int| 0 <= i < n implies is_lower(#[trigger] token[i]) || is_digit(
                    token[i],
                ) || token[i] == '-' by {
                    assert(more[i] == token[i]);
                }
                assert forall|i: int| 0 < i < n implies !(token[i - 1] == '-' && #[trigger] token[i]
                    == '-') by {
                    assert(!(more[i - 1] == '-' && more[i] == '-'));
                }
                assert(publisher_token(token));
            } else {
                let shorter = token.drop_last();
                assert(n > 1) by {
                    assert(is_lower(more[0]));
                }
                assert forall|i: int| 0 <= i < n - 1 implies is_lower(#[trigger] shorter[i])
                    || is_digit(shorter[i]) || shorter[i] == '-' by {
                    assert(more[i] == shorter[i]);
                }
                assert forall|i: int| 0 < i < n - 1 implies !(shorter[i - 1] == '-'
                    && #[trigger] shorter[i] == '-') by {
                    assert(!(more[i - 1] == '-' && more[i] == '-'));
                }
                assert(!(more[n - 2] == '-' && more[n - 1] == '-'));
                assert(shorter.last() == more[n - 2]);
                assert(publisher_token(shorter));
            }
        }
        if (is_lower(c) || is_digit(c)) && publisher_token(token) {
            assert forall|i: int| 0 <= i < more.len() implies is_lower(#[trigger] more[i])
                || is_digit(more[i]) || more[i] == '-' by {
                if i < n {
                    assert(is_lower(token[i]) || is_digit(token[i]) || token[i] == '-');
                }
            }
            assert forall|i: int| 0 < i < more.len() implies !(more[i - 1] == '-'
                && #[trigger] more[i] == '-') by {
                if i < n {
                    assert(!(token[i - 1] == '-' && token[i] == '-'));
                }
            }
        }
        if (is_lower(c) || is_digit(c)) && token.last() == '-' && publisher_token(
            token.drop_last(),
        ) {
            let shorter = token.drop_last();
            assert(forall|i: int| 0 <= i < n - 1 ==> more[i] == shorter[i]);
            assert(more[n - 1] == '-');
            assert(more[n - 2] == shorter.last());
            assert forall|i: int| 0 <= i < more.len() implies is_lower(#[trigger] more[i])
                || is_digit(more[i]) || more[i] == '-' by {
                if i < n - 1 {
                    assert(is_lower(shorter[i]) || is_digit(shorter[i]) || shorter[i] == '-');
                }
            }
            assert forall|i: int| 0 < i < more.len() implies !(more[i - 1] == '-'
                && #[trigger] more[i] == '-') by {
                if i < n - 1 {
                    assert(!(shorter[i - 1] == '-' && shorter[i] == '-'));
                }
            }
        }
    }
}

/// A DNS name is valid exactly when it has 1 to 253 characters and each label between its
/// dots has 1 to 63, all of them ASCII letters, digits or hyphens, and no hyphen at the ends.
pub proof fn dns_names_are_labels_and_dots(name: Seq<char>)
    ensures
        dns_name(name) <==> 1 <= name.len() <= 253 && forall|i: int|
            0 <= i < split(name, '.').len() ==> {
                let label = #[trigger] split(name, '.')[i];
                &&& 1 <= label.len() <= 63
                &&& label[0] != '-' && label[label.len() - 1] != '-'
                &&& forall|k: int|
                    0 <= k < label.len() ==> ('a' <= #[trigger] label[k] <= 'z' || 'A' <= label[k]
                        <= 'Z' || '0' <= label[k] <= '9' || label[k] == '-')
            },
{
    let labels = split(name, '.');
    assert forall|i: int| 0 <= i < labels.len() implies dns_label(#[trigger] labels[i]) == ({
        let label = labels[i];
        &&& 1 <= label.len() <= 63
        &&& label[0] != '-' && label[label.len() - 1] != '-'
        &&& forall|k: int|
            0 <= k < label.len() ==> ('a' <= #[trigger] label[k] <= 'z' || 'A' <= label[k] <= 'Z'
                || '0' <= label[k] <= '9' || label[k] == '-')
    }) by {
        let label = labels[i];
        if label.len() > 0 {
            assert(label.first() == label[0] && label.last() == label[label.len() - 1]);
        }
        if dns_label(label) {
            assert forall|k: int| 0 <= k < label.len() implies ('a' <= #[trigger] label[k] <= 'z'
                || 'A' <= label[k] <= 'Z' || '0' <= label[k] <= '9' || label[k] == '-') by {
                assert(is_alphanumeric(label[k]) || label[k] == '-');
            }
        }
    }
}

/// A text is an IPv4 address exactly when it is four numbers from 0 to 255, written in
/// decimal without leading zeros, with dots between them.
pub proof fn ipv4_addresses_are_four_numbers(s: Seq<char>)
    ensures
        ipv4_address(s) <==> exists|a: u8, b: u8, c: u8, d: u8|
            s == #[trigger] dotted(a, b, c, d),
{
    if ipv4_address(s) {
        let parts = split(s, '.');
        split_takes_apart(s, '.');
        assert(numeral(parts[0], 255) is Some && numeral(parts[1], 255) is Some && numeral(
            parts[2],
            255,
        ) is Some && numeral(parts[3], 255) is Some);
        let a = numeral(parts[0], 255)->0;
        let b = numeral(parts[1], 255)->0;
        let c = numeral(parts[2], 255)->0;
        let d = numeral(parts[3], 255)->0;
        numeral_reads_back(parts[0], a, 255);
        numeral_reads_back(parts[1], b, 255);
        numeral_reads_back(parts[2], c, 255);
        numeral_reads_back(parts[3], d, 255);
        reveal_with_fuel(join, 4);
        assert(parts.drop_last().drop_last().drop_last()[0] == parts[0]);
        assert(parts.drop_last().drop_last().last() == parts[1]);
        assert(parts.drop_last().last() == parts[2]);
        assert(s =~= dotted(a as u8, b as u8, c as u8, d as u8));
    }
    if exists|a: u8, b: u8, c: u8, d: u8| s == #[trigger] dotted(a, b, c, d) {
        let (a, b, c, d) = choose|a: u8, b: u8, c: u8, d: u8| s == #[trigger] dotted(a, b, c, d);
        let (p, q, u, v) = (
            decimal(a as nat),
            decimal(b as nat),
            decimal(c as nat),
            decimal(d as nat),
        );
        lemma_no_dot(a as nat);
        lemma_no_dot(b as nat);
        lemma_no_dot(c as nat);
        lemma_no_dot(d as nat);
        assert(s =~= p.push('.') + (q.push('.') + (u.push('.') + v)));
        lemma_split_unseparated(p, '.');
        lemma_split_unseparated(q, '.');
        lemma_split_unseparated(u, '.');
        lemma_split_unseparated(v, '.');
        lemma_split_at_separator(p, '.', q.push('.') + (u.push('.') + v));
        lemma_split_at_separator(q, '.', u.push('.') + v);
        lemma_split_at_separator(u, '.', v);
        assert(split(s, '.') =~= seq![p, q, u, v]);
        numeral_reads_back(p, a as u32, 255);
        numeral_reads_back(q, b as u32, 255);
        numeral_reads_back(u, c as u32, 255);
        numeral_reads_back(v, d as u32, 255);
        assert forall|i: int| 0 <= i < 4 implies numeral(#[trigger] split(s, '.')[i], 255) is Some by {
            assert(i == 0 || i == 1 || i == 2 || i == 3);
        }
    }
}

/// Four numbers with dots between them.
pub open spec fn dotted(a: u8, b: u8, c: u8, d: u8) -> Seq<char> {
    decimal(a as nat) + seq!['.'] + decimal(b as nat) + seq!['.'] + decimal(c as nat) + seq!['.']
        + decimal(d as nat)
}

proof fn lemma_no_dot(n: nat)
    ensures
        !decimal(n).contains('.'),
{
    lemma_decimal_is_numeral(n);
    if decimal(n).contains('.') {
        let k = choose|k: int| 0 <= k < decimal(n).len() && decimal(n)[k] == '.';
        assert(is_digit(decimal(n)[k]));
    }
}

/// Every IPv4 address is a host. Any other text is one exactly when it does not begin with
/// a hyphen, is not made of digits and dots alone if it holds a dot, and is a DNS name
/// without the dot that it may end in.
pub proof fn hosts_are_addresses_or_names(host: Seq<char>)
    ensures
        ssh_host(host) ==> ipv4_address(host) || dns_name(host) || (host.last() == '.' && dns_name(
            host.drop_last(),
        )),
        !ipv4_address(host) && host.contains('.') && (forall|i: int|
            0 <= i < host.len() ==> ('0' <= #[trigger] host[i] <= '9' || host[i] == '.'))
            ==> !ssh_host(host),
        ssh_host(host) <==> {
            &&& host.len() > 0
            &&& host[0] != '-'
            &&& !exists|i: int|
                0 <= i < host.len() && (is_white_space(#[trigger] host[i]) || is_control(host[i]))
            &&& ipv4_address(host) || {
                &&& !(host.contains('.') && forall|i: int|
                    0 <= i < host.len() ==> ('0' <= #[trigger] host[i] <= '9' || host[i] == '.'))
                &&& dns_name(
                    if host[host.len() - 1] == '.' {
                        host.take(host.len() - 1)
                    } else {
                        host
                    },
                )
            }
        },
{
    users_hold_no_blanks(host);
    if host.len() > 0 {
        assert(host.take(host.len() - 1) =~= host.drop_last());
    }
    assert(dotted_numeric(host) == (host.contains('.') && forall|i: int|
        0 <= i < host.len() ==> ('0' <= #[trigger] host[i] <= '9' || host[i] == '.')));
}

} // verus!
