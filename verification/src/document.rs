//! TOML documents as plain trees, and the strict reading of records from them.

use crate::text::{
    chars_of, decimal, digits_value, is_digit, lemma_decimal_is_numeral, same_text, utf8_text,
};
use vstd::prelude::*;
use vstd::utf8::{
    decode_utf8, encode_utf8, encode_utf8_decode_utf8, encode_utf8_valid_utf8, valid_utf8,
};

verus! {

/// The type of a value that the `toml` crate has parsed.
#[verifier::external_type_specification]
#[verifier::external_body]
pub struct ExDeValue<'i>(toml::de::DeValue<'i>);

/// A TOML value, with the kinds that no record uses left apart as `Other`. An integer is
/// kept as it is written, without separators and without the prefix of its base, and
/// with its base.
pub enum TomlValue {
    Text(String),
    Integer(String, u32),
    Array(Vec<TomlValue>),
    Table(Vec<(String, TomlValue)>),
    Other,
}

/// The mathematical tree of a TOML value.
pub enum TomlTree {
    Text(Seq<char>),
    Integer(Seq<char>, u32),
    Array(Seq<TomlTree>),
    Table(Seq<(Seq<char>, TomlTree)>),
    Other,
}

impl TomlValue {
    /// What the value holds.
    pub open spec fn tree(self) -> TomlTree
        decreases self,
    {
        match self {
            TomlValue::Text(text) => TomlTree::Text(text@),
            TomlValue::Integer(text, radix) => TomlTree::Integer(text@, radix),
            TomlValue::Array(items) => TomlTree::Array(
                Seq::new(
                    items@.len(),
                    |i: int|
                        if 0 <= i < items@.len() {
                            items@[i].tree()
                        } else {
                            TomlTree::Other
                        },
                ),
            ),
            TomlValue::Table(entries) => TomlTree::Table(
                Seq::new(
                    entries@.len(),
                    |i: int|
                        if 0 <= i < entries@.len() {
                            (entries@[i].0@, entries@[i].1.tree())
                        } else {
                            (Seq::empty(), TomlTree::Other)
                        },
                ),
            ),
            TomlValue::Other => TomlTree::Other,
        }
    }
}

/// One level of a parsed value.
enum TomlNode<'i> {
    Text(String),
    Integer(String, u32),
    Array(Vec<toml::de::DeValue<'i>>),
    Table(Vec<(String, toml::de::DeValue<'i>)>),
    Other,
}

/// The document that the `toml` crate reads in a text, if it accepts the text.
pub uninterp spec fn toml_document(source: Seq<char>) -> Option<TomlTree>;

/// What a parsed value holds.
pub uninterp spec fn toml_tree(value: toml::de::DeValue<'_>) -> TomlTree;

impl<'i> TomlNode<'i> {
    spec fn tree(self) -> TomlTree {
        match self {
            TomlNode::Text(text) => TomlTree::Text(text@),
            TomlNode::Integer(text, radix) => TomlTree::Integer(text@, radix),
            TomlNode::Array(items) => TomlTree::Array(
                items@.map_values(|item: toml::de::DeValue<'i>| toml_tree(item)),
            ),
            TomlNode::Table(entries) => TomlTree::Table(
                entries@.map_values(
                    |entry: (String, toml::de::DeValue<'i>)| (entry.0@, toml_tree(entry.1)),
                ),
            ),
            TomlNode::Other => TomlTree::Other,
        }
    }
}

/// `toml::de::DeTable::parse` reads a whole document, as `toml::from_str` does before it
/// looks at any value. What it reads depends on the text alone: it is named by
/// `toml_document`.
#[verifier::external_body]
fn parse_document(source: &str) -> (document: Option<toml::de::DeValue<'_>>)
    ensures
        match document {
            Some(value) => toml_document(source@) == Some(toml_tree(value)),
            None => toml_document(source@) is None,
        },
{
    let table = toml::de::DeTable::parse(source).ok()?;
    Some(toml::de::DeValue::Table(table.into_inner()))
}

/// The variants of `toml::de::DeValue` taken apart one level deep. An integer gives its
/// `DeInteger::as_str` and `DeInteger::radix`. Floats, booleans and datetimes are kept as
/// `Other`.
#[verifier::external_body]
fn open_value<'i>(value: toml::de::DeValue<'i>) -> (node: TomlNode<'i>)
    ensures
        node.tree() == toml_tree(value),
{
    match value {
        toml::de::DeValue::String(v) => TomlNode::Text(v.into_owned()),
        toml::de::DeValue::Integer(v) => TomlNode::Integer(v.as_str().to_owned(), v.radix()),
        toml::de::DeValue::Array(v) => {
            TomlNode::Array(v.into_iter().map(|item| item.into_inner()).collect())
        },
        toml::de::DeValue::Table(v) => TomlNode::Table(
            v.into_iter().map(|(k, v)| (k.into_inner().into_owned(), v.into_inner())).collect(),
        ),
        toml::de::DeValue::Float(_) => TomlNode::Other,
        toml::de::DeValue::Boolean(_) => TomlNode::Other,
        toml::de::DeValue::Datetime(_) => TomlNode::Other,
    }
}

/// The plain tree of a parsed value.
fn plain_value(value: toml::de::DeValue<'_>) -> (plain: TomlValue)
    ensures
        plain.tree() == toml_tree(value),
    decreases toml_tree(value),
{
    let ghost whole = toml_tree(value);
    match open_value(value) {
        TomlNode::Text(text) => TomlValue::Text(text),
        TomlNode::Integer(text, radix) => TomlValue::Integer(text, radix),
        TomlNode::Array(items) => {
            let ghost all = items@;
            let mut plain: Vec<TomlValue> = Vec::new();
            for item in iter: items
                invariant
                    iter.seq() == all,
                    whole == toml_tree(value),
                    whole == TomlTree::Array(
                        all.map_values(|item: toml::de::DeValue<'_>| toml_tree(item)),
                    ),
                    plain@.len() == iter.index(),
                    forall|i: int| 0 <= i < plain@.len() ==> (#[trigger] plain@[i]).tree()
                        == toml_tree(all[i]),
            {
                assert(whole->Array_0[iter.index() as int] == toml_tree(item));
                assert(decreases_to!(whole => whole->Array_0));
                assert(decreases_to!(whole->Array_0 => whole->Array_0[iter.index() as int]));
                plain.push(plain_value(item));
            }
            let result = TomlValue::Array(plain);
            assert(result.tree()->Array_0 =~= whole->Array_0);
            result
        },
        TomlNode::Table(entries) => {
            let ghost all = entries@;
            let mut plain: Vec<(String, TomlValue)> = Vec::new();
            for entry in iter: entries
                invariant
                    iter.seq() == all,
                    whole == toml_tree(value),
                    whole == TomlTree::Table(
                        all.map_values(
                            |entry: (String, toml::de::DeValue<'_>)|
                                (entry.0@, toml_tree(entry.1)),
                        ),
                    ),
                    plain@.len() == iter.index(),
                    forall|i: int|
                        0 <= i < plain@.len() ==> (#[trigger] plain@[i]).0@ == all[i].0@
                            && plain@[i].1.tree() == toml_tree(all[i].1),
            {
                assert(whole->Table_0[iter.index() as int] == (entry.0@, toml_tree(entry.1)));
                assert(decreases_to!(whole => whole->Table_0));
                assert(decreases_to!(whole->Table_0 => whole->Table_0[iter.index() as int]));
                assert(decreases_to!(whole->Table_0[iter.index() as int] => whole->Table_0[iter.index() as int].1));
                plain.push((entry.0, plain_value(entry.1)));
            }
            let result = TomlValue::Table(plain);
            assert(result.tree()->Table_0 =~= whole->Table_0);
            result
        },
        TomlNode::Other => TomlValue::Other,
    }
}

/// Reads the TOML document in `source`.
pub fn read_document(source: &str) -> (document: Option<TomlValue>)
    ensures
        match document {
            Some(value) => toml_document(source@) == Some(value.tree()),
            None => toml_document(source@) is None,
        },
{
    match parse_document(source) {
        Some(value) => Some(plain_value(value)),
        None => None,
    }
}

/// Why no document could be read from bytes.
#[derive(Clone, Copy, PartialEq, Eq, Structural, Debug)]
pub enum SourceError {
    NotUtf8,
    NotToml,
}

/// The document that bytes hold.
pub open spec fn document_in(bytes: Seq<u8>) -> Result<TomlTree, SourceError> {
    if !valid_utf8(bytes) {
        Err(SourceError::NotUtf8)
    } else {
        match toml_document(decode_utf8(bytes)) {
            Some(tree) => Ok(tree),
            None => Err(SourceError::NotToml),
        }
    }
}

/// The bytes of a file, if it could be read.
pub open spec fn bytes_of(contents: Option<Vec<u8>>) -> Option<Seq<u8>> {
    match contents {
        Some(bytes) => Some(bytes@),
        None => None,
    }
}

/// The tree of a document, if there is one.
pub open spec fn document_tree(document: Result<TomlValue, SourceError>) -> Result<
    TomlTree,
    SourceError,
> {
    match document {
        Ok(value) => Ok(value.tree()),
        Err(error) => Err(error),
    }
}

/// Reads the TOML document that bytes hold.
pub fn read_bytes(bytes: &[u8]) -> (document: Result<TomlValue, SourceError>)
    ensures
        document_tree(document) == document_in(bytes@),
{
    match utf8_text(bytes) {
        Some(source) => match read_document(source) {
            Some(value) => Ok(value),
            None => Err(SourceError::NotToml),
        },
        None => Err(SourceError::NotUtf8),
    }
}

/// The value of a field of a table.
pub open spec fn field(entries: Seq<(Seq<char>, TomlTree)>, name: Seq<char>) -> Option<TomlTree>
    decreases entries.len(),
{
    if entries.len() == 0 {
        None
    } else if entries[0].0 == name {
        Some(entries[0].1)
    } else {
        field(entries.drop_first(), name)
    }
}

/// Whether a table holds only fields of the given names.
pub open spec fn only_fields(
    entries: Seq<(Seq<char>, TomlTree)>,
    names: Seq<Seq<char>>,
) -> bool {
    forall|i: int| 0 <= i < entries.len() ==> names.contains((#[trigger] entries[i]).0)
}

/// The values of a record with the fields `names`. A record is a table with
/// exactly these fields, or an array whose first items are their values.
pub open spec fn record(tree: TomlTree, names: Seq<Seq<char>>) -> Option<Seq<TomlTree>> {
    match tree {
        TomlTree::Table(entries) => {
            if only_fields(entries, names) && forall|k: int|
                0 <= k < names.len() ==> field(entries, #[trigger] names[k]) is Some {
                Some(Seq::new(names.len(), |k: int| field(entries, names[k])->0))
            } else {
                None
            }
        },
        TomlTree::Array(items) => {
            if names.len() <= items.len() {
                Some(items.take(names.len() as int))
            } else {
                None
            }
        },
        _ => None,
    }
}

/// The items of the one list that a document may hold, none when it is left out.
pub open spec fn list(tree: TomlTree, name: Seq<char>) -> Option<Seq<TomlTree>> {
    match tree {
        TomlTree::Table(entries) => {
            if only_fields(entries, seq![name]) {
                match field(entries, name) {
                    None => Some(Seq::empty()),
                    Some(TomlTree::Array(items)) => Some(items),
                    Some(_) => None,
                }
            } else {
                None
            }
        },
        _ => None,
    }
}

/// A text value.
pub open spec fn text_value(tree: TomlTree) -> Option<Seq<char>> {
    match tree {
        TomlTree::Text(text) => Some(text),
        _ => None,
    }
}

/// The value of a letter or digit in a base that has it.
pub open spec fn digit_value(c: char) -> Option<nat> {
    if '0' <= c <= '9' {
        Some((c as nat - 48) as nat)
    } else if 'a' <= c <= 'z' {
        Some((c as nat - 87) as nat)
    } else if 'A' <= c <= 'Z' {
        Some((c as nat - 55) as nat)
    } else {
        None
    }
}

/// The number that digits denote in a base, when all of them are digits of it.
pub open spec fn digits_number(digits: Seq<char>, radix: nat) -> Option<nat>
    decreases digits.len(),
{
    if digits.len() == 0 {
        Some(0)
    } else {
        match (digits_number(digits.drop_last(), radix), digit_value(digits.last())) {
            (Some(front), Some(digit)) => if digit < radix {
                Some(front * radix + digit)
            } else {
                None
            },
            _ => None,
        }
    }
}

/// Whether a text starts with a sign.
pub open spec fn is_signed(text: Seq<char>) -> bool {
    text.len() > 0 && (text[0] == '+' || text[0] == '-')
}

/// The number that a text denotes in a base: at least one digit, after a sign or none.
pub open spec fn integer_value(text: Seq<char>, radix: nat) -> Option<int> {
    let digits = if is_signed(text) {
        text.skip(1)
    } else {
        text
    };
    if digits.len() == 0 {
        None
    } else {
        match digits_number(digits, radix) {
            Some(number) => Some(
                if text[0] == '-' {
                    -number
                } else {
                    number as int
                },
            ),
            None => None,
        }
    }
}

/// An integer value in the range of port numbers, zero included.
pub open spec fn port_value(tree: TomlTree) -> Option<u16> {
    match tree {
        TomlTree::Integer(text, radix) => match integer_value(text, radix as nat) {
            Some(number) => if 0 <= number <= 65535 {
                Some(number as u16)
            } else {
                None
            },
            None => None,
        },
        _ => None,
    }
}

/// What the values hold.
pub open spec fn trees(values: Seq<&TomlValue>) -> Seq<TomlTree> {
    values.map_values(|value: &TomlValue| value.tree())
}

/// Finds a field of a table.
fn find_field<'a>(entries: &'a Vec<(String, TomlValue)>, name: &str) -> (found: Option<
    &'a TomlValue,
>)
    ensures
        ({
            let tree = TomlValue::Table(*entries).tree()->Table_0;
            match found {
                Some(value) => field(tree, name@) == Some(value.tree()),
                None => field(tree, name@) is None,
            }
        }),
{
    let ghost tree = TomlValue::Table(*entries).tree()->Table_0;
    assert(tree.skip(0) =~= tree);
    let mut i: usize = 0;
    while i < entries.len()
        invariant
            i <= entries.len(),
            tree == TomlValue::Table(*entries).tree()->Table_0,
            tree.len() == entries.len(),
            field(tree, name@) == field(tree.skip(i as int), name@),
        decreases entries.len() - i,
    {
        assert(tree.skip(i as int).drop_first() =~= tree.skip(i + 1));
        assert(tree[i as int] == (entries@[i as int].0@, entries@[i as int].1.tree()));
        if same_text(entries[i].0.as_str(), name) {
            return Some(&entries[i].1);
        }
        i = i + 1;
    }
    None
}

/// Whether a table holds only fields of the given names.
fn has_only_fields(entries: &Vec<(String, TomlValue)>, names: &[&str]) -> (only: bool)
    ensures
        only == only_fields(TomlValue::Table(*entries).tree()->Table_0, names.deep_view()),
{
    let ghost tree = TomlValue::Table(*entries).tree()->Table_0;
    let mut i: usize = 0;
    while i < entries.len()
        invariant
            i <= entries.len(),
            tree == TomlValue::Table(*entries).tree()->Table_0,
            tree.len() == entries.len(),
            forall|j: int| 0 <= j < i ==> names.deep_view().contains((#[trigger] tree[j]).0),
        decreases entries.len() - i,
    {
        assert(tree[i as int].0 == entries@[i as int].0@);
        let mut known = false;
        let mut k: usize = 0;
        while k < names.len()
            invariant
                i < entries.len(),
                k <= names.len(),
                known == exists|m: int| 0 <= m < k && names.deep_view()[m] == entries@[i as int].0@,
            decreases names.len() - k,
        {
            if same_text(entries[i].0.as_str(), names[k]) {
                assert(names.deep_view()[k as int] == entries@[i as int].0@);
                known = true;
            }
            k = k + 1;
        }
        if !known {
            assert(!names.deep_view().contains(tree[i as int].0));
            return false;
        }
        i = i + 1;
    }
    true
}

/// Reads the values of a record, in the order of `names`.
pub fn read_record<'a>(value: &'a TomlValue, names: &[&str]) -> (values: Option<Vec<&'a TomlValue>>)
    ensures
        match values {
            Some(values) => record(value.tree(), names.deep_view()) == Some(trees(values@))
                && values.len() == names.len(),
            None => record(value.tree(), names.deep_view()) is None,
        },
{
    let mut values: Vec<&'a TomlValue> = Vec::new();
    match value {
        TomlValue::Table(entries) => {
            if !has_only_fields(entries, names) {
                return None;
            }
            let ghost tree = value.tree()->Table_0;
            let mut k: usize = 0;
            while k < names.len()
                invariant
                    k <= names.len(),
                    tree == TomlValue::Table(*entries).tree()->Table_0,
                    value.tree() == TomlTree::Table(tree),
                    values@.len() == k,
                    forall|m: int| 0 <= m < k ==> field(tree, #[trigger] names.deep_view()[m]) == Some(
                        values@[m].tree(),
                    ),
                decreases names.len() - k,
            {
                assert(names.deep_view()[k as int] == names@[k as int]@);
                match find_field(entries, names[k]) {
                    Some(found) => values.push(found),
                    None => {
                        return None;
                    },
                }
                k = k + 1;
            }
            assert(record(value.tree(), names.deep_view())->0 =~= trees(values@));
            Some(values)
        },
        TomlValue::Array(items) => {
            if items.len() < names.len() {
                return None;
            }
            let ghost tree = value.tree()->Array_0;
            let mut k: usize = 0;
            while k < names.len()
                invariant
                    k <= names.len() <= items.len(),
                    tree == TomlValue::Array(*items).tree()->Array_0,
                    values@.len() == k,
                    forall|m: int| 0 <= m < k ==> (#[trigger] values@[m]).tree() == tree[m],
                decreases names.len() - k,
            {
                values.push(&items[k]);
                k = k + 1;
            }
            assert(record(value.tree(), names.deep_view())->0 =~= trees(values@));
            Some(values)
        },
        _ => None,
    }
}

/// Reads the items of the one list that a document may hold.
pub fn read_list<'a>(value: &'a TomlValue, name: &str) -> (items: Option<Vec<&'a TomlValue>>)
    ensures
        match items {
            Some(items) => list(value.tree(), name@) == Some(trees(items@)),
            None => list(value.tree(), name@) is None,
        },
{
    match value {
        TomlValue::Table(entries) => {
            let names: [&str; 1] = [name];
            let names: &[&str] = names.as_slice();
            assert(names.deep_view() =~= seq![name@]);
            if !has_only_fields(entries, names) {
                return None;
            }
            let mut found: Vec<&'a TomlValue> = Vec::new();
            match find_field(entries, name) {
                None => {
                    assert(trees(found@) =~= Seq::empty());
                    Some(found)
                },
                Some(TomlValue::Array(items)) => {
                    let ghost tree = TomlValue::Array(*items).tree()->Array_0;
                    let mut k: usize = 0;
                    while k < items.len()
                        invariant
                            k <= items.len(),
                            tree == TomlValue::Array(*items).tree()->Array_0,
                            found@.len() == k,
                            forall|m: int| 0 <= m < k ==> (#[trigger] found@[m]).tree() == tree[m],
                        decreases items.len() - k,
                    {
                        found.push(&items[k]);
                        k = k + 1;
                    }
                    assert(trees(found@) =~= tree);
                    Some(found)
                },
                Some(_) => None,
            }
        },
        _ => None,
    }
}

/// Reads a text value.
pub fn read_text(value: &TomlValue) -> (text: Option<String>)
    ensures
        text.deep_view() == text_value(value.tree()),
{
    match value {
        TomlValue::Text(text) => Some(text.clone()),
        _ => None,
    }
}

/// Finds the value of a letter or digit.
fn read_digit(c: char) -> (digit: Option<u32>)
    ensures
        match digit {
            Some(digit) => digit_value(c) == Some(digit as nat) && digit < 36,
            None => digit_value(c) is None,
        },
{
    if '0' <= c && c <= '9' {
        Some(c as u32 - 48)
    } else if 'a' <= c && c <= 'z' {
        Some(c as u32 - 87)
    } else if 'A' <= c && c <= 'Z' {
        Some(c as u32 - 55)
    } else {
        None
    }
}

proof fn lemma_no_number(digits: Seq<char>, radix: nat, i: int)
    requires
        0 <= i <= digits.len(),
        digits_number(digits.take(i), radix) is None,
    ensures
        digits_number(digits, radix) is None,
    decreases digits.len() - i,
{
    if i < digits.len() {
        assert(digits.take(i + 1).drop_last() =~= digits.take(i));
        lemma_no_number(digits, radix, i + 1);
    } else {
        assert(digits.take(i) =~= digits);
    }
}

proof fn lemma_number_grows(front: nat, radix: nat, digit: nat)
    requires
        digit < radix,
    ensures
        front * radix + digit >= front,
{
    assert(front * radix >= front) by (nonlinear_arith)
        requires
            radix >= 1,
    ;
}

/// Reads the number that the digits from `start` on denote in a base. Every number above
/// the range of port numbers is read as the one that follows the range.
fn read_digits(chars: &Vec<char>, start: usize, radix: u32) -> (number: Option<u32>)
    requires
        start <= chars.len(),
    ensures
        match digits_number(chars@.skip(start as int), radix as nat) {
            Some(value) => number == Some(if value <= 65535 { value as u32 } else { 65536u32 }),
            None => number is None,
        },
{
    let ghost digits = chars@.skip(start as int);
    let mut number: u32 = 0;
    let mut i: usize = start;
    assert(digits.take(0) =~= Seq::<char>::empty());
    while i < chars.len()
        invariant
            start <= i <= chars.len(),
            digits == chars@.skip(start as int),
            number <= 65536,
            match digits_number(digits.take(i - start), radix as nat) {
                Some(value) => number == (if value <= 65535 { value as u32 } else { 65536u32 }),
                None => false,
            },
        decreases chars.len() - i,
    {
        let ghost before = digits.take(i - start);
        let ghost after = digits.take(i + 1 - start);
        assert(after.drop_last() =~= before);
        assert(after.last() == chars@[i as int]);
        match read_digit(chars[i]) {
            Some(digit) => {
                if digit >= radix {
                    proof {
                        lemma_no_number(digits, radix as nat, i + 1 - start);
                    }
                    return None;
                }
                proof {
                    lemma_number_grows(
                        digits_number(before, radix as nat)->0,
                        radix as nat,
                        digit as nat,
                    );
                }
                if number <= 65535 {
                    assert(number * radix <= 65535 * 0xffff_ffff) by (nonlinear_arith)
                        requires
                            number <= 65535,
                            radix <= 0xffff_ffff,
                    ;
                    let next: u64 = number as u64 * radix as u64 + digit as u64;
                    number = if next <= 65535 {
                        next as u32
                    } else {
                        65536
                    };
                }
            },
            None => {
                proof {
                    lemma_no_number(digits, radix as nat, i + 1 - start);
                }
                return None;
            },
        }
        i = i + 1;
    }
    assert(digits.take(i - start) =~= digits);
    Some(number)
}

/// Reads the port number that a text denotes in a base.
fn read_integer(text: &str, radix: u32) -> (port: Option<u16>)
    ensures
        port == port_value(TomlTree::Integer(text@, radix)),
{
    let chars = chars_of(text);
    let signed = chars.len() > 0 && (chars[0] == '+' || chars[0] == '-');
    let start: usize = if signed {
        1
    } else {
        0
    };
    assert(chars@.skip(0) =~= chars@);
    if start == chars.len() {
        return None;
    }
    match read_digits(&chars, start, radix) {
        Some(number) => if number <= 65535 && (number == 0 || chars[0] != '-') {
            Some(number as u16)
        } else {
            None
        },
        None => None,
    }
}

/// Reads a port number.
pub fn read_port(value: &TomlValue) -> (port: Option<u16>)
    ensures
        port == port_value(value.tree()),
{
    match value {
        TomlValue::Integer(text, radix) => read_integer(text.as_str(), *radix),
        _ => None,
    }
}

/// A table with a field of any other name is no record and no document.
pub proof fn unknown_fields_are_rejected(
    entries: Seq<(Seq<char>, TomlTree)>,
    names: Seq<Seq<char>>,
    i: int,
)
    requires
        0 <= i < entries.len(),
        !names.contains(entries[i].0),
    ensures
        record(TomlTree::Table(entries), names) is None,
        names.len() == 1 ==> list(TomlTree::Table(entries), names[0]) is None,
{
    if names.len() == 1 {
        assert(names =~= seq![names[0]]);
    }
}

/// A table without one of the fields is no record.
pub proof fn missing_fields_are_rejected(
    entries: Seq<(Seq<char>, TomlTree)>,
    names: Seq<Seq<char>>,
    k: int,
)
    requires
        0 <= k < names.len(),
        forall|i: int| 0 <= i < entries.len() ==> (#[trigger] entries[i]).0 != names[k],
    ensures
        record(TomlTree::Table(entries), names) is None,
{
    lemma_absent_field(entries, names[k]);
}

proof fn lemma_absent_field(entries: Seq<(Seq<char>, TomlTree)>, name: Seq<char>)
    requires
        forall|i: int| 0 <= i < entries.len() ==> (#[trigger] entries[i]).0 != name,
    ensures
        field(entries, name) is None,
    decreases entries.len(),
{
    if entries.len() > 0 {
        let rest = entries.drop_first();
        assert forall|i: int| 0 <= i < rest.len() implies (#[trigger] rest[i]).0 != name by {
            assert(rest[i] == entries[i + 1]);
        }
        lemma_absent_field(rest, name);
    }
}

/// The order of the fields of a record does not matter.
pub proof fn field_order_does_not_matter(
    entries: Seq<(Seq<char>, TomlTree)>,
    name: Seq<char>,
    i: int,
)
    requires
        0 <= i < entries.len(),
        entries[i].0 == name,
        forall|j: int, k: int|
            0 <= j < k < entries.len() ==> (#[trigger] entries[j]).0 != (#[trigger] entries[k]).0,
    ensures
        field(entries, name) == Some(entries[i].1),
    decreases entries.len(),
{
    if i > 0 {
        let rest = entries.drop_first();
        assert(entries[0].0 != entries[i].0);
        assert(rest[i - 1] == entries[i]);
        assert forall|j: int, k: int| 0 <= j < k < rest.len() implies (#[trigger] rest[j]).0 != (
        #[trigger] rest[k]).0 by {
            assert(rest[j] == entries[j + 1] && rest[k] == entries[k + 1]);
        }
        field_order_does_not_matter(rest, name, i - 1);
    }
}

/// A record in a table is read by the names of its fields: whatever the order of the table,
/// each value is the one that stands under its name.
pub proof fn values_are_read_by_name(
    entries: Seq<(Seq<char>, TomlTree)>,
    names: Seq<Seq<char>>,
    values: Seq<TomlTree>,
    i: int,
    k: int,
)
    requires
        record(TomlTree::Table(entries), names) == Some(values),
        0 <= i < entries.len(),
        0 <= k < names.len(),
        entries[i].0 == names[k],
        forall|j: int, m: int|
            0 <= j < m < entries.len() ==> (#[trigger] entries[j]).0 != (#[trigger] entries[m]).0,
    ensures
        values.len() == names.len(),
        values[k] == entries[i].1,
{
    field_order_does_not_matter(entries, names[k], i);
}

/// Whether a table has a field.
pub open spec fn has_field(entries: Seq<(Seq<char>, TomlTree)>, name: Seq<char>) -> bool {
    exists|i: int| 0 <= i < entries.len() && (#[trigger] entries[i]).0 == name
}

/// A table is a record exactly when it has each of the fields and no other.
pub proof fn records_have_exactly_their_fields(
    entries: Seq<(Seq<char>, TomlTree)>,
    names: Seq<Seq<char>>,
)
    ensures
        record(TomlTree::Table(entries), names) is Some <==> {
            &&& forall|i: int|
                0 <= i < entries.len() ==> names.contains((#[trigger] entries[i]).0)
            &&& forall|k: int| 0 <= k < names.len() ==> has_field(entries, #[trigger] names[k])
        },
{
    assert forall|k: int| 0 <= k < names.len() implies field(entries, #[trigger] names[k]) is Some
        == has_field(entries, names[k]) by {
        lemma_present_field(entries, names[k]);
    }
    assert(only_fields(entries, names) == forall|i: int|
        0 <= i < entries.len() ==> names.contains((#[trigger] entries[i]).0));
    if forall|k: int| 0 <= k < names.len() ==> has_field(entries, #[trigger] names[k]) {
        assert(forall|k: int| 0 <= k < names.len() ==> field(entries, #[trigger] names[k]) is Some);
    }
    if forall|k: int| 0 <= k < names.len() ==> field(entries, #[trigger] names[k]) is Some {
        assert(forall|k: int| 0 <= k < names.len() ==> has_field(entries, #[trigger] names[k]));
    }
}

/// A record of two fields is read alike whichever of them comes first in its table.
pub proof fn two_fields_stand_in_any_order(
    first: Seq<char>,
    second: Seq<char>,
    one: TomlTree,
    other: TomlTree,
)
    requires
        first != second,
    ensures
        record(
            TomlTree::Table(seq![(first, one), (second, other)]),
            seq![first, second],
        ) == Some(seq![one, other]),
        record(
            TomlTree::Table(seq![(second, other), (first, one)]),
            seq![first, second],
        ) == Some(seq![one, other]),
        record(TomlTree::Array(seq![one, other]), seq![first, second]) == Some(seq![one, other]),
{
    reveal_with_fuel(field, 3);
    let names = seq![first, second];
    assert(names[0] == first && names[1] == second && names.len() == 2);
    assert(names.contains(first) && names.contains(second));
    let left = seq![(first, one), (second, other)];
    let right = seq![(second, other), (first, one)];
    assert(left[0] == (first, one) && left[1] == (second, other));
    assert(right[0] == (second, other) && right[1] == (first, one));
    assert(left.drop_first()[0] == (second, other));
    assert(right.drop_first()[0] == (first, one));
    assert(field(left, first) == Some(one) && field(left, second) == Some(other));
    assert(field(right, first) == Some(one) && field(right, second) == Some(other));
    assert(only_fields(left, names) && only_fields(right, names));
    assert(record(TomlTree::Table(left), names)->0 =~= seq![one, other]);
    assert(record(TomlTree::Table(right), names)->0 =~= seq![one, other]);
    assert(seq![one, other].take(2) =~= seq![one, other]);
}

proof fn lemma_present_field(entries: Seq<(Seq<char>, TomlTree)>, name: Seq<char>)
    ensures
        field(entries, name) is Some <==> exists|i: int|
            0 <= i < entries.len() && (#[trigger] entries[i]).0 == name,
    decreases entries.len(),
{
    if entries.len() > 0 {
        let rest = entries.drop_first();
        lemma_present_field(rest, name);
        if entries[0].0 != name {
            if field(rest, name) is Some {
                let i = choose|i: int| 0 <= i < rest.len() && (#[trigger] rest[i]).0 == name;
                assert(entries[i + 1] == rest[i]);
            }
            if exists|i: int| 0 <= i < entries.len() && (#[trigger] entries[i]).0 == name {
                let i = choose|i: int| 0 <= i < entries.len() && (#[trigger] entries[i]).0 == name;
                assert(rest[i - 1] == entries[i]);
            }
        }
    }
}

/// A record in an array is read by position: the first values are its fields, and whatever
/// follows is ignored. Nothing but tables and arrays is a record.
pub proof fn arrays_are_read_by_position(
    items: Seq<TomlTree>,
    more: Seq<TomlTree>,
    names: Seq<Seq<char>>,
    tree: TomlTree,
)
    ensures
        items.len() == names.len() ==> record(TomlTree::Array(items + more), names) == Some(items),
        items.len() < names.len() ==> record(TomlTree::Array(items), names) is None,
        !(tree is Table) && !(tree is Array) ==> record(tree, names) is None,
{
    if items.len() == names.len() {
        assert((items + more).take(names.len() as int) =~= items);
    }
}

/// A document holds the items of its one list, which may be left out. Anything else in a
/// document, and anything but a list under its name, makes it unreadable.
pub proof fn documents_hold_one_list(
    name: Seq<char>,
    value: TomlTree,
    other: Seq<char>,
    tree: TomlTree,
)
    ensures
        list(TomlTree::Table(Seq::empty()), name) == Some(Seq::<TomlTree>::empty()),
        list(TomlTree::Table(seq![(name, value)]), name) == match value {
            TomlTree::Array(items) => Some(items),
            _ => None,
        },
        other != name ==> list(TomlTree::Table(seq![(other, value)]), name) is None,
        !(tree is Table) ==> list(tree, name) is None,
{
    let one = seq![(name, value)];
    assert(one[0].0 == name && one[0].1 == value);
    assert(seq![name].contains(name)) by {
        assert(seq![name][0] == name);
    }
    assert(only_fields(one, seq![name]));
    assert(field(one, name) == Some(value));
    let strange = seq![(other, value)];
    assert(strange[0].0 == other);
    if other != name {
        assert(!seq![name].contains(other)) by {
            if seq![name].contains(other) {
                let k = choose|k: int| 0 <= k < 1 && seq![name][k] == other;
                assert(seq![name][k] == name);
            }
        }
    }
}

proof fn lemma_digit_value(c: char)
    requires
        '0' <= c <= '9',
    ensures
        digit_value(c) == Some((c as nat - 48) as nat),
{
}

proof fn lemma_decimal_number(digits: Seq<char>)
    requires
        forall|i: int| 0 <= i < digits.len() ==> is_digit(#[trigger] digits[i]),
    ensures
        digits_number(digits, 10) == Some(digits_value(digits)),
    decreases digits.len(),
{
    if digits.len() > 0 {
        let front = digits.drop_last();
        assert forall|i: int| 0 <= i < front.len() implies is_digit(#[trigger] front[i]) by {
            assert(digits[i] == front[i]);
        }
        lemma_decimal_number(front);
        assert(is_digit(digits[digits.len() - 1]));
        lemma_digit_value(digits.last());
    }
}

/// A port that is written in decimal is read as itself. A number above 65535 is no port,
/// and neither is a negative one.
pub proof fn decimal_ports_read_back(number: nat)
    ensures
        port_value(TomlTree::Integer(decimal(number), 10)) == if number <= 65535 {
            Some(number as u16)
        } else {
            None
        },
        port_value(TomlTree::Integer(seq!['+'] + decimal(number), 10)) == port_value(
            TomlTree::Integer(decimal(number), 10),
        ),
        number > 0 ==> port_value(TomlTree::Integer(seq!['-'] + decimal(number), 10)) is None,
{
    let digits = decimal(number);
    lemma_decimal_is_numeral(number);
    assert(is_digit(digits[0]));
    lemma_decimal_number(digits);
    assert((seq!['+'] + digits).skip(1) =~= digits);
    assert((seq!['-'] + digits).skip(1) =~= digits);
    assert((seq!['+'] + digits)[0] == '+');
    assert((seq!['-'] + digits)[0] == '-');
}

/// In every base a digit behind a number counts once and the digits before it as many times
/// as the base says, the letters go on where the digits end, and case does not matter.
pub proof fn numbers_are_positional(front: Seq<char>, digit: nat, radix: nat)
    requires
        digit < radix <= 16,
    ensures
        digits_number(Seq::empty(), radix) == Some(0nat),
        digits_number(front, radix) matches Some(number) ==> digits_number(
            front.push("0123456789abcdef"@[digit as int]),
            radix,
        ) == Some(number * radix + digit),
        digits_number(front, radix) matches Some(number) ==> digits_number(
            front.push("0123456789ABCDEF"@[digit as int]),
            radix,
        ) == Some(number * radix + digit),
        digits_number(front.push('g'), radix) is None,
        digits_number(front.push('_'), radix) is None,
{
    reveal_strlit("0123456789abcdef");
    reveal_strlit("0123456789ABCDEF");
    let low = "0123456789abcdef"@[digit as int];
    let high = "0123456789ABCDEF"@[digit as int];
    assert(digit_value(low) == Some(digit));
    assert(digit_value(high) == Some(digit));
    assert(front.push(low).drop_last() =~= front);
    assert(front.push(high).drop_last() =~= front);
    assert(front.push('g').drop_last() =~= front);
    assert(front.push('_').drop_last() =~= front);
}

/// Only a text is read as a text, and only an integer as a port.
pub proof fn kinds_are_not_mixed(tree: TomlTree, text: Seq<char>)
    ensures
        text_value(tree) == Some(text) <==> tree == TomlTree::Text(text),
        port_value(tree) is Some ==> tree is Integer,
{
}

/// What bytes hold is the document of the text that they encode. Bytes that encode no text
/// are told apart from a text that is no document.
pub proof fn documents_are_read_as_utf8(text: Seq<char>, bytes: Seq<u8>)
    ensures
        toml_document(text) matches Some(tree) ==> document_in(encode_utf8(text)) == Ok::<
            TomlTree,
            SourceError,
        >(tree),
        toml_document(text) is None ==> document_in(encode_utf8(text)) == Err::<
            TomlTree,
            SourceError,
        >(SourceError::NotToml),
        document_in(bytes) == Err::<TomlTree, SourceError>(SourceError::NotUtf8) <==> !valid_utf8(
            bytes,
        ),
{
    encode_utf8_valid_utf8(text);
    encode_utf8_decode_utf8(text);
}

/// The tree of a value is made of the trees of what it holds, in order, and of its texts.
pub proof fn values_are_shown_as_they_are(
    text: String,
    radix: u32,
    items: Vec<TomlValue>,
    entries: Vec<(String, TomlValue)>,
    i: int,
    bytes: Vec<u8>,
    error: SourceError,
    value: TomlValue,
)
    ensures
        TomlValue::Text(text).tree() == TomlTree::Text(text@),
        TomlValue::Integer(text, radix).tree() == TomlTree::Integer(text@, radix),
        TomlValue::Other.tree() == TomlTree::Other,
        TomlValue::Array(items).tree() matches TomlTree::Array(trees) && trees.len() == items@.len()
            && (0 <= i < trees.len() ==> trees[i] == items@[i].tree()),
        TomlValue::Table(entries).tree() matches TomlTree::Table(fields) && fields.len()
            == entries@.len() && (0 <= i < fields.len() ==> fields[i] == (
            entries@[i].0@,
            entries@[i].1.tree(),
        )),
        bytes_of(Some(bytes)) == Some(bytes@),
        bytes_of(None) is None,
        document_tree(Ok(value)) == Ok::<TomlTree, SourceError>(value.tree()),
        document_tree(Err(error)) == Err::<TomlTree, SourceError>(error),
{
}

/// A text is read as a number of its base, behind a sign or not. It is a port exactly when the
/// number has no sign but a plus, or is zero, and is at most 65535.
pub proof fn signs_stand_in_front(digits: Seq<char>, radix: u32)
    requires
        digits.len() > 0,
        digits[0] != '+',
        digits[0] != '-',
    ensures
        port_value(TomlTree::Integer(digits, radix)) == match digits_number(digits, radix as nat) {
            Some(number) => if number <= 65535 {
                Some(number as u16)
            } else {
                None
            },
            None => None,
        },
        port_value(TomlTree::Integer(seq!['+'] + digits, radix)) == port_value(
            TomlTree::Integer(digits, radix),
        ),
        port_value(TomlTree::Integer(seq!['-'] + digits, radix)) == if digits_number(
            digits,
            radix as nat,
        ) == Some(0nat) {
            Some(0u16)
        } else {
            None
        },
        port_value(TomlTree::Integer(Seq::empty(), radix)) is None,
        port_value(TomlTree::Integer(seq!['+'], radix)) is None,
        port_value(TomlTree::Integer(seq!['-'], radix)) is None,
{
    assert((seq!['+'] + digits).skip(1) =~= digits);
    assert((seq!['-'] + digits).skip(1) =~= digits);
    assert((seq!['+'] + digits)[0] == '+');
    assert((seq!['-'] + digits)[0] == '-');
    assert(seq!['+'].skip(1).len() == 0 && seq!['+'][0] == '+');
    assert(seq!['-'].skip(1).len() == 0 && seq!['-'][0] == '-');
}

} // verus!
