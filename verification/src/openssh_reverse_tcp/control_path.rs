//! The control socket path of a destination.

use crate::failure::Failure;
use crate::names::{is_blank, no_blank};
use crate::openssh_reverse_tcp::configuration::{
    valid_publication, ProviderModel, ProviderPublication,
};
use crate::paths::{
    extend, file_name, is_below, join_path, joined, joined_entries_are_below, path_file_name,
    path_is_below, split_bytes, trim_path, trimmed, trimmed_paths_are_the_same,
};
use crate::text::{ascii_bytes, ascii_bytes_are_utf8, split, starts_with};
use vstd::prelude::*;
use vstd::utf8::{encode_scalar, encode_utf8, encode_utf8_decode_utf8};

verus! {

/// The number of bytes that a Unix socket address has for a path.
pub const UNIX_SOCKET_PATH_CAPACITY: usize = 108;

/// The number of bytes that OpenSSH appends to a control path while it binds it.
pub const OPENSSH_CONTROL_PATH_TEMPORARY_SUFFIX_LENGTH: usize = 17;

/// The offset basis of the 64-bit FNV-1a hash.
pub const FNV1A_64_OFFSET_BASIS: u64 = 0xcbf29ce484222325;

/// The prime of the 64-bit FNV-1a hash.
pub const FNV1A_64_PRIME: u64 = 0x00000100000001b3;

/// What became of an `ssh` command.
pub enum SshReply {
    ExecutableMissing,
    Failed,
    Exited { success: bool, stdout: Vec<u8>, stderr: Vec<u8> },
}

/// The FNV-1a hash that starts from `hash`.
pub open spec fn fnv1a(hash: u64, bytes: Seq<u8>) -> u64
    decreases bytes.len(),
{
    if bytes.len() == 0 {
        hash
    } else {
        (fnv1a(hash, bytes.drop_last()) ^ (bytes.last() as u64)).wrapping_mul(FNV1A_64_PRIME)
    }
}

/// The bytes that stand for a destination: host and user, each closed by a zero byte,
/// and the SSH port, the high byte first.
pub open spec fn destination_bytes(publication: ProviderModel) -> Seq<u8> {
    encode_utf8(publication.host).push(0) + encode_utf8(publication.user).push(0) + seq![
        (publication.ssh_port / 256) as u8,
        (publication.ssh_port % 256) as u8,
    ]
}

/// The hash of a destination.
pub open spec fn destination_hash(publication: ProviderModel) -> u64 {
    fnv1a(FNV1A_64_OFFSET_BASIS, destination_bytes(publication))
}

fn hash_bytes(hash: u64, bytes: &[u8]) -> (result: u64)
    ensures
        result == fnv1a(hash, bytes@),
{
    let mut result: u64 = hash;
    let mut i: usize = 0;
    while i < bytes.len()
        invariant
            i <= bytes.len(),
            result == fnv1a(hash, bytes@.take(i as int)),
        decreases bytes.len() - i,
    {
        assert(bytes@.take(i + 1).drop_last() =~= bytes@.take(i as int));
        result = (result ^ (bytes[i] as u64)).wrapping_mul(FNV1A_64_PRIME);
        i = i + 1;
    }
    assert(bytes@.take(bytes@.len() as int) =~= bytes@);
    result
}

/// The hash of the destination as it is written, without resolving its host.
pub fn lexical_destination_hash(publication: &ProviderPublication) -> (hash: u64)
    ensures
        hash == destination_hash(publication.deep_view()),
{
    let mut bytes: Vec<u8> = Vec::new();
    extend(&mut bytes, publication.host.as_str().as_bytes());
    bytes.push(0);
    extend(&mut bytes, publication.user.as_str().as_bytes());
    bytes.push(0);
    bytes.push((publication.ssh_port / 256) as u8);
    bytes.push((publication.ssh_port % 256) as u8);
    assert(bytes@ =~= destination_bytes(publication.deep_view()));
    hash_bytes(FNV1A_64_OFFSET_BASIS, &bytes)
}

/// The text in front of the control path in the output of `ssh -G`: `controlpath `.
pub open spec fn control_path_keyword() -> Seq<u8> {
    seq![99, 111, 110, 116, 114, 111, 108, 112, 97, 116, 104, 32]
}

/// What follows the keyword in the lines that begin with it.
pub open spec fn control_paths(lines: Seq<Seq<u8>>) -> Seq<Seq<u8>>
    decreases lines.len(),
{
    if lines.len() == 0 {
        Seq::empty()
    } else {
        let before = control_paths(lines.drop_last());
        if starts_with(lines.last(), control_path_keyword()) {
            before.push(lines.last().skip(control_path_keyword().len() as int))
        } else {
            before
        }
    }
}

/// The one control path that an output names.
pub open spec fn printed_control_path(stdout: Seq<u8>) -> Option<Seq<u8>> {
    let paths = control_paths(split(stdout, 10));
    if paths.len() == 1 && paths[0].len() > 0 {
        Some(paths[0])
    } else {
        None
    }
}

/// What follows the keyword in a line that begins with it.
fn path_in_line(line: &Vec<u8>) -> (path: Option<Vec<u8>>)
    ensures
        match path {
            Some(path) => starts_with(line@, control_path_keyword()) && path@ == line@.skip(
                control_path_keyword().len() as int,
            ),
            None => !starts_with(line@, control_path_keyword()),
        },
{
    let keyword: [u8; 12] = [99, 111, 110, 116, 114, 111, 108, 112, 97, 116, 104, 32];
    assert(keyword@ =~= control_path_keyword());
    if line.len() < 12 {
        return None;
    }
    let mut i: usize = 0;
    while i < 12
        invariant
            i <= 12 <= line.len(),
            keyword@ == control_path_keyword(),
            forall|j: int| 0 <= j < i ==> line@[j] == keyword@[j],
        decreases 12 - i,
    {
        if line[i] != keyword[i] {
            assert(line@.take(12)[i as int] != keyword@[i as int]);
            return None;
        }
        i = i + 1;
    }
    assert(line@.take(12) =~= control_path_keyword());
    let mut path: Vec<u8> = Vec::new();
    extend(&mut path, vstd::slice::slice_subrange(line, 12, line.len()));
    assert(path@ =~= line@.skip(12));
    Some(path)
}

/// Reads the one control path that an output of `ssh -G` names.
pub fn parse_control_path(stdout: &[u8]) -> (path: Option<Vec<u8>>)
    ensures
        match path {
            Some(path) => printed_control_path(stdout@) == Some(path@),
            None => printed_control_path(stdout@) is None,
        },
{
    let lines = split_bytes(stdout, 10);
    let ghost model = split(stdout@, 10);
    let mut paths: Vec<Vec<u8>> = Vec::new();
    let mut i: usize = 0;
    assert(paths.deep_view() =~= Seq::empty());
    while i < lines.len()
        invariant
            i <= lines.len(),
            lines.deep_view() == model,
            paths.deep_view() == control_paths(model.take(i as int)),
        decreases lines.len() - i,
    {
        assert(model.take(i + 1).drop_last() =~= model.take(i as int));
        assert(model.take(i + 1).last() =~= lines@[i as int]@);
        if let Some(path) = path_in_line(&lines[i]) {
            let ghost before = paths.deep_view();
            let ghost last = path@;
            paths.push(path);
            assert(paths.deep_view() =~= before.push(last)) by {
                assert(paths@.last().deep_view() =~= last);
            }
        }
        i = i + 1;
    }
    assert(model.take(model.len() as int) =~= model);
    assert(paths.deep_view().len() == paths.len());
    if paths.len() == 1 {
        match paths.pop() {
            Some(path) => {
                assert(control_paths(model)[0] =~= path@);
                if path.len() > 0 {
                    return Some(path);
                }
            },
            None => {},
        }
    }
    None
}

/// The byte of a lowercase hexadecimal digit.
pub open spec fn hex_digit(digit: u64) -> u8 {
    if digit < 10 {
        (48 + digit) as u8
    } else {
        (87 + digit) as u8
    }
}

/// The sixteen hexadecimal digits of a number.
pub open spec fn hex16(number: u64) -> Seq<u8> {
    Seq::new(16, |i: int| hex_digit((number >> ((60 - 4 * i) as u64)) & 15))
}

fn push_hex16(bytes: &mut Vec<u8>, number: u64)
    ensures
        final(bytes)@ == old(bytes)@ + hex16(number),
{
    let mut i: u64 = 0;
    assert(bytes@ =~= old(bytes)@ + hex16(number).take(0));
    while i < 16
        invariant
            i <= 16,
            bytes@ == old(bytes)@ + hex16(number).take(i as int),
        decreases 16 - i,
    {
        let shift: u64 = 60 - 4 * i;
        let digit: u64 = (number >> shift) & 15;
        assert((number >> shift) & 15 <= 15) by (bit_vector);
        let byte: u8 = if digit < 10 {
            48 + digit as u8
        } else {
            87 + digit as u8
        };
        bytes.push(byte);
        i = i + 1;
        assert(bytes@ =~= old(bytes)@ + hex16(number).take(i as int));
    }
    assert(hex16(number).take(16) =~= hex16(number));
}

/// Whether a byte is a lower-case hexadecimal digit.
pub open spec fn is_lower_hex(byte: u8) -> bool {
    48 <= byte <= 57 || 97 <= byte <= 102
}

/// A name of the form `cm-%C`, with the forty hexadecimal digits that OpenSSH puts in
/// place of `%C`.
pub open spec fn is_connection_name(name: Seq<u8>) -> bool {
    &&& name.len() == 43
    &&& name[0] == 99 && name[1] == 109 && name[2] == 45
    &&& forall|i: int| 3 <= i < 43 ==> is_lower_hex(#[trigger] name[i])
}

fn name_is_connection_name(name: &Vec<u8>) -> (valid: bool)
    ensures
        valid == is_connection_name(name@),
{
    if name.len() != 43 || name[0] != 99 || name[1] != 109 || name[2] != 45 {
        return false;
    }
    let mut i: usize = 3;
    while i < 43
        invariant
            3 <= i <= 43 == name.len(),
            forall|j: int| 3 <= j < i ==> is_lower_hex(#[trigger] name@[j]),
        decreases 43 - i,
    {
        let byte: u8 = name[i];
        if !((48 <= byte && byte <= 57) || (97 <= byte && byte <= 102)) {
            assert(!is_lower_hex(name@[i as int]));
            return false;
        }
        i = i + 1;
    }
    true
}

/// The name of a control socket: `cm-`, the destination hash, and the last digits of
/// the name that OpenSSH gives.
pub open spec fn control_name(hash: u64, connection_name: Seq<u8>) -> Seq<u8> {
    seq![99u8, 109, 45] + hex16(hash) + connection_name.skip(19)
}

/// The control path of a destination, given the output of `ssh -G`.
pub open spec fn control_path(
    runtime_directory: Seq<u8>,
    stdout: Seq<u8>,
    publication: ProviderModel,
) -> Option<Seq<u8>> {
    match printed_control_path(stdout) {
        Some(printed) => match file_name(printed) {
            Some(name) => {
                let path = joined(
                    trimmed(runtime_directory),
                    control_name(destination_hash(publication), name),
                );
                if is_below(printed, runtime_directory) && is_connection_name(name) && path.len()
                    + OPENSSH_CONTROL_PATH_TEMPORARY_SUFFIX_LENGTH < UNIX_SOCKET_PATH_CAPACITY {
                    Some(path)
                } else {
                    None
                }
            },
            None => None,
        },
        None => None,
    }
}

/// The control path of a destination, given what became of `ssh -G`.
pub open spec fn expansion(
    reply: SshReply,
    runtime_directory: Seq<u8>,
    publication: ProviderModel,
) -> Result<Seq<u8>, Failure> {
    match reply {
        SshReply::ExecutableMissing => Err(Failure::SshMissing),
        SshReply::Failed => Err(Failure::ControlPathUnresolved),
        SshReply::Exited { success, stdout, stderr } => if !success {
            Err(Failure::ControlPathUnresolved)
        } else {
            match control_path(runtime_directory, stdout@, publication) {
                Some(path) => Ok(path),
                None => Err(Failure::ControlPathUnresolved),
            }
        },
    }
}

/// The mathematical model of a result.
pub open spec fn path_result(result: Result<Vec<u8>, Failure>) -> Result<Seq<u8>, Failure> {
    match result {
        Ok(path) => Ok(path@),
        Err(failure) => Err(failure),
    }
}

/// Derives the control path of a destination from what became of `ssh -G`.
pub fn expand_control_path(
    reply: &SshReply,
    runtime_directory: &Vec<u8>,
    publication: &ProviderPublication,
) -> (path: Result<Vec<u8>, Failure>)
    ensures
        path_result(path) == expansion(*reply, runtime_directory@, publication.deep_view()),
{
    let printed = match reply {
        SshReply::ExecutableMissing => {
            return Err(Failure::SshMissing);
        },
        SshReply::Failed => {
            return Err(Failure::ControlPathUnresolved);
        },
        SshReply::Exited { success, stdout, stderr } => {
            if !*success {
                return Err(Failure::ControlPathUnresolved);
            }
            match parse_control_path(stdout) {
                Some(printed) => printed,
                None => {
                    return Err(Failure::ControlPathUnresolved);
                },
            }
        },
    };
    let connection_name = match path_file_name(&printed) {
        Some(name) => name,
        None => {
            return Err(Failure::ControlPathUnresolved);
        },
    };
    if !path_is_below(&printed, runtime_directory) || !name_is_connection_name(&connection_name) {
        return Err(Failure::ControlPathUnresolved);
    }
    let mut name: Vec<u8> = Vec::new();
    name.push(99);
    name.push(109);
    name.push(45);
    push_hex16(&mut name, lexical_destination_hash(publication));
    let tail: &[u8] = vstd::slice::slice_subrange(&connection_name, 19, connection_name.len());
    assert(tail@ =~= connection_name@.skip(19));
    extend(&mut name, tail);
    assert(name@ =~= control_name(
        destination_hash(publication.deep_view()),
        connection_name@,
    ));
    let path = join_path(&trim_path(runtime_directory), &name);
    if path.len() >= UNIX_SOCKET_PATH_CAPACITY - OPENSSH_CONTROL_PATH_TEMPORARY_SUFFIX_LENGTH {
        return Err(Failure::ControlPathUnresolved);
    }
    Ok(path)
}

proof fn lemma_nibble(number: u64, shift: u64)
    ensures
        (number >> shift) & 15 <= 15,
{
    assert((number >> shift) & 15 <= 15) by (bit_vector);
}

proof fn lemma_nibbles(a: u64, b: u64)
    requires
        (a >> 60u64) & 15 == (b >> 60u64) & 15,
        (a >> 56u64) & 15 == (b >> 56u64) & 15,
        (a >> 52u64) & 15 == (b >> 52u64) & 15,
        (a >> 48u64) & 15 == (b >> 48u64) & 15,
        (a >> 44u64) & 15 == (b >> 44u64) & 15,
        (a >> 40u64) & 15 == (b >> 40u64) & 15,
        (a >> 36u64) & 15 == (b >> 36u64) & 15,
        (a >> 32u64) & 15 == (b >> 32u64) & 15,
        (a >> 28u64) & 15 == (b >> 28u64) & 15,
        (a >> 24u64) & 15 == (b >> 24u64) & 15,
        (a >> 20u64) & 15 == (b >> 20u64) & 15,
        (a >> 16u64) & 15 == (b >> 16u64) & 15,
        (a >> 12u64) & 15 == (b >> 12u64) & 15,
        (a >> 8u64) & 15 == (b >> 8u64) & 15,
        (a >> 4u64) & 15 == (b >> 4u64) & 15,
        (a >> 0u64) & 15 == (b >> 0u64) & 15,
    ensures
        a == b,
{
    assert(a == b) by (bit_vector)
        requires
            (a >> 60u64) & 15 == (b >> 60u64) & 15,
            (a >> 56u64) & 15 == (b >> 56u64) & 15,
            (a >> 52u64) & 15 == (b >> 52u64) & 15,
            (a >> 48u64) & 15 == (b >> 48u64) & 15,
            (a >> 44u64) & 15 == (b >> 44u64) & 15,
            (a >> 40u64) & 15 == (b >> 40u64) & 15,
            (a >> 36u64) & 15 == (b >> 36u64) & 15,
            (a >> 32u64) & 15 == (b >> 32u64) & 15,
            (a >> 28u64) & 15 == (b >> 28u64) & 15,
            (a >> 24u64) & 15 == (b >> 24u64) & 15,
            (a >> 20u64) & 15 == (b >> 20u64) & 15,
            (a >> 16u64) & 15 == (b >> 16u64) & 15,
            (a >> 12u64) & 15 == (b >> 12u64) & 15,
            (a >> 8u64) & 15 == (b >> 8u64) & 15,
            (a >> 4u64) & 15 == (b >> 4u64) & 15,
            (a >> 0u64) & 15 == (b >> 0u64) & 15,
    ;
}

proof fn lemma_same_nibble(a: u64, b: u64, i: int, shift: u64)
    requires
        hex16(a) == hex16(b),
        0 <= i < 16,
        shift == 60 - 4 * i,
    ensures
        (a >> shift) & 15 == (b >> shift) & 15,
{
    lemma_nibble(a, shift);
    lemma_nibble(b, shift);
    let x = (a >> shift) & 15;
    let y = (b >> shift) & 15;
    assert(hex16(a)[i] == hex_digit(x));
    assert(hex16(b)[i] == hex_digit(y));
}

/// Numbers with the same hexadecimal digits are the same.
pub proof fn hex16_is_injective(a: u64, b: u64)
    requires
        hex16(a) == hex16(b),
    ensures
        a == b,
{
    lemma_same_nibble(a, b, 0, 60);
    lemma_same_nibble(a, b, 1, 56);
    lemma_same_nibble(a, b, 2, 52);
    lemma_same_nibble(a, b, 3, 48);
    lemma_same_nibble(a, b, 4, 44);
    lemma_same_nibble(a, b, 5, 40);
    lemma_same_nibble(a, b, 6, 36);
    lemma_same_nibble(a, b, 7, 32);
    lemma_same_nibble(a, b, 8, 28);
    lemma_same_nibble(a, b, 9, 24);
    lemma_same_nibble(a, b, 10, 20);
    lemma_same_nibble(a, b, 11, 16);
    lemma_same_nibble(a, b, 12, 12);
    lemma_same_nibble(a, b, 13, 8);
    lemma_same_nibble(a, b, 14, 4);
    lemma_same_nibble(a, b, 15, 0);
    lemma_nibbles(a, b);
}

/// A control socket is named like the connection name it is derived from.
pub proof fn control_names_are_well_formed(hash: u64, name: Seq<u8>)
    requires
        is_connection_name(name),
    ensures
        is_connection_name(control_name(hash, name)),
{
    let derived = control_name(hash, name);
    assert forall|i: int| 3 <= i < 43 implies is_lower_hex(#[trigger] derived[i]) by {
        if i < 19 {
            lemma_nibble(hash, (60 - 4 * (i - 3)) as u64);
            assert(derived[i] == hex16(hash)[i - 3]);
        } else {
            assert(derived[i] == name[i]);
        }
    }
}

/// Control sockets of destinations with different hashes have different names.
pub proof fn control_names_show_the_hash(
    hash: u64,
    name: Seq<u8>,
    other_hash: u64,
    other_name: Seq<u8>,
)
    requires
        control_name(hash, name) == control_name(other_hash, other_name),
    ensures
        hash == other_hash,
{
    let left = control_name(hash, name);
    let right = control_name(other_hash, other_name);
    assert(left.subrange(3, 19) =~= hex16(hash));
    assert(right.subrange(3, 19) =~= hex16(other_hash));
    hex16_is_injective(hash, other_hash);
}

/// A control path lies directly in the runtime directory, under a name that is derived
/// from the destination, and leaves room for the suffix that OpenSSH appends.
pub proof fn control_paths_lie_in_the_runtime_directory(
    runtime_directory: Seq<u8>,
    stdout: Seq<u8>,
    publication: ProviderModel,
    path: Seq<u8>,
)
    requires
        control_path(runtime_directory, stdout, publication) == Some(path),
    ensures
        is_below(path, runtime_directory),
        file_name(path) matches Some(name) && is_connection_name(name) && name.take(19) == seq![
            99u8,
            109,
            45,
        ] + hex16(destination_hash(publication)),
        path.len() + OPENSSH_CONTROL_PATH_TEMPORARY_SUFFIX_LENGTH < UNIX_SOCKET_PATH_CAPACITY,
{
    let printed = printed_control_path(stdout)->0;
    let connection_name = file_name(printed)->0;
    let hash = destination_hash(publication);
    let name = control_name(hash, connection_name);
    control_names_are_well_formed(hash, connection_name);
    assert(!name.contains(crate::paths::SEPARATOR)) by {
        if name.contains(crate::paths::SEPARATOR) {
            let k = choose|k: int| 0 <= k < name.len() && name[k] == crate::paths::SEPARATOR;
            assert(3 <= k ==> is_lower_hex(name[k]));
        }
    }
    joined_entries_are_below(trimmed(runtime_directory), name);
    trimmed_paths_are_the_same(runtime_directory);
    assert(name.take(19) =~= seq![99u8, 109, 45] + hex16(hash));
}

proof fn lemma_encoding_has_no_zero(text: Seq<char>)
    requires
        forall|i: int| 0 <= i < text.len() ==> #[trigger] text[i] != '\0',
    ensures
        forall|i: int| 0 <= i < encode_utf8(text).len() ==> #[trigger] encode_utf8(text)[i] != 0,
    decreases text.len(),
{
    if text.len() > 0 {
        let rest = text.drop_first();
        assert forall|i: int| 0 <= i < rest.len() implies #[trigger] rest[i] != '\0' by {
            assert(rest[i] == text[i + 1]);
        }
        lemma_encoding_has_no_zero(rest);
        assert(text[0] != '\0');
        let scalar = text[0] as u32;
        lemma_char_is_not_zero(text[0]);
        lemma_scalar_has_no_zero(scalar);
        let first = encode_scalar(scalar);
        assert forall|i: int| 0 <= i < encode_utf8(text).len() implies #[trigger] encode_utf8(
            text,
        )[i] != 0 by {
            if i < first.len() {
                assert(encode_utf8(text)[i] == first[i]);
            } else {
                assert(encode_utf8(text)[i] == encode_utf8(rest)[i - first.len()]);
            }
        }
    }
}

proof fn lemma_char_is_not_zero(c: char)
    requires
        c != '\0',
    ensures
        c as u32 != 0,
{
}

proof fn lemma_scalar_has_no_zero(scalar: u32)
    requires
        scalar != 0,
    ensures
        forall|i: int| 0 <= i < encode_scalar(scalar).len() ==> #[trigger] encode_scalar(scalar)[i]
            != 0,
{
    assert(scalar <= 0x7f && scalar != 0 ==> (scalar & 0x7F) as u8 != 0) by (bit_vector);
    assert(0xC0u8 | ((scalar >> 6) & 0x1F) as u8 != 0) by (bit_vector);
    assert(0xE0u8 | ((scalar >> 12) & 0x0F) as u8 != 0) by (bit_vector);
    assert(0xF0u8 | ((scalar >> 18) & 0x7) as u8 != 0) by (bit_vector);
    assert(0x80u8 | (scalar & 0x3F) as u8 != 0) by (bit_vector);
    assert(0x80u8 | ((scalar >> 6) & 0x3F) as u8 != 0) by (bit_vector);
    assert(0x80u8 | ((scalar >> 12) & 0x3F) as u8 != 0) by (bit_vector);
}

proof fn lemma_closed_fronts(left: Seq<u8>, left_rest: Seq<u8>, right: Seq<u8>, right_rest: Seq<u8>)
    requires
        forall|i: int| 0 <= i < left.len() ==> #[trigger] left[i] != 0,
        forall|i: int| 0 <= i < right.len() ==> #[trigger] right[i] != 0,
        left.push(0) + left_rest == right.push(0) + right_rest,
    ensures
        left == right,
        left_rest == right_rest,
{
    let whole = left.push(0) + left_rest;
    let other = right.push(0) + right_rest;
    if left.len() < right.len() {
        assert(whole[left.len() as int] == 0);
        assert(other[left.len() as int] == right[left.len() as int]);
    } else if right.len() < left.len() {
        assert(other[right.len() as int] == 0);
        assert(whole[right.len() as int] == left[right.len() as int]);
    }
    assert(whole.take(left.len() as int) =~= left);
    assert(other.take(right.len() as int) =~= right);
    assert(whole.skip(left.len() as int + 1) =~= left_rest);
    assert(other.skip(right.len() as int + 1) =~= right_rest);
}

/// The bytes of valid destinations tell host, user and port apart: no two different
/// destinations are hashed from the same bytes.
pub proof fn destination_bytes_are_injective(left: ProviderModel, right: ProviderModel)
    requires
        valid_publication(left),
        valid_publication(right),
        destination_bytes(left) == destination_bytes(right),
    ensures
        left.host == right.host,
        left.user == right.user,
        left.ssh_port == right.ssh_port,
{
    lemma_no_blank_has_no_zero(left.host);
    lemma_no_blank_has_no_zero(left.user);
    lemma_no_blank_has_no_zero(right.host);
    lemma_no_blank_has_no_zero(right.user);
    lemma_encoding_has_no_zero(left.host);
    lemma_encoding_has_no_zero(left.user);
    lemma_encoding_has_no_zero(right.host);
    lemma_encoding_has_no_zero(right.user);
    let left_port = seq![(left.ssh_port / 256) as u8, (left.ssh_port % 256) as u8];
    let right_port = seq![(right.ssh_port / 256) as u8, (right.ssh_port % 256) as u8];
    let left_rest = encode_utf8(left.user).push(0) + left_port;
    let right_rest = encode_utf8(right.user).push(0) + right_port;
    assert(destination_bytes(left) =~= encode_utf8(left.host).push(0) + left_rest);
    assert(destination_bytes(right) =~= encode_utf8(right.host).push(0) + right_rest);
    lemma_closed_fronts(encode_utf8(left.host), left_rest, encode_utf8(right.host), right_rest);
    lemma_closed_fronts(encode_utf8(left.user), left_port, encode_utf8(right.user), right_port);
    encode_utf8_decode_utf8(left.host);
    encode_utf8_decode_utf8(right.host);
    encode_utf8_decode_utf8(left.user);
    encode_utf8_decode_utf8(right.user);
    assert(left_port[0] == right_port[0] && left_port[1] == right_port[1]);
}

proof fn lemma_no_blank_has_no_zero(text: Seq<char>)
    requires
        no_blank(text),
    ensures
        forall|i: int| 0 <= i < text.len() ==> #[trigger] text[i] != '\0',
{
    assert forall|i: int| 0 <= i < text.len() implies #[trigger] text[i] != '\0' by {
        assert(!is_blank(text[i]));
    }
}

/// The control path belongs to the destination: publications to the same host, user and
/// SSH port share it, whatever service and listener they are for.
pub proof fn control_paths_belong_to_destinations(
    runtime_directory: Seq<u8>,
    stdout: Seq<u8>,
    left: ProviderModel,
    right: ProviderModel,
)
    requires
        left.host == right.host,
        left.user == right.user,
        left.ssh_port == right.ssh_port,
    ensures
        control_path(runtime_directory, stdout, left) == control_path(
            runtime_directory,
            stdout,
            right,
        ),
{
    assert(destination_bytes(left) =~= destination_bytes(right));
}

/// The hash of a destination is the 64-bit FNV-1a hash of its bytes: from the offset basis
/// on, each byte is mixed in and the whole multiplied by the prime.
pub proof fn destinations_are_hashed_byte_by_byte(
    publication: ProviderModel,
    hash: u64,
    bytes: Seq<u8>,
    byte: u8,
)
    ensures
        fnv1a(hash, Seq::empty()) == hash,
        fnv1a(hash, bytes.push(byte)) == (fnv1a(hash, bytes) ^ (byte as u64)).wrapping_mul(
            0x100000001b3,
        ),
        destination_hash(publication) == fnv1a(
            0xcbf29ce484222325,
            encode_utf8(publication.host) + seq![0u8] + encode_utf8(publication.user) + seq![0u8]
                + seq![(publication.ssh_port / 256) as u8, (publication.ssh_port % 256) as u8],
        ),
{
    assert(bytes.push(byte).drop_last() =~= bytes);
    assert(destination_bytes(publication) =~= encode_utf8(publication.host) + seq![0u8]
        + encode_utf8(publication.user) + seq![0u8] + seq![
        (publication.ssh_port / 256) as u8,
        (publication.ssh_port % 256) as u8,
    ]);
}

/// The service, the listen address and the listen port are no part of a destination, so that
/// forwards to one destination share its hash.
pub proof fn destinations_leave_out_the_listener(left: ProviderModel, right: ProviderModel)
    requires
        left.host == right.host,
        left.user == right.user,
        left.ssh_port == right.ssh_port,
    ensures
        destination_hash(left) == destination_hash(right),
{
}

/// The digits of a hash, the highest first.
pub proof fn hashes_are_written_in_hexadecimal(number: u64, i: int)
    requires
        0 <= i < 16,
    ensures
        hex16(number).len() == 16,
        hex16(number)[i] as char == "0123456789abcdef"@[((number >> ((60 - 4 * i) as u64)) & 15) as int],
{
    reveal_strlit("0123456789abcdef");
    lemma_nibble(number, (60 - 4 * i) as u64);
}

proof fn lemma_control_paths(lines: Seq<Seq<u8>>)
    ensures
        control_paths(lines).len() <= lines.len(),
        control_paths(lines).len() == 0 <==> forall|i: int|
            0 <= i < lines.len() ==> !starts_with(#[trigger] lines[i], control_path_keyword()),
        control_paths(lines).len() == 1 ==> exists|i: int|
            0 <= i < lines.len() && only_line(lines, #[trigger] lines[i], i) && control_paths(
                lines,
            )[0] == lines[i].skip(12),
        forall|i: int|
            0 <= i < lines.len() && #[trigger] only_line(lines, lines[i], i) ==> control_paths(lines)
                == seq![lines[i].skip(12)],
    decreases lines.len(),
{
    assert(control_path_keyword().len() == 12);
    if lines.len() > 0 {
        let before = lines.drop_last();
        let n = lines.len() - 1;
        lemma_control_paths(before);
        assert forall|i: int| 0 <= i < n implies lines[i] == before[i] by {}
        if control_paths(lines).len() == 0 {
            assert forall|i: int| 0 <= i < lines.len() implies !starts_with(
                #[trigger] lines[i],
                control_path_keyword(),
            ) by {
                if i < n {
                    assert(!starts_with(before[i], control_path_keyword()));
                }
            }
        }
        if forall|i: int|
            0 <= i < lines.len() ==> !starts_with(#[trigger] lines[i], control_path_keyword()) {
            assert(!starts_with(lines[n], control_path_keyword()));
            assert forall|i: int| 0 <= i < before.len() implies !starts_with(
                #[trigger] before[i],
                control_path_keyword(),
            ) by {
                assert(!starts_with(lines[i], control_path_keyword()));
            }
        }
        if control_paths(lines).len() == 1 {
            if starts_with(lines[n], control_path_keyword()) {
                assert forall|j: int| 0 <= j < lines.len() && j != n implies !starts_with(
                    #[trigger] lines[j],
                    control_path_keyword(),
                ) by {
                    assert(!starts_with(before[j], control_path_keyword()));
                }
                assert(only_line(lines, lines[n], n));
            } else {
                let i = choose|i: int|
                    0 <= i < before.len() && only_line(before, #[trigger] before[i], i)
                        && control_paths(before)[0] == before[i].skip(12);
                assert forall|j: int| 0 <= j < lines.len() && j != i implies !starts_with(
                    #[trigger] lines[j],
                    control_path_keyword(),
                ) by {
                    if j < n {
                        assert(!starts_with(before[j], control_path_keyword()));
                    }
                }
                assert(only_line(lines, lines[i], i));
            }
        }
        assert forall|i: int|
            0 <= i < lines.len() && #[trigger] only_line(lines, lines[i], i) implies control_paths(
            lines,
        ) == seq![lines[i].skip(12)] by {
            if i == n {
                assert forall|j: int| 0 <= j < before.len() implies !starts_with(
                    #[trigger] before[j],
                    control_path_keyword(),
                ) by {
                    assert(!starts_with(lines[j], control_path_keyword()));
                }
                assert(control_paths(before) =~= Seq::empty());
                assert(control_paths(lines) =~= seq![lines[i].skip(12)]);
            } else {
                assert(!starts_with(lines[n], control_path_keyword()));
                assert forall|j: int| 0 <= j < before.len() && j != i implies !starts_with(
                    #[trigger] before[j],
                    control_path_keyword(),
                ) by {
                    assert(!starts_with(lines[j], control_path_keyword()));
                }
                assert(only_line(before, before[i], i));
            }
        }
    }
}

/// Whether the line at a place begins with the keyword and no other does.
pub open spec fn only_line(lines: Seq<Seq<u8>>, line: Seq<u8>, i: int) -> bool {
    &&& starts_with(line, control_path_keyword())
    &&& forall|j: int|
        0 <= j < lines.len() && j != i ==> !starts_with(#[trigger] lines[j], control_path_keyword())
}

/// A control path is printed exactly when one line of the output, and no other, begins with
/// `controlpath `, and something follows there.
pub proof fn control_paths_are_printed_once(stdout: Seq<u8>, path: Seq<u8>)
    ensures
        control_path_keyword() == encode_utf8("controlpath "@),
        printed_control_path(stdout) == Some(path) <==> path.len() > 0 && exists|i: int|
            0 <= i < split(stdout, 10u8).len() && #[trigger] split(stdout, 10u8)[i]
                == control_path_keyword() + path && only_line(
                split(stdout, 10u8),
                split(stdout, 10u8)[i],
                i,
            ),
{
    let lines = split(stdout, 10u8);
    let keyword = control_path_keyword();
    reveal_strlit("controlpath ");
    ascii_bytes_are_utf8("controlpath "@);
    assert(ascii_bytes("controlpath "@) =~= keyword);
    lemma_control_paths(lines);
    if printed_control_path(stdout) == Some(path) {
        let i = choose|i: int|
            0 <= i < lines.len() && only_line(lines, #[trigger] lines[i], i) && control_paths(
                lines,
            )[0] == lines[i].skip(12);
        assert(lines[i] =~= keyword + path) by {
            assert(lines[i].take(12) == keyword);
            assert(lines[i] =~= lines[i].take(12) + lines[i].skip(12));
        }
    }
    if path.len() > 0 && exists|i: int|
        0 <= i < lines.len() && #[trigger] lines[i] == keyword + path && only_line(
            lines,
            lines[i],
            i,
        ) {
        let i = choose|i: int|
            0 <= i < lines.len() && #[trigger] lines[i] == keyword + path && only_line(
                lines,
                lines[i],
                i,
            );
        assert(only_line(lines, lines[i], i));
        assert((keyword + path).skip(12) =~= path);
    }
}

/// The control path is accepted exactly when OpenSSH printed one directly in the runtime
/// directory whose name is `cm-` and forty lowercase hexadecimal digits, and the path that is
/// made of it has at most ninety bytes. That path has the same directory, and the sixteen
/// digits of the destination in place of the first sixteen.
pub proof fn control_paths_are_made_of_the_printed_ones(
    runtime_directory: Seq<u8>,
    stdout: Seq<u8>,
    publication: ProviderModel,
    path: Seq<u8>,
)
    ensures
        control_path(runtime_directory, stdout, publication) == Some(path) <==> {
            &&& printed_control_path(stdout) matches Some(printed)
            &&& file_name(printed) matches Some(name)
            &&& is_below(printed, runtime_directory)
            &&& name.len() == 43
            &&& name[0] == 'c' as u8 && name[1] == 'm' as u8 && name[2] == '-' as u8
            &&& forall|i: int|
                3 <= i < 43 ==> (48 <= #[trigger] name[i] <= 57 || 97 <= name[i] <= 102)
            &&& path == joined(
                trimmed(runtime_directory),
                name.take(3) + hex16(destination_hash(publication)) + name.subrange(19, 43),
            )
            &&& path.len() <= 90
        },
{
    if printed_control_path(stdout) is Some && file_name(printed_control_path(stdout)->0) is Some {
        let name = file_name(printed_control_path(stdout)->0)->0;
        if is_connection_name(name) {
            assert(name.take(3) =~= seq![99u8, 109, 45]);
            assert(name.skip(19) =~= name.subrange(19, 43));
            assert forall|i: int| 3 <= i < 43 implies (48 <= #[trigger] name[i] <= 57 || 97
                <= name[i] <= 102) by {
                assert(is_lower_hex(name[i]));
            }
        }
        if name.len() == 43 && name[0] == 99 && name[1] == 109 && name[2] == 45 && (forall|i: int|
            3 <= i < 43 ==> (48 <= #[trigger] name[i] <= 57 || 97 <= name[i] <= 102)) {
            assert(is_connection_name(name));
        }
    }
}

/// A control path is used only when OpenSSH succeeded in printing it. A missing executable is
/// told apart from every other reason not to have one.
pub proof fn only_printed_control_paths_are_used(
    runtime_directory: Seq<u8>,
    publication: ProviderModel,
    success: bool,
    stdout: Vec<u8>,
    stderr: Vec<u8>,
)
    ensures
        expansion(SshReply::ExecutableMissing, runtime_directory, publication) == Err::<
            Seq<u8>,
            Failure,
        >(Failure::SshMissing),
        expansion(SshReply::Failed, runtime_directory, publication) == Err::<Seq<u8>, Failure>(
            Failure::ControlPathUnresolved,
        ),
        expansion((SshReply::Exited { success, stdout, stderr }), runtime_directory, publication)
            == if success && control_path(runtime_directory, stdout@, publication) is Some {
            Ok::<Seq<u8>, Failure>(control_path(runtime_directory, stdout@, publication)->0)
        } else {
            Err::<Seq<u8>, Failure>(Failure::ControlPathUnresolved)
        },
{
}

/// The model of a result is the path that it holds, or its failure.
pub proof fn paths_are_shown_as_they_are(path: Vec<u8>, failure: Failure)
    ensures
        path_result(Ok(path)) == Ok::<Seq<u8>, Failure>(path@),
        path_result(Err(failure)) == Err::<Seq<u8>, Failure>(failure),
{
}

} // verus!
