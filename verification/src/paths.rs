//! Unix paths as bytes: their components, equality and joining.

use crate::text::{split, split_takes_apart};
use vstd::prelude::*;

verus! {

/// The byte that separates the components of a path.
pub const SEPARATOR: u8 = 47;

/// The byte of a dot.
pub const DOT: u8 = 46;

/// Whether a path starts at the root.
pub open spec fn is_absolute(path: Seq<u8>) -> bool {
    path.len() > 0 && path[0] == SEPARATOR
}

/// Whether the piece of a path at an index names a component: it is not empty, and it
/// is a single dot only in front.
pub open spec fn names_component(pieces: Seq<Seq<u8>>, i: int) -> bool {
    pieces[i].len() > 0 && (pieces[i] != seq![DOT] || i == 0)
}

/// The pieces that name components.
pub open spec fn kept_pieces(pieces: Seq<Seq<u8>>) -> Seq<Seq<u8>>
    decreases pieces.len(),
{
    if pieces.len() == 0 {
        Seq::empty()
    } else {
        let before = kept_pieces(pieces.drop_last());
        if names_component(pieces, pieces.len() - 1) {
            before.push(pieces.last())
        } else {
            before
        }
    }
}

/// The components of a path below its root.
pub open spec fn components(path: Seq<u8>) -> Seq<Seq<u8>> {
    kept_pieces(split(path, SEPARATOR))
}

/// Whether two paths are equal component by component.
pub open spec fn same_path(left: Seq<u8>, right: Seq<u8>) -> bool {
    is_absolute(left) == is_absolute(right) && components(left) == components(right)
}

/// The last component of a path, when it names an entry.
pub open spec fn file_name(path: Seq<u8>) -> Option<Seq<u8>> {
    let all = components(path);
    if all.len() > 0 && all.last() != seq![DOT] && all.last() != seq![DOT, DOT] {
        Some(all.last())
    } else {
        None
    }
}

/// Whether the path without its last component is the path `parent`.
pub open spec fn is_below(path: Seq<u8>, parent: Seq<u8>) -> bool {
    &&& components(path).len() > 0
    &&& is_absolute(path) == is_absolute(parent)
    &&& components(path).drop_last() == components(parent)
}

/// The path of a relative name below a directory.
pub open spec fn joined(directory: Seq<u8>, name: Seq<u8>) -> Seq<u8> {
    if directory.len() == 0 || directory.last() == SEPARATOR {
        directory + name
    } else {
        directory.push(SEPARATOR) + name
    }
}

/// A path without the separators and the dots that name nothing at its end. Its root is
/// kept, and so is a dot in front.
pub open spec fn trimmed(path: Seq<u8>) -> Seq<u8>
    decreases path.len(),
{
    if path.len() > 1 && (path.last() == SEPARATOR || (path.last() == DOT && path[path.len() - 2]
        == SEPARATOR)) {
        trimmed(path.drop_last())
    } else {
        path
    }
}

/// Whether two byte strings are equal.
pub fn same_bytes(left: &[u8], right: &[u8]) -> (same: bool)
    ensures
        same == (left@ == right@),
{
    if left.len() != right.len() {
        return false;
    }
    let mut i: usize = 0;
    while i < left.len()
        invariant
            i <= left.len() == right.len(),
            forall|j: int| 0 <= j < i ==> left@[j] == right@[j],
        decreases left.len() - i,
    {
        if left[i] != right[i] {
            return false;
        }
        i = i + 1;
    }
    assert(left@ =~= right@);
    true
}

/// Appends bytes.
pub fn extend(bytes: &mut Vec<u8>, more: &[u8])
    ensures
        final(bytes)@ == old(bytes)@ + more@,
{
    let mut i: usize = 0;
    assert(bytes@ =~= old(bytes)@ + more@.take(0));
    while i < more.len()
        invariant
            i <= more.len(),
            bytes@ == old(bytes)@ + more@.take(i as int),
        decreases more.len() - i,
    {
        bytes.push(more[i]);
        i = i + 1;
        assert(bytes@ =~= old(bytes)@ + more@.take(i as int));
    }
    assert(more@.take(more@.len() as int) =~= more@);
}

/// A copy of bytes.
pub fn copy_bytes(bytes: &[u8]) -> (copied: Vec<u8>)
    ensures
        copied@ == bytes@,
{
    let mut copied: Vec<u8> = Vec::new();
    extend(&mut copied, bytes);
    assert(copied@ =~= bytes@);
    copied
}

/// The pieces of bytes between the separators.
pub fn split_bytes(bytes: &[u8], separator: u8) -> (pieces: Vec<Vec<u8>>)
    ensures
        pieces.deep_view() == split(bytes@, separator),
{
    let mut pieces: Vec<Vec<u8>> = Vec::new();
    let mut piece: Vec<u8> = Vec::new();
    let mut i: usize = 0;
    assert(pieces.deep_view().push(piece@) =~= seq![Seq::<u8>::empty()]);
    while i < bytes.len()
        invariant
            i <= bytes.len(),
            pieces.deep_view().push(piece@) == split(bytes@.take(i as int), separator),
        decreases bytes.len() - i,
    {
        let ghost before = pieces.deep_view().push(piece@);
        assert(bytes@.take(i + 1).drop_last() =~= bytes@.take(i as int));
        assert(before.drop_last() =~= pieces.deep_view());
        if bytes[i] == separator {
            let ghost done = pieces.deep_view();
            let ghost last = piece@;
            pieces.push(piece);
            assert(pieces.deep_view() =~= done.push(last)) by {
                assert(pieces@.last().deep_view() =~= last);
            }
            piece = Vec::new();
            assert(pieces.deep_view().push(piece@) =~= before.push(Seq::empty()));
        } else {
            piece.push(bytes[i]);
        }
        i = i + 1;
    }
    assert(bytes@.take(bytes@.len() as int) =~= bytes@);
    let ghost done = pieces.deep_view();
    let ghost last = piece@;
    pieces.push(piece);
    assert(pieces.deep_view() =~= done.push(last)) by {
        assert(pieces@.last().deep_view() =~= last);
    }
    pieces
}

/// Whether a path starts at the root.
pub fn path_is_absolute(path: &[u8]) -> (absolute: bool)
    ensures
        absolute == is_absolute(path@),
{
    path.len() > 0 && path[0] == SEPARATOR
}

/// The components of a path below its root.
pub fn path_components(path: &[u8]) -> (all: Vec<Vec<u8>>)
    ensures
        all.deep_view() == components(path@),
{
    let pieces = split_bytes(path, SEPARATOR);
    let ghost model = split(path@, SEPARATOR);
    let mut all: Vec<Vec<u8>> = Vec::new();
    let mut i: usize = 0;
    assert(all.deep_view() =~= Seq::empty());
    while i < pieces.len()
        invariant
            i <= pieces.len(),
            pieces.deep_view() == model,
            all.deep_view() == kept_pieces(model.take(i as int)),
        decreases pieces.len() - i,
    {
        assert(model.take(i + 1).drop_last() =~= model.take(i as int));
        assert(model.take(i + 1).last() =~= pieces@[i as int]@);
        let is_dot = pieces[i].len() == 1 && pieces[i][0] == DOT;
        assert(is_dot == (pieces@[i as int]@ == seq![DOT])) by {
            assert(is_dot ==> pieces@[i as int]@ =~= seq![DOT]);
        }
        if pieces[i].len() > 0 && (!is_dot || i == 0) {
            assert(names_component(model.take(i + 1), i as int));
            let ghost before = all.deep_view();
            let copied = copy_bytes(&pieces[i]);
            let ghost last = copied@;
            all.push(copied);
            assert(all.deep_view() =~= before.push(last)) by {
                assert(all@.last().deep_view() =~= last);
            }
        } else {
            assert(!names_component(model.take(i + 1), i as int));
        }
        i = i + 1;
    }
    assert(model.take(model.len() as int) =~= model);
    all
}

/// Whether the first components of a path are the components of another.
fn components_agree(left: &Vec<Vec<u8>>, right: &Vec<Vec<u8>>) -> (agree: bool)
    requires
        right.len() <= left.len(),
    ensures
        agree == (left.deep_view().take(right.len() as int) == right.deep_view()),
{
    let mut i: usize = 0;
    while i < right.len()
        invariant
            i <= right.len() <= left.len(),
            forall|j: int|
                0 <= j < i ==> (#[trigger] left.deep_view()[j]) == right.deep_view()[j],
        decreases right.len() - i,
    {
        assert(left.deep_view()[i as int] =~= left@[i as int]@);
        assert(right.deep_view()[i as int] =~= right@[i as int]@);
        if !same_bytes(&left[i], &right[i]) {
            assert(left.deep_view().take(right.len() as int)[i as int] != right.deep_view()[i as int]);
            return false;
        }
        i = i + 1;
    }
    assert(left.deep_view().take(right.len() as int) =~= right.deep_view());
    true
}

/// Whether two paths are equal component by component.
pub fn paths_are_same(left: &[u8], right: &[u8]) -> (same: bool)
    ensures
        same == same_path(left@, right@),
{
    let left_components = path_components(left);
    let right_components = path_components(right);
    assert(left_components.deep_view().len() == left_components.len());
    assert(right_components.deep_view().len() == right_components.len());
    if path_is_absolute(left) != path_is_absolute(right) || left_components.len()
        != right_components.len() {
        return false;
    }
    assert(left_components.deep_view().take(right_components.len() as int)
        =~= left_components.deep_view());
    components_agree(&left_components, &right_components)
}

/// Whether the path without its last component is the path `parent`.
pub fn path_is_below(path: &[u8], parent: &[u8]) -> (below: bool)
    ensures
        below == is_below(path@, parent@),
{
    let path_parts = path_components(path);
    let parent_parts = path_components(parent);
    assert(path_parts.deep_view().len() == path_parts.len());
    assert(parent_parts.deep_view().len() == parent_parts.len());
    if path_is_absolute(path) != path_is_absolute(parent) || path_parts.len() == 0
        || path_parts.len() - 1 != parent_parts.len() {
        return false;
    }
    assert(path_parts.deep_view().take(parent_parts.len() as int)
        =~= path_parts.deep_view().drop_last());
    components_agree(&path_parts, &parent_parts)
}

/// The last component of a path, when it names an entry.
pub fn path_file_name(path: &[u8]) -> (name: Option<Vec<u8>>)
    ensures
        match name {
            Some(name) => file_name(path@) == Some(name@),
            None => file_name(path@) is None,
        },
{
    let parts = path_components(path);
    if parts.len() == 0 {
        return None;
    }
    let last = &parts[parts.len() - 1];
    assert(components(path@).last() =~= last@);
    if (last.len() == 1 && last[0] == DOT) || (last.len() == 2 && last[0] == DOT && last[1] == DOT) {
        assert(last@ =~= seq![DOT] || last@ =~= seq![DOT, DOT]);
        return None;
    }
    Some(copy_bytes(last))
}

/// The path of a relative name below a directory.
pub fn join_path(directory: &[u8], name: &[u8]) -> (path: Vec<u8>)
    ensures
        path@ == joined(directory@, name@),
{
    let mut path = copy_bytes(directory);
    if directory.len() > 0 && directory[directory.len() - 1] != SEPARATOR {
        path.push(SEPARATOR);
    }
    extend(&mut path, name);
    path
}

/// The path without the separators and the dots that name nothing at its end.
pub fn trim_path(path: &[u8]) -> (kept: Vec<u8>)
    ensures
        kept@ == trimmed(path@),
{
    let mut kept = copy_bytes(path);
    while kept.len() > 1 && (kept[kept.len() - 1] == SEPARATOR || (kept[kept.len() - 1] == DOT
        && kept[kept.len() - 2] == SEPARATOR))
        invariant
            trimmed(kept@) == trimmed(path@),
        decreases kept.len(),
    {
        let ghost before = kept@;
        kept.pop();
        assert(kept@ =~= before.drop_last());
    }
    kept
}

/// Splitting at a separator splits what stands on either side of it.
pub proof fn lemma_split_at_separator<T>(front: Seq<T>, separator: T, back: Seq<T>)
    ensures
        split(front.push(separator) + back, separator) == split(front, separator) + split(
            back,
            separator,
        ),
    decreases back.len(),
{
    let whole = front.push(separator) + back;
    split_takes_apart(front, separator);
    split_takes_apart(back, separator);
    if back.len() == 0 {
        assert(whole =~= front.push(separator));
        assert(front.push(separator).drop_last() =~= front);
        assert(split(whole, separator) =~= split(front, separator) + split(back, separator));
    } else {
        let shorter = back.drop_last();
        lemma_split_at_separator(front, separator, shorter);
        split_takes_apart(shorter, separator);
        assert(whole.drop_last() =~= front.push(separator) + shorter);
        assert(split(whole, separator) =~= split(front, separator) + split(back, separator));
    }
}

/// Without a separator there is one piece.
pub proof fn lemma_split_unseparated<T>(s: Seq<T>, separator: T)
    requires
        !s.contains(separator),
    ensures
        split(s, separator) == seq![s],
    decreases s.len(),
{
    if s.len() > 0 {
        let shorter = s.drop_last();
        assert(!shorter.contains(separator)) by {
            if shorter.contains(separator) {
                let k = choose|k: int| 0 <= k < shorter.len() && shorter[k] == separator;
                assert(s[k] == separator);
            }
        }
        lemma_split_unseparated(shorter, separator);
        assert(s[s.len() - 1] != separator);
        assert(shorter.push(s.last()) =~= s);
        assert(split(s, separator) =~= seq![s]);
    } else {
        assert(s =~= Seq::empty());
    }
}

proof fn lemma_kept_pieces_push(pieces: Seq<Seq<u8>>, piece: Seq<u8>)
    ensures
        kept_pieces(pieces.push(piece)) == if names_component(
            pieces.push(piece),
            pieces.len() as int,
        ) {
            kept_pieces(pieces).push(piece)
        } else {
            kept_pieces(pieces)
        },
{
    assert(pieces.push(piece).drop_last() =~= pieces);
}

/// An entry joined to a directory lies directly below it, under its own name.
pub proof fn joined_entries_are_below(directory: Seq<u8>, name: Seq<u8>)
    requires
        name.len() > 0,
        !name.contains(SEPARATOR),
        name != seq![DOT],
        name != seq![DOT, DOT],
    ensures
        is_below(joined(directory, name), directory),
        file_name(joined(directory, name)) == Some(name),
{
    let path = joined(directory, name);
    lemma_split_unseparated(name, SEPARATOR);
    assert(name[0] != SEPARATOR) by {
        if name[0] == SEPARATOR {
            assert(name.contains(SEPARATOR));
        }
    }
    if directory.len() == 0 {
        assert(path =~= name);
        let none: Seq<Seq<u8>> = seq![];
        assert(split(path, SEPARATOR) =~= none.push(name));
        lemma_kept_pieces_push(none, name);
        assert(split(directory, SEPARATOR) =~= none.push(Seq::empty()));
        lemma_kept_pieces_push(none, Seq::empty());
        assert(components(path).drop_last() =~= components(directory));
    } else {
        let front = if directory.last() == SEPARATOR {
            directory.drop_last()
        } else {
            directory
        };
        assert(path =~= front.push(SEPARATOR) + name);
        lemma_split_at_separator(front, SEPARATOR, name);
        let pieces = split(front, SEPARATOR);
        split_takes_apart(front, SEPARATOR);
        assert(split(path, SEPARATOR) =~= pieces.push(name));
        lemma_kept_pieces_push(pieces, name);
        if directory.last() == SEPARATOR {
            assert(split(directory, SEPARATOR) =~= pieces.push(Seq::empty()));
            lemma_kept_pieces_push(pieces, Seq::empty());
        }
        assert(components(path) =~= components(directory).push(name));
        assert(components(path).drop_last() =~= components(directory));
        assert(path[0] == directory[0]);
    }
}

/// Trimming a path leaves it the same path.
pub proof fn trimmed_paths_are_the_same(path: Seq<u8>)
    ensures
        same_path(trimmed(path), path),
    decreases path.len(),
{
    if path.len() > 1 && path.last() == SEPARATOR {
        let front = path.drop_last();
        trimmed_paths_are_the_same(front);
        let pieces = split(front, SEPARATOR);
        split_takes_apart(front, SEPARATOR);
        assert(split(path, SEPARATOR) =~= pieces.push(Seq::empty()));
        lemma_kept_pieces_push(pieces, Seq::empty());
    } else if path.len() > 1 && path.last() == DOT && path[path.len() - 2] == SEPARATOR {
        let closed = path.drop_last();
        let front = closed.drop_last();
        trimmed_paths_are_the_same(closed);
        let pieces = split(front, SEPARATOR);
        split_takes_apart(front, SEPARATOR);
        assert(split(closed, SEPARATOR) =~= pieces.push(Seq::empty()));
        lemma_kept_pieces_push(pieces, Seq::empty());
        assert(path =~= front.push(SEPARATOR) + seq![DOT]);
        lemma_split_at_separator(front, SEPARATOR, seq![DOT]);
        lemma_split_unseparated(seq![DOT], SEPARATOR);
        assert(split(path, SEPARATOR) =~= pieces.push(seq![DOT]));
        lemma_kept_pieces_push(pieces, seq![DOT]);
        assert(closed[0] == path[0]);
    }
}

proof fn lemma_kept_pieces_concat(front: Seq<Seq<u8>>, back: Seq<Seq<u8>>)
    requires
        front.len() > 0,
        back.len() > 0,
    ensures
        kept_pieces(front + back) == kept_pieces(front) + kept_pieces(
            seq![Seq::empty()] + back,
        ),
    decreases back.len(),
{
    let none: Seq<Seq<u8>> = seq![Seq::empty()];
    assert((front + back).drop_last() =~= front + back.drop_last());
    assert((none + back).drop_last() =~= none + back.drop_last());
    assert((front + back).last() == back.last());
    assert((none + back).last() == back.last());
    if back.len() == 1 {
        assert(front + back.drop_last() =~= front);
        assert(none + back.drop_last() =~= none);
        let nothing: Seq<Seq<u8>> = seq![];
        assert(none =~= nothing.push(Seq::empty()));
        lemma_kept_pieces_push(nothing, Seq::empty());
        assert(kept_pieces(nothing) =~= Seq::empty());
    } else {
        lemma_kept_pieces_concat(front, back.drop_last());
    }
    assert(kept_pieces(front + back) =~= kept_pieces(front) + kept_pieces(none + back));
}

/// The components of two paths with a separator between them are those of the one and then
/// those of the other, taken as if it were absolute. So it does not matter how many
/// separators stand between two components, nor whether dots that name nothing do.
pub proof fn components_are_joined(front: Seq<u8>, back: Seq<u8>)
    ensures
        components(front.push(SEPARATOR) + back) == components(front) + components(
            seq![47u8] + back,
        ),
        same_path(
            front.push(47).push(47) + back,
            front.push(47) + back,
        ),
        front.len() > 0 ==> same_path(
            front.push(47).push(46).push(47) + back,
            front.push(47) + back,
        ),
{
    let start: Seq<u8> = seq![];
    split_takes_apart(front, SEPARATOR);
    split_takes_apart(back, SEPARATOR);
    lemma_split_at_separator(front, SEPARATOR, back);
    lemma_split_at_separator(start, SEPARATOR, back);
    assert(start.push(SEPARATOR) + back =~= seq![47u8] + back);
    assert(split(start, SEPARATOR) =~= seq![Seq::<u8>::empty()]);
    lemma_kept_pieces_concat(split(front, SEPARATOR), split(back, SEPARATOR));
    let twice = front.push(47);
    trimmed_paths_are_the_same(twice);
    let pieces = split(front, SEPARATOR);
    assert(twice.drop_last() =~= front);
    assert(split(twice, SEPARATOR) =~= pieces.push(Seq::empty()));
    lemma_kept_pieces_push(pieces, Seq::empty());
    assert(components(twice) == components(front));
    split_takes_apart(twice, SEPARATOR);
    lemma_split_at_separator(twice, SEPARATOR, back);
    lemma_kept_pieces_concat(split(twice, SEPARATOR), split(back, SEPARATOR));
    assert(components(twice.push(SEPARATOR) + back) == components(front.push(SEPARATOR) + back));
    let dotted = front.push(47).push(46);
    assert(dotted =~= front.push(SEPARATOR) + seq![DOT]);
    lemma_split_at_separator(front, SEPARATOR, seq![DOT]);
    assert(!seq![DOT].contains(SEPARATOR)) by {
        assert(forall|k: int| 0 <= k < 1 ==> #[trigger] seq![DOT][k] == DOT);
    }
    lemma_split_unseparated(seq![DOT], SEPARATOR);
    assert(split(dotted, SEPARATOR) =~= pieces.push(seq![DOT]));
    lemma_kept_pieces_push(pieces, seq![DOT]);
    assert(components(dotted) == components(front));
    split_takes_apart(dotted, SEPARATOR);
    lemma_split_at_separator(dotted, SEPARATOR, back);
    lemma_kept_pieces_concat(split(dotted, SEPARATOR), split(back, SEPARATOR));
    assert((front.push(47) + back)[0] == if front.len() > 0 { front[0] } else { 47u8 });
    assert((twice.push(47) + back)[0] == if front.len() > 0 { front[0] } else { 47u8 });
    assert(front.len() > 0 ==> (dotted.push(47) + back)[0] == front[0]);
}

/// A path is absolute when it begins with a slash. A name without a slash is one component
/// as it stands, be it two dots, and nothing is no component.
pub proof fn names_are_components(name: Seq<u8>)
    requires
        !name.contains(47),
    ensures
        components(name) == if name.len() > 0 {
            seq![name]
        } else {
            Seq::<Seq<u8>>::empty()
        },
        !is_absolute(name),
        is_absolute(seq![47u8] + name),
        components(seq![47u8] + name) == if name.len() > 0 && name != seq![46u8] {
            seq![name]
        } else {
            Seq::<Seq<u8>>::empty()
        },
        file_name(name) == if name.len() > 0 && name != seq![46u8] && name != seq![46u8, 46u8] {
            Some(name)
        } else {
            None
        },
{
    let none: Seq<Seq<u8>> = seq![];
    let start: Seq<u8> = seq![];
    lemma_split_unseparated(name, SEPARATOR);
    assert(split(name, SEPARATOR) =~= none.push(name));
    lemma_kept_pieces_push(none, name);
    lemma_split_at_separator(start, SEPARATOR, name);
    assert(start.push(SEPARATOR) + name =~= seq![47u8] + name);
    assert(split(start, SEPARATOR) =~= none.push(Seq::empty()));
    lemma_kept_pieces_push(none, Seq::empty());
    assert(split(seq![47u8] + name, SEPARATOR) =~= none.push(Seq::empty()).push(name));
    lemma_kept_pieces_push(none.push(Seq::empty()), name);
    if name.len() > 0 && name[0] == 47 {
        assert(name.contains(47));
    }
    if name.len() > 0 {
        assert(components(name) =~= seq![name]);
        assert(components(name).last() == name);
    }
}

/// A name is joined to a directory with one slash between them, whether the directory ends
/// in one or not.
pub proof fn names_are_joined_with_a_slash(directory: Seq<u8>, name: Seq<u8>)
    ensures
        joined(Seq::empty(), name) == name,
        directory.len() > 0 && directory.last() != 47 ==> joined(directory, name) == directory
            + seq![47u8] + name,
        joined(directory.push(47), name) == directory + seq![47u8] + name,
{
    assert(joined(Seq::empty(), name) =~= name);
    assert(directory.push(47) + name =~= directory + seq![47u8] + name);
}

/// A path lies directly below another exactly when it has one component more, and both are
/// absolute or both are not. Two paths are the same exactly when they have the same components
/// and both are absolute or both are not.
pub proof fn paths_are_related_by_components(path: Seq<u8>, other: Seq<u8>)
    ensures
        is_below(path, other) <==> is_absolute(path) == is_absolute(other) && exists|name: Seq<u8>|
            components(path) == #[trigger] components(other).push(name),
        same_path(path, other) <==> is_absolute(path) == is_absolute(other) && components(path)
            == components(other),
        is_absolute(path) <==> path.len() > 0 && path[0] == 47,
{
    if is_below(path, other) {
        assert(components(path) =~= components(other).push(components(path).last()));
    }
    if exists|name: Seq<u8>| components(path) == #[trigger] components(other).push(name) {
        let name = choose|name: Seq<u8>|
            components(path) == #[trigger] components(other).push(name);
        assert(components(other).push(name).drop_last() =~= components(other));
    }
}

/// Trimming leaves out nothing but the end of a path, and leaves neither a separator there nor
/// a dot behind one, unless nothing else is left.
pub proof fn trimmed_paths_end_in_a_name(path: Seq<u8>)
    ensures
        trimmed(path).is_prefix_of(path),
        path.len() > 0 ==> trimmed(path).len() > 0,
        trimmed(path).len() > 1 ==> trimmed(path).last() != 47 && !(trimmed(path).last() == 46
            && trimmed(path)[trimmed(path).len() - 2] == 47),
        forall|i: int|
            trimmed(path).len() <= i < path.len() ==> #[trigger] path[i] == 47 || path[i] == 46,
    decreases path.len(),
{
    if path.len() > 1 && (path.last() == SEPARATOR || (path.last() == DOT && path[path.len() - 2]
        == SEPARATOR)) {
        let shorter = path.drop_last();
        trimmed_paths_end_in_a_name(shorter);
        assert forall|i: int| trimmed(path).len() <= i < path.len() implies #[trigger] path[i] == 47
            || path[i] == 46 by {
            if i < shorter.len() {
                assert(shorter[i] == path[i]);
            }
        }
    }
}

} // verus!
