//! Byte strings. Names, paths and program specifiers are compared byte for
//! byte, so all of them are held as `Vec<u8>` and seen as `Seq<u8>`.

use vstd::prelude::*;

verus! {

/// Whether two byte strings are equal, byte for byte.
pub fn bytes_eq(a: &[u8], b: &[u8]) -> (same: bool)
    ensures
        same == (a@ == b@),
{
    if a.len() != b.len() {
        return false;
    }
    let mut i: usize = 0;
    while i < a.len()
        invariant
            i <= a.len(),
            a.len() == b.len(),
            forall|j: int| 0 <= j < i ==> a@[j] == b@[j],
        decreases a.len() - i,
    {
        if a[i] != b[i] {
            return false;
        }
        i += 1;
    }
    assert(a@ =~= b@);
    true
}

/// Appends every byte of `tail` to `buf`.
pub fn append(buf: &mut Vec<u8>, tail: &[u8])
    ensures
        final(buf)@ == old(buf)@ + tail@,
{
    let mut i: usize = 0;
    while i < tail.len()
        invariant
            i <= tail.len(),
            buf@ == old(buf)@ + tail@.take(i as int),
        decreases tail.len() - i,
    {
        buf.push(tail[i]);
        i += 1;
    }
}

/// A fresh copy of a byte string.
pub fn copy(bytes: &[u8]) -> (out: Vec<u8>)
    ensures
        out@ == bytes@,
{
    let mut out: Vec<u8> = Vec::new();
    append(&mut out, bytes);
    out
}

/// A list of byte strings, seen as a sequence of sequences.
pub open spec fn spec_strings(list: Seq<Vec<u8>>) -> Seq<Seq<u8>> {
    Seq::new(list.len(), |i: int| list[i]@)
}

/// A fresh copy of a list of byte strings.
pub fn copy_strings(list: &[Vec<u8>]) -> (out: Vec<Vec<u8>>)
    ensures
        spec_strings(out@) == spec_strings(list@),
{
    let mut out: Vec<Vec<u8>> = Vec::new();
    let mut i: usize = 0;
    while i < list.len()
        invariant
            i <= list.len(),
            out@.len() == i,
            forall|j: int| 0 <= j < i ==> out@[j]@ == list@[j]@,
        decreases list.len() - i,
    {
        out.push(copy(list[i].as_slice()));
        i += 1;
    }
    out
}

/// The pieces of `bytes` between the separators `sep`. The empty string is
/// one empty piece; a separator opens a new piece; every other byte
/// extends the last piece.
pub open spec fn spec_split(bytes: Seq<u8>, sep: u8) -> Seq<Seq<u8>>
    decreases bytes.len(),
{
    if bytes.len() == 0 {
        seq![Seq::<u8>::empty()]
    } else {
        let before = spec_split(bytes.drop_last(), sep);
        if bytes.last() == sep {
            before.push(Seq::<u8>::empty())
        } else {
            before.update(before.len() - 1, before.last().push(bytes.last()))
        }
    }
}

/// Splits `bytes` at every separator `sep`.
pub fn split(bytes: &[u8], sep: u8) -> (pieces: Vec<Vec<u8>>)
    ensures
        spec_strings(pieces@) == spec_split(bytes@, sep),
{
    let mut pieces: Vec<Vec<u8>> = Vec::new();
    let mut piece: Vec<u8> = Vec::new();
    let mut i: usize = 0;
    while i < bytes.len()
        invariant
            i <= bytes.len(),
            spec_strings(pieces@).push(piece@) == spec_split(bytes@.take(i as int), sep),
        decreases bytes.len() - i,
    {
        assert(bytes@.take(i + 1).drop_last() =~= bytes@.take(i as int));
        if bytes[i] == sep {
            pieces.push(piece);
            piece = Vec::new();
        } else {
            piece.push(bytes[i]);
        }
        i += 1;
    }
    assert(bytes@.take(bytes.len() as int) =~= bytes@);
    pieces.push(piece);
    pieces
}

/// The pieces put together again, with `sep` between one piece and the next.
pub open spec fn spec_concat(pieces: Seq<Seq<u8>>, sep: u8) -> Seq<u8>
    decreases pieces.len(),
{
    if pieces.len() == 0 {
        Seq::<u8>::empty()
    } else if pieces.len() == 1 {
        pieces[0]
    } else {
        spec_concat(pieces.drop_last(), sep).push(sep) + pieces.last()
    }
}

/// Splitting loses nothing and leaves no separator behind: there is at
/// least one piece, no piece holds the separator, and the pieces put
/// together again are the bytes that were split.
pub proof fn lemma_split_is_sound(bytes: Seq<u8>, sep: u8)
    ensures
        spec_split(bytes, sep).len() >= 1,
        forall|i: int, j: int|
            0 <= i < spec_split(bytes, sep).len() && 0 <= j < spec_split(bytes, sep)[i].len()
                ==> spec_split(bytes, sep)[i][j] != sep,
        spec_concat(spec_split(bytes, sep), sep) == bytes,
    decreases bytes.len(),
{
    if bytes.len() > 0 {
        let pieces = spec_split(bytes, sep);
        let before = spec_split(bytes.drop_last(), sep);
        lemma_split_is_sound(bytes.drop_last(), sep);
        if bytes.last() == sep {
            assert(pieces.drop_last() =~= before);
        } else if before.len() > 1 {
            assert(pieces.drop_last() =~= before.drop_last());
            assert(bytes.drop_last().push(bytes.last()) =~= bytes);
        }
    }
}

/// Bytes that hold no separator are one piece.
pub proof fn lemma_split_plain(bytes: Seq<u8>, sep: u8)
    requires
        forall|j: int| 0 <= j < bytes.len() ==> bytes[j] != sep,
    ensures
        spec_split(bytes, sep) == seq![bytes],
    decreases bytes.len(),
{
    if bytes.len() == 0 {
        assert(bytes =~= Seq::<u8>::empty());
    } else {
        lemma_split_plain(bytes.drop_last(), sep);
        assert(bytes.drop_last().push(bytes.last()) =~= bytes);
    }
}

/// A separator parts what is split: the pieces of `head`, the separator
/// and `tail` in a row are the pieces of `head` and then those of `tail`.
pub proof fn lemma_split_at_separator(head: Seq<u8>, tail: Seq<u8>, sep: u8)
    ensures
        spec_split(head.push(sep) + tail, sep) == spec_split(head, sep) + spec_split(tail, sep),
    decreases tail.len(),
{
    let whole = head.push(sep) + tail;
    if tail.len() == 0 {
        assert(whole.drop_last() =~= head);
    } else {
        lemma_split_at_separator(head, tail.drop_last(), sep);
        lemma_split_is_sound(tail.drop_last(), sep);
        assert(whole.drop_last() =~= head.push(sep) + tail.drop_last());
    }
}

/// A byte string that may be missing, seen as a sequence that may be missing.
pub open spec fn spec_field(field: Option<Vec<u8>>) -> Option<Seq<u8>> {
    match field {
        Some(bytes) => Some(bytes@),
        None => None,
    }
}

} // verus!
