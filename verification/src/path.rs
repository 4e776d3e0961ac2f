//! Paths as byte strings, with `/` between components.

use vstd::prelude::*;
use crate::bytes::{
    append, copy, lemma_split_at_separator, lemma_split_plain, spec_split, spec_strings, split,
};

verus! {

/// The byte `/`, which separates the components of a path.
pub const SEPARATOR: u8 = 0x2f;

/// The byte `.`; alone it is the component that names the directory itself.
pub const DOT: u8 = 0x2e;

/// A path is absolute when it begins at the root.
pub open spec fn spec_is_absolute(path: Seq<u8>) -> bool {
    path.len() > 0 && path[0] == SEPARATOR
}

/// Whether `path` begins at the root.
pub fn is_absolute(path: &[u8]) -> (absolute: bool)
    ensures
        absolute == spec_is_absolute(path@),
{
    path.len() > 0 && path[0] == SEPARATOR
}

/// A piece of a path is a step if it leads anywhere: it is not empty, as
/// the pieces between two separators in a row and at the ends are, and it
/// is not `.`.
pub open spec fn spec_is_step(piece: Seq<u8>) -> bool {
    piece.len() > 0 && piece != seq![DOT]
}

/// Whether `piece` is a step.
pub fn is_step(piece: &[u8]) -> (step: bool)
    ensures
        step == spec_is_step(piece@),
{
    assert((piece@.len() == 1 && piece@[0] == DOT) == (piece@ =~= seq![DOT]));
    piece.len() > 0 && !(piece.len() == 1 && piece[0] == DOT)
}

/// The steps among `pieces`, in their order.
pub open spec fn spec_kept(pieces: Seq<Seq<u8>>) -> Seq<Seq<u8>> {
    pieces.filter(|piece: Seq<u8>| spec_is_step(piece))
}

/// The steps of a path: its pieces between the separators, without the
/// empty ones and without every `.`.
pub open spec fn spec_steps(path: Seq<u8>) -> Seq<Seq<u8>> {
    spec_kept(spec_split(path, SEPARATOR))
}

/// One more piece adds one step or none.
pub proof fn lemma_kept_push(pieces: Seq<Seq<u8>>, piece: Seq<u8>)
    ensures
        spec_kept(pieces.push(piece)) == if spec_is_step(piece) {
            spec_kept(pieces).push(piece)
        } else {
            spec_kept(pieces)
        },
{
    reveal(Seq::filter);
    assert(pieces.push(piece).drop_last() =~= pieces);
}

/// The steps of `path`.
pub fn steps(path: &[u8]) -> (found: Vec<Vec<u8>>)
    ensures
        spec_strings(found@) == spec_steps(path@),
{
    let pieces: Vec<Vec<u8>> = split(path, SEPARATOR);
    let mut found: Vec<Vec<u8>> = Vec::new();
    let mut i: usize = 0;
    proof {
        reveal(Seq::filter);
    }
    while i < pieces.len()
        invariant
            i <= pieces.len(),
            spec_strings(found@) == spec_kept(spec_strings(pieces@).take(i as int)),
        decreases pieces.len() - i,
    {
        proof {
            lemma_kept_push(spec_strings(pieces@).take(i as int), pieces@[i as int]@);
            assert(spec_strings(pieces@).take(i + 1) =~= spec_strings(pieces@).take(
                i as int,
            ).push(pieces@[i as int]@));
        }
        if is_step(pieces[i].as_slice()) {
            found.push(copy(pieces[i].as_slice()));
        }
        i += 1;
    }
    assert(spec_strings(pieces@).take(pieces.len() as int) =~= spec_strings(pieces@));
    found
}

/// Whether the path begins with the component `.`.
pub open spec fn spec_begins_with_dot(path: Seq<u8>) -> bool {
    path.len() > 0 && path[0] == DOT && (path.len() == 1 || path[1] == SEPARATOR)
}

/// The number of components of a path: its steps, and before them the root
/// if the path is absolute, or a `.` if the path begins with one. A `.`
/// further on is no component, two separators in a row separate once, and a
/// separator at the end adds nothing.
pub open spec fn spec_component_count(path: Seq<u8>) -> nat {
    spec_steps(path).len() + if spec_is_absolute(path) || spec_begins_with_dot(path) {
        1nat
    } else {
        0nat
    }
}

/// `name` below the directory `base`, with one separator between the two
/// unless `base` is empty or ends in one.
pub open spec fn spec_join(base: Seq<u8>, name: Seq<u8>) -> Seq<u8> {
    if base.len() > 0 && base.last() != SEPARATOR {
        base.push(SEPARATOR) + name
    } else {
        base + name
    }
}

/// The path that is reached from `base` by taking `steps`, one after the
/// other.
pub open spec fn spec_descend(base: Seq<u8>, steps: Seq<Seq<u8>>) -> Seq<u8>
    decreases steps.len(),
{
    if steps.len() == 0 {
        base
    } else {
        spec_join(spec_descend(base, steps.drop_last()), steps.last())
    }
}

/// Takes `steps` from `base`.
pub fn descend(base: &[u8], steps: &[Vec<u8>]) -> (path: Vec<u8>)
    ensures
        path@ == spec_descend(base@, spec_strings(steps@)),
{
    let mut path: Vec<u8> = copy(base);
    let mut i: usize = 0;
    while i < steps.len()
        invariant
            i <= steps.len(),
            path@ == spec_descend(base@, spec_strings(steps@).take(i as int)),
        decreases steps.len() - i,
    {
        assert(spec_strings(steps@).take(i + 1).drop_last() =~= spec_strings(steps@).take(
            i as int,
        ));
        if path.len() > 0 && path[path.len() - 1] != SEPARATOR {
            path.push(SEPARATOR);
        }
        append(&mut path, steps[i].as_slice());
        i += 1;
    }
    assert(spec_strings(steps@).take(steps.len() as int) =~= spec_strings(steps@));
    path
}

/// Steps taken from the root never leave it: below an absolute path every
/// path is absolute.
pub proof fn lemma_descend_absolute(base: Seq<u8>, steps: Seq<Seq<u8>>)
    requires
        spec_is_absolute(base),
    ensures
        spec_is_absolute(spec_descend(base, steps)),
    decreases steps.len(),
{
    if steps.len() > 0 {
        lemma_descend_absolute(base, steps.drop_last());
    }
}

/// A plain name is a byte string that is not empty, holds no separator and
/// is not `.`: what one would call the name of a file.
pub open spec fn spec_is_plain_name(name: Seq<u8>) -> bool {
    &&& spec_is_step(name)
    &&& forall|j: int| 0 <= j < name.len() ==> name[j] != SEPARATOR
}

/// A plain name is one step and one component, and below a directory it is
/// the directory, a separator where one is needed, and the name.
pub proof fn lemma_plain_name_is_one_step(name: Seq<u8>)
    requires
        spec_is_plain_name(name),
    ensures
        spec_steps(name) == seq![name],
        spec_component_count(name) == 1,
        forall|base: Seq<u8>|
            #[trigger] spec_descend(base, spec_steps(name)) == spec_join(base, name),
{
    reveal_with_fuel(Seq::filter, 2);
    lemma_split_plain(name, SEPARATOR);
    assert(!spec_begins_with_dot(name)) by {
        if spec_begins_with_dot(name) {
            assert(name =~= seq![DOT]);
        }
    }
    assert forall|base: Seq<u8>| #[trigger]
        spec_descend(base, spec_steps(name)) == spec_join(base, name) by {
        reveal_with_fuel(spec_descend, 2);
    }
}

/// A plain name behind `./` is that one step, of a path of two components.
pub proof fn lemma_dot_slash_name(name: Seq<u8>)
    requires
        spec_is_plain_name(name),
    ensures
        spec_steps(seq![DOT, SEPARATOR] + name) == seq![name],
        spec_component_count(seq![DOT, SEPARATOR] + name) == 2,
        !spec_is_absolute(seq![DOT, SEPARATOR] + name),
{
    let dot = seq![DOT];
    lemma_split_at_separator(dot, name, SEPARATOR);
    assert(dot.push(SEPARATOR) + name =~= seq![DOT, SEPARATOR] + name);
    lemma_split_plain(dot, SEPARATOR);
    lemma_split_plain(name, SEPARATOR);
    assert(seq![dot] + seq![name] =~= seq![dot].push(name));
    lemma_kept_push(seq![dot], name);
    lemma_kept_push(Seq::<Seq<u8>>::empty(), dot);
}

/// The one path that stands for the requested program, to be held against
/// the policy and then launched. It is always absolute.
#[derive(Debug, PartialEq, Eq)]
pub struct ResolvedPath {
    bytes: Vec<u8>,
}

impl View for ResolvedPath {
    type V = Seq<u8>;

    closed spec fn view(&self) -> Seq<u8> {
        self.bytes@
    }
}

impl ResolvedPath {
    #[verifier::type_invariant]
    spec fn absolute(self) -> bool {
        spec_is_absolute(self.bytes@)
    }

    /// Accepts `bytes` as a resolved path if they are an absolute path.
    pub fn new(bytes: Vec<u8>) -> (made: Option<ResolvedPath>)
        ensures
            made is Some <==> spec_is_absolute(bytes@),
            made matches Some(path) ==> path@ == bytes@,
    {
        if is_absolute(bytes.as_slice()) {
            Some(ResolvedPath { bytes })
        } else {
            None
        }
    }

    /// Takes bytes that are known to be an absolute path.
    pub(crate) fn from_absolute(bytes: Vec<u8>) -> (path: ResolvedPath)
        requires
            spec_is_absolute(bytes@),
        ensures
            path@ == bytes@,
    {
        ResolvedPath { bytes }
    }

    /// The bytes of the path.
    pub fn as_bytes(&self) -> (bytes: &[u8])
        ensures
            bytes@ == self@,
            spec_is_absolute(self@),
    {
        proof {
            use_type_invariant(self);
        }
        self.bytes.as_slice()
    }

    /// Gives the bytes of the path back.
    pub fn into_bytes(self) -> (bytes: Vec<u8>)
        ensures
            bytes@ == self@,
            spec_is_absolute(self@),
    {
        proof {
            use_type_invariant(&self);
        }
        self.bytes
    }
}

} // verus!
