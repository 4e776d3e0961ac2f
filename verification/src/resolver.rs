//! From the token that names the program to the one absolute path that
//! stands for it.
//!
//! An absolute token is its own answer. A token of several components is
//! taken from the current directory. A bare name is looked for in the
//! directories of the search path, in the order listed: the first candidate
//! that exists and that somebody may execute is the answer. The caller
//! probes the file system, one candidate at a time, and reports what it
//! found.

use vstd::prelude::*;
use crate::bytes::{spec_field, spec_split, spec_strings, split};
use crate::path::{
    descend, is_absolute, lemma_descend_absolute, lemma_dot_slash_name,
    lemma_plain_name_is_one_step, spec_component_count, spec_descend, spec_is_absolute,
    spec_is_plain_name, spec_join, spec_steps, steps, ResolvedPath, DOT, SEPARATOR,
};

verus! {

/// The byte `:`, which separates the directories of a search path.
pub const LIST_SEPARATOR: u8 = 0x3a;

/// The permission bits that let the owner, the group or anybody else
/// execute a file.
pub const EXECUTE_BITS: u32 = 0o111;

/// What a token is, by its shape alone.
#[derive(Clone, Copy, PartialEq, Eq, Debug, Structural)]
pub enum TokenKind {
    /// It begins at the root.
    Absolute,
    /// It has more than one component and does not begin at the root.
    Relative,
    /// It has one component at most: a name to be searched for.
    Bare,
}

/// The kind of a token: absolute if it begins at the root, else relative
/// if it has more than one component, else bare. So `./name` and `dir/name`
/// are relative, while `name`, `name/` and `.` are bare.
pub open spec fn spec_classify(token: Seq<u8>) -> TokenKind {
    if spec_is_absolute(token) {
        TokenKind::Absolute
    } else if spec_component_count(token) > 1 {
        TokenKind::Relative
    } else {
        TokenKind::Bare
    }
}

fn kind_of(token: &[u8], found: &Vec<Vec<u8>>) -> (kind: TokenKind)
    requires
        spec_strings(found@) == spec_steps(token@),
    ensures
        kind == spec_classify(token@),
{
    if is_absolute(token) {
        TokenKind::Absolute
    } else {
        let dot: bool = token.len() > 0 && token[0] == DOT && (token.len() == 1 || token[1]
            == SEPARATOR);
        if found.len() > 1 || (found.len() == 1 && dot) {
            TokenKind::Relative
        } else {
            TokenKind::Bare
        }
    }
}

/// Tells what kind of token `token` is.
pub fn classify(token: &[u8]) -> (kind: TokenKind)
    ensures
        kind == spec_classify(token@),
{
    let found: Vec<Vec<u8>> = steps(token);
    kind_of(token, &found)
}

/// What a probe of one path found.
#[derive(Clone, Copy, PartialEq, Eq, Debug, Structural)]
pub enum Probe {
    /// Nothing is there, or nothing can be learnt of it.
    Missing,
    /// A file is there, with these permission bits.
    Found { mode: u32 },
}

impl Probe {
    /// A candidate is accepted if it exists and somebody may execute it.
    pub open spec fn accepted(self) -> bool {
        self matches Probe::Found { mode } && mode & EXECUTE_BITS != 0
    }

    /// Whether the probed candidate is accepted.
    pub fn is_accepted(&self) -> (accepted: bool)
        ensures
            accepted == self.accepted(),
    {
        match self {
            Probe::Missing => false,
            Probe::Found { mode } => *mode & EXECUTE_BITS != 0,
        }
    }
}

/// Why a token could not be resolved.
#[derive(Clone, Copy, PartialEq, Eq, Debug, Structural)]
pub enum ResolveError {
    /// No candidate was accepted.
    NotFound,
    /// The environment lacks what the token needs: the search path for a
    /// bare name, an absolute current directory for a relative path.
    EnvironmentMissing,
}

/// A search in progress: the steps of the name, the directories, and the
/// place of the directory whose candidate is to be probed next.
#[derive(Debug, PartialEq, Eq)]
pub struct Search {
    name: Vec<Vec<u8>>,
    dirs: Vec<Vec<u8>>,
    next: usize,
}

/// A search: the steps of the name, the directories, and the place of
/// the directory whose candidate is to be probed next.
pub struct SearchView {
    pub name: Seq<Seq<u8>>,
    pub dirs: Seq<Seq<u8>>,
    pub next: int,
}

impl SearchView {
    /// A search always stands at a directory that is absolute.
    pub open spec fn wf(self) -> bool {
        0 <= self.next < self.dirs.len() && spec_is_absolute(self.dirs[self.next])
    }

    /// The path to be probed next.
    pub open spec fn candidate(self) -> Seq<u8> {
        spec_descend(self.dirs[self.next], self.name)
    }
}

impl View for Search {
    type V = SearchView;

    closed spec fn view(&self) -> SearchView {
        SearchView {
            name: spec_strings(self.name@),
            dirs: spec_strings(self.dirs@),
            next: self.next as int,
        }
    }
}

/// Where a lookup stands.
#[derive(Debug, PartialEq, Eq)]
pub enum Lookup {
    /// A candidate waits to be probed.
    Searching { search: Search },
    /// The token is resolved.
    Resolved { path: ResolvedPath },
    /// The token cannot be resolved.
    Failed { error: ResolveError },
}

/// Where a lookup stands, over sequences of bytes.
pub enum LookupView {
    Searching { search: SearchView },
    Resolved { path: Seq<u8> },
    Failed { error: ResolveError },
}

impl View for Lookup {
    type V = LookupView;

    open spec fn view(&self) -> LookupView {
        match self {
            Lookup::Searching { search } => LookupView::Searching { search: search@ },
            Lookup::Resolved { path } => LookupView::Resolved { path: path@ },
            Lookup::Failed { error } => LookupView::Failed { error: *error },
        }
    }
}

/// The place of the first absolute directory at or behind `from`, or the
/// length of the list if there is none. Directories that are not absolute
/// are passed over: a candidate below one would depend on the current
/// directory.
pub open spec fn spec_next_absolute(dirs: Seq<Seq<u8>>, from: int) -> int
    decreases dirs.len() - from,
{
    if from >= dirs.len() {
        dirs.len() as int
    } else if spec_is_absolute(dirs[from]) {
        from
    } else {
        spec_next_absolute(dirs, from + 1)
    }
}

/// The search for `name` that begins at the directory `from`.
pub open spec fn spec_search_from(name: Seq<Seq<u8>>, dirs: Seq<Seq<u8>>, from: int)
    -> LookupView {
    let next = spec_next_absolute(dirs, from);
    if next < dirs.len() {
        LookupView::Searching { search: SearchView { name, dirs, next } }
    } else {
        LookupView::Failed { error: ResolveError::NotFound }
    }
}

/// Where the lookup of `token` stands before anything is probed.
pub open spec fn spec_lookup(
    token: Seq<u8>,
    current_dir: Option<Seq<u8>>,
    search_path: Option<Seq<u8>>,
) -> LookupView {
    match spec_classify(token) {
        TokenKind::Absolute => LookupView::Resolved { path: token },
        TokenKind::Relative => match current_dir {
            Some(dir) if spec_is_absolute(dir) => LookupView::Resolved {
                path: spec_descend(dir, spec_steps(token)),
            },
            _ => LookupView::Failed { error: ResolveError::EnvironmentMissing },
        },
        TokenKind::Bare => match search_path {
            Some(list) => spec_search_from(spec_steps(token), spec_split(list, LIST_SEPARATOR), 0),
            None => LookupView::Failed { error: ResolveError::EnvironmentMissing },
        },
    }
}

/// Where a search stands after its candidate was probed: an accepted
/// candidate is the answer, any other sends the search on.
pub open spec fn spec_probed(search: SearchView, probe: Probe) -> LookupView {
    if probe.accepted() {
        LookupView::Resolved { path: search.candidate() }
    } else {
        spec_search_from(search.name, search.dirs, search.next + 1)
    }
}

fn search_from(name: Vec<Vec<u8>>, dirs: Vec<Vec<u8>>, from: usize) -> (lookup: Lookup)
    requires
        from <= dirs.len(),
    ensures
        lookup@ == spec_search_from(spec_strings(name@), spec_strings(dirs@), from as int),
{
    let mut next: usize = from;
    while next < dirs.len() && !is_absolute(dirs[next].as_slice())
        invariant
            from <= next <= dirs.len(),
            spec_next_absolute(spec_strings(dirs@), from as int) == spec_next_absolute(
                spec_strings(dirs@),
                next as int,
            ),
        decreases dirs.len() - next,
    {
        next += 1;
    }
    if next < dirs.len() {
        Lookup::Searching { search: Search { name, dirs, next } }
    } else {
        Lookup::Failed { error: ResolveError::NotFound }
    }
}

/// Begins the lookup of the program that `token` names. `current_dir` is
/// the directory that relative paths are taken from, `search_path` the list
/// of directories in which bare names are searched for; either may be
/// missing.
pub fn lookup_binary(
    token: Vec<u8>,
    current_dir: Option<Vec<u8>>,
    search_path: Option<Vec<u8>>,
) -> (lookup: Lookup)
    ensures
        lookup@ == spec_lookup(token@, spec_field(current_dir), spec_field(search_path)),
{
    let found: Vec<Vec<u8>> = steps(token.as_slice());
    match kind_of(token.as_slice(), &found) {
        TokenKind::Absolute => Lookup::Resolved { path: ResolvedPath::from_absolute(token) },
        TokenKind::Relative => match current_dir {
            Some(dir) => {
                if is_absolute(dir.as_slice()) {
                    proof {
                        lemma_descend_absolute(dir@, spec_strings(found@));
                    }
                    let path: Vec<u8> = descend(dir.as_slice(), found.as_slice());
                    Lookup::Resolved { path: ResolvedPath::from_absolute(path) }
                } else {
                    Lookup::Failed { error: ResolveError::EnvironmentMissing }
                }
            },
            None => Lookup::Failed { error: ResolveError::EnvironmentMissing },
        },
        TokenKind::Bare => match search_path {
            Some(list) => search_from(found, split(list.as_slice(), LIST_SEPARATOR), 0),
            None => Lookup::Failed { error: ResolveError::EnvironmentMissing },
        },
    }
}

impl Search {
    #[verifier::type_invariant]
    spec fn stands_at_absolute(self) -> bool {
        self.next < self.dirs.len() && spec_is_absolute(self.dirs[self.next as int]@)
    }

    /// The path that the caller is to probe next. It is absolute.
    pub fn candidate(&self) -> (path: Vec<u8>)
        ensures
            self@.wf(),
            path@ == self@.candidate(),
            spec_is_absolute(path@),
    {
        proof {
            use_type_invariant(self);
            lemma_descend_absolute(self.dirs[self.next as int]@, spec_strings(self.name@));
        }
        descend(self.dirs[self.next].as_slice(), self.name.as_slice())
    }

    /// Takes in what the probe of the candidate found.
    pub fn probed(self, probe: Probe) -> (lookup: Lookup)
        ensures
            self@.wf(),
            lookup@ == spec_probed(self@, probe),
    {
        proof {
            use_type_invariant(&self);
            lemma_descend_absolute(self.dirs[self.next as int]@, spec_strings(self.name@));
        }
        if probe.is_accepted() {
            let path: Vec<u8> = descend(self.dirs[self.next].as_slice(), self.name.as_slice());
            Lookup::Resolved { path: ResolvedPath::from_absolute(path) }
        } else {
            search_from(self.name, self.dirs, self.next + 1)
        }
    }
}

/// The first accepted candidate at or behind the directory `from`, in a
/// world where a probe of each path finds what `status` says.
pub open spec fn spec_first_hit(
    name: Seq<Seq<u8>>,
    dirs: Seq<Seq<u8>>,
    from: int,
    status: spec_fn(Seq<u8>) -> Probe,
) -> Option<Seq<u8>>
    decreases dirs.len() - from,
{
    if from >= dirs.len() {
        None
    } else if spec_is_absolute(dirs[from]) && status(spec_descend(dirs[from], name)).accepted() {
        Some(spec_descend(dirs[from], name))
    } else {
        spec_first_hit(name, dirs, from + 1, status)
    }
}

/// A hit is the answer; no hit means that the program was not found.
pub open spec fn spec_hit_or_not_found(hit: Option<Seq<u8>>) -> Result<Seq<u8>, ResolveError> {
    match hit {
        Some(path) => Ok(path),
        None => Err(ResolveError::NotFound),
    }
}

/// What `token` resolves to in a world where a probe of each path finds
/// what `status` says.
pub open spec fn spec_resolve(
    token: Seq<u8>,
    current_dir: Option<Seq<u8>>,
    search_path: Option<Seq<u8>>,
    status: spec_fn(Seq<u8>) -> Probe,
) -> Result<Seq<u8>, ResolveError> {
    match spec_classify(token) {
        TokenKind::Absolute => Ok(token),
        TokenKind::Relative => match current_dir {
            Some(dir) if spec_is_absolute(dir) => Ok(spec_descend(dir, spec_steps(token))),
            _ => Err(ResolveError::EnvironmentMissing),
        },
        TokenKind::Bare => match search_path {
            Some(list) => spec_hit_or_not_found(
                spec_first_hit(spec_steps(token), spec_split(list, LIST_SEPARATOR), 0, status),
            ),
            None => Err(ResolveError::EnvironmentMissing),
        },
    }
}

impl LookupView {
    /// What the lookup comes to in the end, if every probe finds what
    /// `status` says.
    pub open spec fn outcome(self, status: spec_fn(Seq<u8>) -> Probe) -> Result<
        Seq<u8>,
        ResolveError,
    > {
        match self {
            LookupView::Resolved { path } => Ok(path),
            LookupView::Failed { error } => Err(error),
            LookupView::Searching { search } => spec_hit_or_not_found(
                spec_first_hit(search.name, search.dirs, search.next, status),
            ),
        }
    }

    /// A lookup that searches stands at an absolute directory, and one that
    /// is resolved holds an absolute path.
    pub open spec fn wf(self) -> bool {
        match self {
            LookupView::Resolved { path } => spec_is_absolute(path),
            LookupView::Failed { .. } => true,
            LookupView::Searching { search } => search.wf(),
        }
    }
}

/// The first absolute directory at or behind `from` is not before `from`.
pub proof fn lemma_next_absolute_bounds(dirs: Seq<Seq<u8>>, from: int)
    requires
        0 <= from <= dirs.len(),
    ensures
        from <= spec_next_absolute(dirs, from) <= dirs.len(),
    decreases dirs.len() - from,
{
    if from < dirs.len() && !spec_is_absolute(dirs[from]) {
        lemma_next_absolute_bounds(dirs, from + 1);
    }
}

/// A search that goes on stands at an absolute directory.
proof fn lemma_search_from_wf(name: Seq<Seq<u8>>, dirs: Seq<Seq<u8>>, from: int)
    requires
        0 <= from,
    ensures
        spec_search_from(name, dirs, from).wf(),
    decreases dirs.len() - from,
{
    if from < dirs.len() && !spec_is_absolute(dirs[from]) {
        lemma_search_from_wf(name, dirs, from + 1);
    }
}

/// Passing over the directories that are not absolute loses no hit.
proof fn lemma_search_from_outcome(
    name: Seq<Seq<u8>>,
    dirs: Seq<Seq<u8>>,
    from: int,
    status: spec_fn(Seq<u8>) -> Probe,
)
    requires
        0 <= from,
    ensures
        spec_search_from(name, dirs, from).outcome(status) == spec_hit_or_not_found(
            spec_first_hit(name, dirs, from, status),
        ),
    decreases dirs.len() - from,
{
    if from < dirs.len() && !spec_is_absolute(dirs[from]) {
        lemma_search_from_outcome(name, dirs, from + 1, status);
    }
}

/// A lookup begins well-formed.
pub proof fn lemma_lookup_wf(
    token: Seq<u8>,
    current_dir: Option<Seq<u8>>,
    search_path: Option<Seq<u8>>,
)
    ensures
        spec_lookup(token, current_dir, search_path).wf(),
{
    match spec_classify(token) {
        TokenKind::Absolute => {},
        TokenKind::Relative => {
            if let Some(dir) = current_dir {
                if spec_is_absolute(dir) {
                    lemma_descend_absolute(dir, spec_steps(token));
                }
            }
        },
        TokenKind::Bare => {
            if let Some(list) = search_path {
                lemma_search_from_wf(spec_steps(token), spec_split(list, LIST_SEPARATOR), 0);
            }
        },
    }
}

/// A probe, whatever it found, leaves the lookup well-formed.
pub proof fn lemma_probed_wf(search: SearchView, probe: Probe)
    requires
        search.wf(),
    ensures
        spec_probed(search, probe).wf(),
{
    lemma_descend_absolute(search.dirs[search.next], search.name);
    lemma_search_from_wf(search.name, search.dirs, search.next + 1);
}

/// What a lookup will come to is, from its beginning, what the token
/// resolves to.
pub proof fn lemma_lookup_outcome(
    token: Seq<u8>,
    current_dir: Option<Seq<u8>>,
    search_path: Option<Seq<u8>>,
    status: spec_fn(Seq<u8>) -> Probe,
)
    ensures
        spec_lookup(token, current_dir, search_path).outcome(status) == spec_resolve(
            token,
            current_dir,
            search_path,
            status,
        ),
{
    if let Some(list) = search_path {
        lemma_search_from_outcome(
            spec_steps(token),
            spec_split(list, LIST_SEPARATOR),
            0,
            status,
        );
    }
}

/// A truthful probe changes nothing of what the search will come to.
pub proof fn lemma_probe_keeps_outcome(search: SearchView, status: spec_fn(Seq<u8>) -> Probe)
    requires
        search.wf(),
    ensures
        spec_probed(search, status(search.candidate())).outcome(status) == (LookupView::Searching {
            search,
        }).outcome(status),
{
    lemma_search_from_outcome(search.name, search.dirs, search.next + 1, status);
}

/// An absolute token resolves to itself, whatever the environment holds.
pub proof fn lemma_absolute_passes_through(
    token: Seq<u8>,
    current_dir: Option<Seq<u8>>,
    search_path: Option<Seq<u8>>,
    status: spec_fn(Seq<u8>) -> Probe,
)
    requires
        spec_is_absolute(token),
    ensures
        spec_resolve(token, current_dir, search_path, status) == Ok::<Seq<u8>, ResolveError>(
            token,
        ),
{
}

/// A plain name behind `./` resolves to that name below the current
/// directory, whatever the search path holds.
pub proof fn lemma_dot_slash_is_taken_from_current_dir(
    name: Seq<u8>,
    current_dir: Seq<u8>,
    search_path: Option<Seq<u8>>,
    status: spec_fn(Seq<u8>) -> Probe,
)
    requires
        spec_is_plain_name(name),
        spec_is_absolute(current_dir),
    ensures
        spec_resolve(seq![DOT, SEPARATOR] + name, Some(current_dir), search_path, status) == Ok::<
            Seq<u8>,
            ResolveError,
        >(spec_join(current_dir, name)),
{
    lemma_dot_slash_name(name);
    lemma_plain_name_is_one_step(name);
}

/// The first hit wins: the search comes to the candidate of the first
/// directory that is absolute and whose candidate is accepted, however many
/// directories before it yield nothing.
pub proof fn lemma_first_hit_wins(
    name: Seq<Seq<u8>>,
    dirs: Seq<Seq<u8>>,
    from: int,
    hit: int,
    status: spec_fn(Seq<u8>) -> Probe,
)
    requires
        0 <= from <= hit < dirs.len(),
        spec_is_absolute(dirs[hit]),
        status(spec_descend(dirs[hit], name)).accepted(),
        forall|j: int|
            from <= j < hit ==> !(spec_is_absolute(#[trigger] dirs[j]) && status(
                spec_descend(dirs[j], name),
            ).accepted()),
    ensures
        spec_first_hit(name, dirs, from, status) == Some(spec_descend(dirs[hit], name)),
    decreases hit - from,
{
    if from < hit {
        lemma_first_hit_wins(name, dirs, from + 1, hit, status);
    }
}

/// Existence alone is not enough: where no candidate below an absolute
/// directory is accepted, nothing is found.
pub proof fn lemma_no_hit_is_not_found(
    name: Seq<Seq<u8>>,
    dirs: Seq<Seq<u8>>,
    from: int,
    status: spec_fn(Seq<u8>) -> Probe,
)
    requires
        0 <= from,
        forall|j: int|
            from <= j < dirs.len() ==> !(spec_is_absolute(#[trigger] dirs[j]) && status(
                spec_descend(dirs[j], name),
            ).accepted()),
    ensures
        spec_first_hit(name, dirs, from, status) is None,
    decreases dirs.len() - from,
{
    if from < dirs.len() {
        lemma_no_hit_is_not_found(name, dirs, from + 1, status);
    }
}

/// Whatever the probes find, a token resolves to an absolute path or to
/// none.
pub proof fn lemma_resolved_is_absolute(
    token: Seq<u8>,
    current_dir: Option<Seq<u8>>,
    search_path: Option<Seq<u8>>,
    status: spec_fn(Seq<u8>) -> Probe,
)
    ensures
        spec_resolve(token, current_dir, search_path, status) matches Ok(path)
            ==> spec_is_absolute(path),
{
    match spec_classify(token) {
        TokenKind::Absolute => {},
        TokenKind::Relative => {
            if let Some(dir) = current_dir {
                if spec_is_absolute(dir) {
                    lemma_descend_absolute(dir, spec_steps(token));
                }
            }
        },
        TokenKind::Bare => {
            if let Some(list) = search_path {
                lemma_hit_is_absolute(
                    spec_steps(token),
                    spec_split(list, LIST_SEPARATOR),
                    0,
                    status,
                );
            }
        },
    }
}

/// A hit lies below an absolute directory.
proof fn lemma_hit_is_absolute(
    name: Seq<Seq<u8>>,
    dirs: Seq<Seq<u8>>,
    from: int,
    status: spec_fn(Seq<u8>) -> Probe,
)
    requires
        0 <= from,
    ensures
        spec_first_hit(name, dirs, from, status) matches Some(path) ==> spec_is_absolute(path),
    decreases dirs.len() - from,
{
    if from < dirs.len() {
        if spec_is_absolute(dirs[from]) {
            lemma_descend_absolute(dirs[from], name);
        }
        lemma_hit_is_absolute(name, dirs, from + 1, status);
    }
}

} // verus!
