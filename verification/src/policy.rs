//! The administrator's policy: which user, or which group's members, may run
//! which program.

use vstd::prelude::*;
use crate::bytes::{bytes_eq, copy, spec_field};
use crate::identity::{Identity, IdentityView};
use crate::path::ResolvedPath;

verus! {

/// The byte `*`. A program specifier that consists of it alone stands for
/// any program.
pub const WILDCARD: u8 = 0x2a;

/// The program specifier that stands for any program.
pub open spec fn spec_wildcard() -> Seq<u8> {
    seq![WILDCARD]
}

/// Whom a rule applies to.
#[derive(Debug, PartialEq, Eq)]
pub enum Matcher {
    /// The user of this name.
    UserByName { user: Vec<u8> },
    /// Every member of the group of this name.
    GroupByName { group: Vec<u8> },
}

/// A matcher, with its name as a sequence of bytes.
pub enum MatcherView {
    UserByName { user: Seq<u8> },
    GroupByName { group: Seq<u8> },
}

impl MatcherView {
    /// A user matcher is met by the user of that name, a group matcher by
    /// every user who is in that group.
    pub open spec fn matches(self, identity: IdentityView) -> bool {
        match self {
            MatcherView::UserByName { user } => user == identity.name,
            MatcherView::GroupByName { group } => identity.groups.contains(group),
        }
    }
}

impl View for Matcher {
    type V = MatcherView;

    open spec fn view(&self) -> MatcherView {
        match self {
            Matcher::UserByName { user } => MatcherView::UserByName { user: user@ },
            Matcher::GroupByName { group } => MatcherView::GroupByName { group: group@ },
        }
    }
}

impl Matcher {
    /// Tests whether this matcher is for the given user.
    pub fn test(&self, identity: &Identity) -> (met: bool)
        ensures
            met == self@.matches(identity@),
    {
        match self {
            Matcher::UserByName { user } => identity.is_named(user.as_slice()),
            Matcher::GroupByName { group } => identity.in_group(group.as_slice()),
        }
    }
}

/// One statement of the policy: those whom `matcher` is for may run
/// `program`, which is either the wildcard or the exact path of a program.
#[derive(Debug, PartialEq, Eq)]
pub struct Rule {
    pub matcher: Matcher,
    pub program: Vec<u8>,
}

/// A rule, with its matcher and its specifier as sequences of bytes.
pub struct RuleView {
    pub matcher: MatcherView,
    pub program: Seq<u8>,
}

impl RuleView {
    /// The specifier covers `path` if it is the wildcard or the very bytes
    /// of `path`.
    pub open spec fn covers(self, path: Seq<u8>) -> bool {
        self.program == spec_wildcard() || self.program == path
    }

    /// The rule lets `identity` run `path`.
    pub open spec fn permits(self, identity: IdentityView, path: Seq<u8>) -> bool {
        self.matcher.matches(identity) && self.covers(path)
    }
}

impl View for Rule {
    type V = RuleView;

    open spec fn view(&self) -> RuleView {
        RuleView { matcher: self.matcher@, program: self.program@ }
    }
}

impl Rule {
    /// Whether the program specifier covers `path`.
    pub fn covers(&self, path: &[u8]) -> (covered: bool)
        ensures
            covered == self@.covers(path@),
    {
        let program: &[u8] = self.program.as_slice();
        let wild: bool = program.len() == 1 && program[0] == WILDCARD;
        assert(wild == (program@ =~= spec_wildcard()));
        wild || bytes_eq(program, path)
    }

    /// Whether this rule lets `identity` run `path`.
    pub fn permits(&self, identity: &Identity, path: &[u8]) -> (permitted: bool)
        ensures
            permitted == self@.permits(identity@, path@),
    {
        self.matcher.test(identity) && self.covers(path)
    }
}

/// The policy allows what at least one of its rules permits. No rule
/// forbids anything, and the order of the rules means nothing.
pub open spec fn spec_authorized(
    rules: Seq<RuleView>,
    identity: IdentityView,
    path: Seq<u8>,
) -> bool {
    exists|i: int| 0 <= i < rules.len() && (#[trigger] rules[i]).permits(identity, path)
}

/// The rules in force for one invocation.
#[derive(Debug, PartialEq, Eq)]
pub struct Policy {
    pub rules: Vec<Rule>,
}

impl View for Policy {
    type V = Seq<RuleView>;

    open spec fn view(&self) -> Seq<RuleView> {
        Seq::new(self.rules@.len(), |i: int| self.rules@[i]@)
    }
}

impl Policy {
    /// Tests whether the policy lets the user run the program.
    pub fn test(&self, identity: &Identity, program: &ResolvedPath) -> (allowed: bool)
        ensures
            allowed == spec_authorized(self@, identity@, program@),
    {
        let path: &[u8] = program.as_bytes();
        let mut i: usize = 0;
        while i < self.rules.len()
            invariant
                i <= self.rules.len(),
                path@ == program@,
                forall|j: int| 0 <= j < i ==> !(#[trigger] self@[j]).permits(identity@, path@),
            decreases self.rules.len() - i,
        {
            if self.rules[i].permits(identity, path) {
                assert(self@[i as int].permits(identity@, path@));
                return true;
            }
            i += 1;
        }
        false
    }
}

/// Default deny: a user whom no rule is for may run nothing.
pub proof fn lemma_default_deny(rules: Seq<RuleView>, identity: IdentityView, path: Seq<u8>)
    requires
        forall|i: int| 0 <= i < rules.len() ==> !(#[trigger] rules[i]).matcher.matches(identity),
    ensures
        !spec_authorized(rules, identity, path),
{
}

/// A rule with the wildcard that is for the user lets them run every
/// program, whatever else the policy holds.
pub proof fn lemma_wildcard_allows_all(rules: Seq<RuleView>, identity: IdentityView, path: Seq<u8>)
    requires
        exists|i: int|
            0 <= i < rules.len() && (#[trigger] rules[i]).matcher.matches(identity) && rules[i].program
                == spec_wildcard(),
    ensures
        spec_authorized(rules, identity, path),
{
}

/// An exact specifier covers its own bytes and no others: if every rule
/// that is for the user names the program `exact`, the user may run no
/// path that differs from it, be it by one byte.
pub proof fn lemma_exact_is_byte_exact(
    rules: Seq<RuleView>,
    identity: IdentityView,
    exact: Seq<u8>,
    path: Seq<u8>,
)
    requires
        exact != spec_wildcard(),
        exact != path,
        forall|i: int|
            0 <= i < rules.len() && (#[trigger] rules[i]).matcher.matches(identity)
                ==> rules[i].program == exact,
    ensures
        !spec_authorized(rules, identity, path),
{
}

/// The order of the rules means nothing: two policies that hold the same
/// rules allow the same.
pub proof fn lemma_order_is_irrelevant(
    first: Seq<RuleView>,
    second: Seq<RuleView>,
    identity: IdentityView,
    path: Seq<u8>,
)
    requires
        forall|rule: RuleView| first.contains(rule) <==> second.contains(rule),
    ensures
        spec_authorized(first, identity, path) == spec_authorized(second, identity, path),
{
    if spec_authorized(first, identity, path) {
        let i = choose|i: int|
            0 <= i < first.len() && (#[trigger] first[i]).permits(identity, path);
        assert(first.contains(first[i]));
    }
    if spec_authorized(second, identity, path) {
        let i = choose|i: int|
            0 <= i < second.len() && (#[trigger] second[i]).permits(identity, path);
        assert(second.contains(second[i]));
    }
}

/// One entry of the policy's source as it was decoded: each field is there
/// or not.
#[derive(Debug, PartialEq, Eq)]
pub struct RuleEntry {
    pub user: Option<Vec<u8>>,
    pub group: Option<Vec<u8>>,
    pub program: Option<Vec<u8>>,
}

/// An entry, with the fields that are there as sequences of bytes.
pub struct RuleEntryView {
    pub user: Option<Seq<u8>>,
    pub group: Option<Seq<u8>>,
    pub program: Option<Seq<u8>>,
}

impl View for RuleEntry {
    type V = RuleEntryView;

    open spec fn view(&self) -> RuleEntryView {
        RuleEntryView {
            user: spec_field(self.user),
            group: spec_field(self.group),
            program: spec_field(self.program),
        }
    }
}

impl RuleEntryView {
    /// An entry makes a rule if it names a user or a group, not both, and
    /// a program.
    pub open spec fn well_formed(self) -> bool {
        (self.user is Some) != (self.group is Some) && self.program is Some
    }

    /// The rule that a well-formed entry makes.
    pub open spec fn rule(self) -> RuleView {
        RuleView {
            matcher: match self.user {
                Some(user) => MatcherView::UserByName { user },
                None => MatcherView::GroupByName { group: self.group->0 },
            },
            program: self.program->0,
        }
    }
}

impl RuleEntry {
    /// The rule that this entry makes, if it makes one.
    pub fn to_rule(&self) -> (made: Option<Rule>)
        ensures
            made is Some <==> self@.well_formed(),
            made matches Some(rule) ==> rule@ == self@.rule(),
    {
        match (&self.user, &self.group, &self.program) {
            (Some(user), None, Some(program)) => Some(
                Rule {
                    matcher: Matcher::UserByName { user: copy(user.as_slice()) },
                    program: copy(program.as_slice()),
                },
            ),
            (None, Some(group), Some(program)) => Some(
                Rule {
                    matcher: Matcher::GroupByName { group: copy(group.as_slice()) },
                    program: copy(program.as_slice()),
                },
            ),
            _ => None,
        }
    }
}

/// The policy's source does not make a policy: `entry` is the place of the
/// first entry that makes no rule.
#[derive(Debug, PartialEq, Eq)]
pub struct PolicyMalformed {
    pub entry: usize,
}

impl Policy {
    /// Makes a policy of decoded entries, one rule for each entry in the
    /// order given, or refuses all of them if one makes no rule.
    pub fn from_entries(entries: &[RuleEntry]) -> (made: Result<Policy, PolicyMalformed>)
        ensures
            match made {
                Ok(policy) => {
                    &&& policy@.len() == entries@.len()
                    &&& forall|i: int|
                        0 <= i < entries@.len() ==> (#[trigger] entries@[i])@.well_formed()
                            && policy@[i] == entries@[i]@.rule()
                },
                Err(error) => {
                    &&& error.entry < entries@.len()
                    &&& !entries@[error.entry as int]@.well_formed()
                    &&& forall|i: int|
                        0 <= i < error.entry ==> (#[trigger] entries@[i])@.well_formed()
                },
            },
    {
        let mut rules: Vec<Rule> = Vec::new();
        let mut i: usize = 0;
        while i < entries.len()
            invariant
                i <= entries.len(),
                rules@.len() == i,
                forall|j: int|
                    0 <= j < i ==> (#[trigger] entries@[j])@.well_formed() && rules@[j]@
                        == entries@[j]@.rule(),
            decreases entries.len() - i,
        {
            match entries[i].to_rule() {
                Some(rule) => {
                    rules.push(rule);
                },
                None => {
                    return Err(PolicyMalformed { entry: i });
                },
            }
            i += 1;
        }
        Ok(Policy { rules })
    }
}

} // verus!
