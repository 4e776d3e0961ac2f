//! The invoking user, as the system's user database describes them.

use vstd::prelude::*;
use crate::bytes::bytes_eq;

verus! {

/// The invoking user: their name and the names of the groups they are in.
#[derive(Debug, PartialEq, Eq)]
pub struct Identity {
    pub name: Vec<u8>,
    pub groups: Vec<Vec<u8>>,
}

/// An identity as the policy sees it. The groups are a set: neither their
/// order nor a repetition means anything.
pub struct IdentityView {
    pub name: Seq<u8>,
    pub groups: Set<Seq<u8>>,
}

/// Whether one of `groups` is named `group`.
pub open spec fn spec_lists(groups: Seq<Vec<u8>>, group: Seq<u8>) -> bool {
    exists|i: int| 0 <= i < groups.len() && (#[trigger] groups[i])@ == group
}

impl View for Identity {
    type V = IdentityView;

    open spec fn view(&self) -> IdentityView {
        IdentityView {
            name: self.name@,
            groups: Set::new(|group: Seq<u8>| spec_lists(self.groups@, group)),
        }
    }
}

impl Identity {
    /// Whether the user's name is `name`.
    pub fn is_named(&self, name: &[u8]) -> (named: bool)
        ensures
            named == (self@.name == name@),
    {
        bytes_eq(self.name.as_slice(), name)
    }

    /// Whether the user is in the group `group`.
    pub fn in_group(&self, group: &[u8]) -> (member: bool)
        ensures
            member == self@.groups.contains(group@),
    {
        let mut i: usize = 0;
        while i < self.groups.len()
            invariant
                i <= self.groups.len(),
                forall|j: int| 0 <= j < i ==> (#[trigger] self.groups@[j])@ != group@,
            decreases self.groups.len() - i,
        {
            if bytes_eq(self.groups[i].as_slice(), group) {
                return true;
            }
            i += 1;
        }
        false
    }
}

} // verus!
