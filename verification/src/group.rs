//! Relations between arguments: those that exclude one another, and those
//! that may only be given together with others.

use crate::text::{slice_texts, texts};
use vstd::prelude::*;

verus! {

/// The relation that a group states between its arguments.
#[derive(Clone, Copy, Debug, PartialEq, Eq, Structural)]
pub enum GroupKind {
    /// At most one argument of the group may be given.
    Exclusive,
    /// The arguments of the group may only be given together with one of
    /// the group's parents.
    OnlyWhen,
}

/// What an [`ArgGroup`] states.
pub struct GroupView {
    pub name: Seq<char>,
    pub kind: GroupKind,
    /// Whether at least one argument of the group must be given.
    pub required: bool,
    /// Names of the arguments that the group governs.
    pub members: Seq<Seq<char>>,
    /// Names of the arguments that the members depend on.
    pub parents: Seq<Seq<char>>,
}

/// A named relation over arguments, which are referred to by their long names.
#[derive(Debug, PartialEq, Eq)]
pub struct ArgGroup {
    name: String,
    kind: GroupKind,
    required: bool,
    args: Vec<String>,
    parents: Vec<String>,
}

impl View for ArgGroup {
    type V = GroupView;

    closed spec fn view(&self) -> GroupView {
        GroupView {
            name: self.name@,
            kind: self.kind,
            required: self.required,
            members: texts(self.args@),
            parents: texts(self.parents@),
        }
    }
}

/// Owned copies of the given names, in order.
fn owned_names(items: &[&str]) -> (out: Vec<String>)
    ensures
        texts(out@) == slice_texts(items@),
{
    let mut out: Vec<String> = Vec::new();
    let mut i: usize = 0;
    while i < items.len()
        invariant
            i <= items@.len(),
            out@.len() == i,
            forall|k: int| 0 <= k < i ==> out@[k]@ == items@[k]@,
        decreases items@.len() - i,
    {
        out.push(items[i].to_owned());
        i += 1;
    }
    out
}

/// Whether one of `names` is `name`.
pub fn has_name(names: &Vec<String>, name: &String) -> (found: bool)
    ensures
        found == texts(names@).contains(name@),
{
    let mut i: usize = 0;
    while i < names.len()
        invariant
            i <= names@.len(),
            forall|k: int| 0 <= k < i ==> texts(names@)[k] != name@,
        decreases names@.len() - i,
    {
        if names[i] == *name {
            proof {
                assert(texts(names@)[i as int] == name@);
            }
            return true;
        }
        i += 1;
    }
    false
}

impl ArgGroup {
    fn new(name: &str, kind: GroupKind, args1: &[&str], args2: &[&str], required: bool) -> (group:
        Self)
        ensures
            group@ == (GroupView {
                name: name@,
                kind,
                required,
                members: slice_texts(args1@),
                parents: slice_texts(args2@),
            }),
    {
        Self {
            name: name.to_owned(),
            kind,
            args: owned_names(args1),
            parents: owned_names(args2),
            required,
        }
    }

    /// Whether `name` is one of the arguments that the group governs.
    pub fn contains(&self, name: &String) -> (found: bool)
        ensures
            found == self@.members.contains(name@),
    {
        has_name(&self.args, name)
    }

    /// The relation that the group states.
    pub fn kind(&self) -> (kind: GroupKind)
        ensures
            kind == self@.kind,
    {
        self.kind
    }

    /// The group's name.
    pub fn name(&self) -> (name: &String)
        ensures
            name@ == self@.name,
    {
        &self.name
    }

    /// Names of the arguments that the group governs.
    pub fn args(&self) -> (names: &Vec<String>)
        ensures
            texts(names@) == self@.members,
    {
        &self.args
    }

    /// Names of the arguments that the members depend on.
    pub fn parents(&self) -> (names: &Vec<String>)
        ensures
            texts(names@) == self@.parents,
    {
        &self.parents
    }

    /// Whether at least one argument of the group must be given.
    pub fn is_required(&self) -> (required: bool)
        ensures
            required == self@.required,
    {
        self.required
    }

    /// A group whose arguments `args` may only be given when one of
    /// `parents` is given too. When `required`, one of `args` must be given.
    pub fn allow_when(name: &str, required: bool, args: &[&str], parents: &[&str]) -> (group: Self)
        ensures
            group@ == (GroupView {
                name: name@,
                kind: GroupKind::OnlyWhen,
                required,
                members: slice_texts(args@),
                parents: slice_texts(parents@),
            }),
    {
        ArgGroup::new(name, GroupKind::OnlyWhen, args, parents, required)
    }

    /// A group of whose arguments `args` at most one may be given; exactly
    /// one when `required`.
    pub fn exclusive(name: &str, required: bool, args: &[&str]) -> (group: Self)
        ensures
            group@ == (GroupView {
                name: name@,
                kind: GroupKind::Exclusive,
                required,
                members: slice_texts(args@),
                parents: Seq::empty(),
            }),
    {
        let none: [&str; 0] = [];
        let group = ArgGroup::new(name, GroupKind::Exclusive, args, &none, required);
        proof {
            assert(slice_texts(none@) =~= Seq::<Seq<char>>::empty());
        }
        group
    }
}

/// What a list of groups states, in order.
pub open spec fn group_views(groups: Seq<ArgGroup>) -> Seq<GroupView> {
    Seq::new(groups.len(), |i: int| groups[i]@)
}

} // verus!
