//! The records that reconciliation reads and writes.
//!
//! A live mapping resource, a role entry and a user entry all say the same
//! thing: a principal, named by its ARN, is known in the cluster under a
//! username and, optionally, a list of groups. Their common mathematical
//! model is [`Entry`].

use vstd::prelude::*;
use crate::arn::Principal;

verus! {

/// What a record states, as plain mathematical values.
pub struct Entry {
    pub arn: Seq<char>,
    pub username: Seq<char>,
    pub groups: Option<Seq<Seq<char>>>,
}

/// The declared state of one `IAMIdentityMapping` resource.
#[derive(Clone, Debug, PartialEq, Eq)]
pub struct IAMIdentityMappingSpec {
    pub arn: String,
    pub username: String,
    pub groups: Option<Vec<String>>,
}

/// An entry of the document's role list.
#[derive(Clone, Debug, PartialEq, Eq)]
pub struct MapRole {
    pub rolearn: String,
    pub username: String,
    pub groups: Option<Vec<String>>,
}

/// An entry of the document's user list.
#[derive(Clone, Debug, PartialEq, Eq)]
pub struct MapUser {
    pub userarn: String,
    pub username: String,
    pub groups: Option<Vec<String>>,
}

impl View for IAMIdentityMappingSpec {
    type V = Entry;

    open spec fn view(&self) -> Entry {
        Entry { arn: self.arn@, username: self.username@, groups: self.groups.deep_view() }
    }
}

impl View for MapRole {
    type V = Entry;

    open spec fn view(&self) -> Entry {
        Entry { arn: self.rolearn@, username: self.username@, groups: self.groups.deep_view() }
    }
}

impl View for MapUser {
    type V = Entry;

    open spec fn view(&self) -> Entry {
        Entry { arn: self.userarn@, username: self.username@, groups: self.groups.deep_view() }
    }
}

/// The entries that a snapshot of live resources states, in its order.
pub open spec fn snapshot_entries(snapshot: Seq<IAMIdentityMappingSpec>) -> Seq<Entry> {
    snapshot.map_values(|m: IAMIdentityMappingSpec| m@)
}

/// A record of one of the document's two lists.
pub trait DocumentEntry: Sized {
    /// What the record states.
    spec fn entry(&self) -> Entry;

    /// The ARN that the record is keyed by.
    fn principal_arn(&self) -> (arn: &String)
        ensures
            arn@ == self.entry().arn,
    ;

    /// A fresh record that states what the live resource `mapping` declares.
    fn describing(mapping: &IAMIdentityMappingSpec) -> (fresh: Self)
        ensures
            fresh.entry() == mapping@,
    ;
}

/// What a list of records states, in its order.
pub open spec fn entries_of<T: DocumentEntry>(records: Seq<T>) -> Seq<Entry> {
    records.map_values(|r: T| r.entry())
}

/// A copy of a list of strings.
pub fn copy_strings(items: &Vec<String>) -> (copy: Vec<String>)
    ensures
        copy.deep_view() == items.deep_view(),
{
    let mut copy: Vec<String> = Vec::new();
    let mut i: usize = 0;
    while i < items.len()
        invariant
            i <= items.len(),
            copy.len() == i,
            forall|k: int| 0 <= k < i ==> copy[k]@ == items[k]@,
        decreases items.len() - i,
    {
        copy.push(items[i].clone());
        i += 1;
    }
    assert(copy.deep_view() =~= items.deep_view());
    copy
}

/// A copy of an optional group list; an absent list stays absent.
pub fn copy_groups(groups: &Option<Vec<String>>) -> (copy: Option<Vec<String>>)
    ensures
        copy.deep_view() == groups.deep_view(),
{
    match groups {
        Some(items) => Some(copy_strings(items)),
        None => None,
    }
}

impl IAMIdentityMappingSpec {
    /// A mapping resource's declared state.
    pub fn new(arn: String, username: String, groups: Option<Vec<String>>) -> (mapping: Self)
        ensures
            mapping@ == (Entry { arn: arn@, username: username@, groups: groups.deep_view() }),
    {
        IAMIdentityMappingSpec { arn, username, groups }
    }

    /// The kind of principal that the resource maps.
    pub fn principal(&self) -> (kind: Principal)
        ensures
            kind == crate::arn::kind_of(self@.arn),
    {
        crate::arn::classify(self.arn.as_str())
    }
}

impl MapRole {
    /// A role entry.
    pub fn new(rolearn: String, username: String, groups: Option<Vec<String>>) -> (role: Self)
        ensures
            role@ == (Entry { arn: rolearn@, username: username@, groups: groups.deep_view() }),
    {
        MapRole { rolearn, username, groups }
    }
}

impl MapUser {
    /// A user entry.
    pub fn new(userarn: String, username: String, groups: Option<Vec<String>>) -> (user: Self)
        ensures
            user@ == (Entry { arn: userarn@, username: username@, groups: groups.deep_view() }),
    {
        MapUser { userarn, username, groups }
    }
}

impl DocumentEntry for MapRole {
    open spec fn entry(&self) -> Entry {
        self@
    }

    fn principal_arn(&self) -> (arn: &String) {
        &self.rolearn
    }

    fn describing(mapping: &IAMIdentityMappingSpec) -> (fresh: Self) {
        MapRole {
            rolearn: mapping.arn.clone(),
            username: mapping.username.clone(),
            groups: copy_groups(&mapping.groups),
        }
    }
}

impl DocumentEntry for MapUser {
    open spec fn entry(&self) -> Entry {
        self@
    }

    fn principal_arn(&self) -> (arn: &String) {
        &self.userarn
    }

    fn describing(mapping: &IAMIdentityMappingSpec) -> (fresh: Self) {
        MapUser {
            userarn: mapping.arn.clone(),
            username: mapping.username.clone(),
            groups: copy_groups(&mapping.groups),
        }
    }
}

} // verus!
