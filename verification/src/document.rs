//! The identity-mapping document: where it lives, what it holds, and how it
//! is read and applied.
//!
//! The document is a key-value object. Two of its keys count, one per list,
//! and each holds a serialized list of entries. Turning a serialized list
//! into entries and back is the caller's part; this module decides which
//! text is to be read, what is written, and under which terms.

use vstd::prelude::*;
use crate::error::CrdError;

verus! {

/// The name of the document.
pub const AWS_AUTH: &'static str = "aws-auth";

/// The namespace of the document.
pub const KUBE_SYSTEM: &'static str = "kube-system";

/// The key of the serialized role list.
pub const MAP_ROLES: &'static str = "mapRoles";

/// The key of the serialized user list.
pub const MAP_USERS: &'static str = "mapUsers";

/// The serialized empty list, which stands in for a list that is not there.
pub const EMPTY_LIST: &'static str = "[]";

/// The manager under whose name the document's fields are owned. It never
/// changes, so that repeated applies do not conflict with one another.
pub const FIELD_MANAGER: &'static str = "aws-eks-iam-auth-controller.rustrial.org";

/// The message of the error for a document that could not be fetched.
pub const FETCH_FAILED: &'static str = "Failed to get ConfigMap";

/// The message of the error for a stored role list that cannot be read.
pub const ROLES_MALFORMED: &'static str = "Error while deserializing mapRoles";

/// The message of the error for a stored user list that cannot be read.
pub const USERS_MALFORMED: &'static str = "Error while deserializing mapUsers";

/// The message of the error for a role list that cannot be written.
pub const ROLES_UNWRITABLE: &'static str = "Error while serializing mapRoles";

/// The message of the error for a user list that cannot be written.
pub const USERS_UNWRITABLE: &'static str = "Error while serializing mapUsers";

/// The message of the error for a document that could not be applied.
pub const APPLY_FAILED: &'static str = "Failed to create ConfigMap";

/// What fetching the document gave.
#[derive(Clone, Debug, PartialEq, Eq)]
pub enum Fetched {
    /// The store holds no such document.
    Missing,
    /// The document, with its keys and values in the order of the store, or
    /// without data at all. Should a key occur twice, its first occurrence
    /// counts.
    Found(Option<Vec<(String, String)>>),
    /// The store could not be read.
    Failed,
}

/// The serialized lists that a reconciliation starts from.
#[derive(Clone, Debug, PartialEq, Eq)]
pub struct Sources {
    pub roles: String,
    pub users: String,
}

/// How strictly the store checks the fields of what is applied.
#[derive(Clone, Copy, Debug, PartialEq, Eq, Structural)]
pub enum FieldValidation {
    Ignore,
    Warn,
    Strict,
}

/// Everything that an apply of the document is made of.
#[derive(Clone, Debug, PartialEq, Eq)]
pub struct ApplyRequest {
    pub name: String,
    pub namespace: String,
    pub field_manager: String,
    pub dry_run: bool,
    pub force: bool,
    pub field_validation: FieldValidation,
    pub data: Vec<(String, String)>,
}

/// The value under the first occurrence of `key`, if there is one.
pub open spec fn value_of(data: Seq<(Seq<char>, Seq<char>)>, key: Seq<char>) -> Option<Seq<char>>
    decreases data.len(),
{
    if data.len() == 0 {
        None
    } else if data.first().0 == key {
        Some(data.first().1)
    } else {
        value_of(data.drop_first(), key)
    }
}

/// The serialized list to start from: what the document holds under `key`,
/// and the empty list where the document, its data or the key is missing.
pub open spec fn source_of(data: Option<Seq<(Seq<char>, Seq<char>)>>, key: Seq<char>) -> Seq<char> {
    match data {
        Some(pairs) => match value_of(pairs, key) {
            Some(text) => text,
            None => EMPTY_LIST@,
        },
        None => EMPTY_LIST@,
    }
}

/// The data that an apply writes: the two serialized lists under their keys.
pub open spec fn contents_of(roles: Seq<char>, users: Seq<char>) -> Seq<(Seq<char>, Seq<char>)> {
    seq![(MAP_ROLES@, roles), (MAP_USERS@, users)]
}

/// Whether `request` is the forced apply of the two serialized lists to the
/// document, under the constant manager and with lenient field validation.
pub open spec fn is_forced_apply(request: ApplyRequest, roles: Seq<char>, users: Seq<char>) -> bool {
    &&& request.name@ == AWS_AUTH@
    &&& request.namespace@ == KUBE_SYSTEM@
    &&& request.field_manager@ == FIELD_MANAGER@
    &&& !request.dry_run
    &&& request.force
    &&& request.field_validation == FieldValidation::Ignore
    &&& request.data.deep_view() == contents_of(roles, users)
}

/// Looks `key` up in the data of a document.
pub fn lookup<'a>(data: &'a Vec<(String, String)>, key: &String) -> (value: Option<&'a String>)
    ensures
        match value {
            Some(text) => value_of(data.deep_view(), key@) == Some(text@),
            None => value_of(data.deep_view(), key@) is None,
        },
{
    let ghost pairs = data.deep_view();
    let mut i: usize = 0;
    assert(pairs.skip(0) =~= pairs);
    while i < data.len()
        invariant
            i <= data.len(),
            pairs == data.deep_view(),
            value_of(pairs, key@) == value_of(pairs.skip(i as int), key@),
        decreases data.len() - i,
    {
        let ghost rest = pairs.skip(i as int);
        assert(rest.first() == pairs[i as int]);
        assert(rest.drop_first() =~= pairs.skip(i + 1));
        if data[i].0 == *key {
            return Some(&data[i].1);
        }
        i += 1;
    }
    None
}

/// The serialized list under `key`, or the empty list.
fn source(data: &Option<Vec<(String, String)>>, key: &str) -> (text: String)
    ensures
        text@ == source_of(data.deep_view(), key@),
{
    match data {
        Some(pairs) => match lookup(pairs, &key.to_string()) {
            Some(text) => text.clone(),
            None => EMPTY_LIST.to_string(),
        },
        None => EMPTY_LIST.to_string(),
    }
}

/// The serialized lists to start from, given what fetching the document
/// gave. A missing document is no failure: it counts as two empty lists, and
/// so does a missing key as one. Only a store that could not be read fails
/// the attempt.
pub fn existing_sources(fetched: &Fetched) -> (sources: Result<Sources, CrdError>)
    ensures
        match fetched {
            Fetched::Missing => sources is Ok && sources->Ok_0.roles@ == EMPTY_LIST@
                && sources->Ok_0.users@ == EMPTY_LIST@,
            Fetched::Found(data) => sources is Ok && sources->Ok_0.roles@ == source_of(
                data.deep_view(),
                MAP_ROLES@,
            ) && sources->Ok_0.users@ == source_of(data.deep_view(), MAP_USERS@),
            Fetched::Failed => sources is Err && sources->Err_0@ == FETCH_FAILED@,
        },
{
    match fetched {
        Fetched::Missing => Ok(
            Sources { roles: EMPTY_LIST.to_string(), users: EMPTY_LIST.to_string() },
        ),
        Fetched::Found(data) => Ok(
            Sources { roles: source(data, MAP_ROLES), users: source(data, MAP_USERS) },
        ),
        Fetched::Failed => Err(CrdError::with_message(FETCH_FAILED)),
    }
}

/// The apply that writes the two serialized lists, where both could be
/// serialized; the role list is looked at first.
pub fn apply_request(roles: Option<String>, users: Option<String>) -> (request: Result<
    ApplyRequest,
    CrdError,
>)
    ensures
        roles is None ==> request is Err && request->Err_0@ == ROLES_UNWRITABLE@,
        roles is Some && users is None ==> request is Err && request->Err_0@ == USERS_UNWRITABLE@,
        roles is Some && users is Some ==> request is Ok && is_forced_apply(
            request->Ok_0,
            roles->Some_0@,
            users->Some_0@,
        ),
{
    match roles {
        None => Err(CrdError::with_message(ROLES_UNWRITABLE)),
        Some(roles) => match users {
            None => Err(CrdError::with_message(USERS_UNWRITABLE)),
            Some(users) => {
                let mut data: Vec<(String, String)> = Vec::new();
                data.push((MAP_ROLES.to_string(), roles));
                data.push((MAP_USERS.to_string(), users));
                assert(data.deep_view() =~= contents_of(roles@, users@));
                Ok(
                    ApplyRequest {
                        name: AWS_AUTH.to_string(),
                        namespace: KUBE_SYSTEM.to_string(),
                        field_manager: FIELD_MANAGER.to_string(),
                        dry_run: false,
                        force: true,
                        field_validation: FieldValidation::Ignore,
                        data,
                    },
                )
            },
        },
    }
}

} // verus!
