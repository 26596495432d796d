//! One reconciliation attempt, step by step.
//!
//! An attempt alternates between work that only the surroundings can do
//! (fetching the document, turning serialized lists into entries and back,
//! applying the document) and decisions. The decisions are made here:
//! [`advance`] takes what the last piece of work gave and says what is to be
//! done next, until the attempt is done or has failed.
//!
//! Every attempt recomputes the whole document and applies it with force, and
//! no lock spans the fetch and the apply. The surroundings therefore run the
//! attempts on the document one at a time: a second attempt starts only when
//! the first has reached [`Step::Done`] or [`Step::Failed`].

use vstd::prelude::*;
use crate::arn::Principal;
use crate::document::{
    apply_request,
    existing_sources,
    is_forced_apply,
    source_of,
    ApplyRequest,
    Fetched,
    Sources,
    APPLY_FAILED,
    AWS_AUTH,
    EMPTY_LIST,
    FETCH_FAILED,
    KUBE_SYSTEM,
    MAP_ROLES,
    MAP_USERS,
    ROLES_MALFORMED,
    ROLES_UNWRITABLE,
    USERS_MALFORMED,
    USERS_UNWRITABLE,
};
use crate::error::CrdError;
use crate::merge::{next_list, reconcile_lists};
use crate::model::{entries_of, snapshot_entries, IAMIdentityMappingSpec, MapRole, MapUser};

verus! {

/// Seconds until a resource is reconciled again after a success, so that
/// changes made to the document behind the controller's back are corrected.
pub const RESYNC_SECS: u64 = 900;

/// Seconds until a resource is reconciled again after a failure.
pub const RETRY_SECS: u64 = 10;

/// Seconds between two reports of the number of live resources.
pub const STATS_INTERVAL_SECS: u64 = 60;

/// What the scheduler is asked to do with a resource once an attempt is over.
#[derive(Clone, Copy, Debug, PartialEq, Eq, Structural)]
pub struct Action {
    /// Seconds after which the resource is to be reconciled again.
    pub requeue_after_secs: u64,
}

impl Action {
    /// Asks for another reconciliation after `secs` seconds.
    pub fn requeue(secs: u64) -> (action: Action)
        ensures
            action.requeue_after_secs == secs,
    {
        Action { requeue_after_secs: secs }
    }
}

/// What the last piece of outside work gave.
#[derive(Clone, Debug, PartialEq, Eq)]
pub enum Event {
    /// Nothing yet: the attempt begins.
    Started,
    /// The document was fetched, or found missing, or could not be fetched.
    Fetched(Fetched),
    /// The two serialized lists were read; `None` stands for a list that is
    /// malformed.
    Parsed { roles: Option<Vec<MapRole>>, users: Option<Vec<MapUser>> },
    /// The two lists were serialized; `None` stands for a list that could
    /// not be.
    Serialized { roles: Option<String>, users: Option<String> },
    /// The document was applied, or the apply failed.
    Applied(bool),
}

/// What is to be done next.
#[derive(Clone, Debug, PartialEq, Eq)]
pub enum Step {
    /// Fetch the document of this name in this namespace.
    Fetch { name: String, namespace: String },
    /// Read the two serialized lists.
    Parse(Sources),
    /// Serialize the two lists.
    Serialize { roles: Vec<MapRole>, users: Vec<MapUser> },
    /// Apply the document.
    Apply(ApplyRequest),
    /// The attempt succeeded.
    Done(Action),
    /// The attempt failed.
    Failed(CrdError),
}

/// The entries of both lists, where both serialized lists could be read. A
/// malformed list fails the attempt; the role list is looked at first.
pub fn parsed_lists(roles: Option<Vec<MapRole>>, users: Option<Vec<MapUser>>) -> (lists: Result<
    (Vec<MapRole>, Vec<MapUser>),
    CrdError,
>)
    ensures
        roles is None ==> lists is Err && lists->Err_0@ == ROLES_MALFORMED@,
        roles is Some && users is None ==> lists is Err && lists->Err_0@ == USERS_MALFORMED@,
        roles is Some && users is Some ==> lists == Ok::<(Vec<MapRole>, Vec<MapUser>), CrdError>(
            (roles->Some_0, users->Some_0),
        ),
{
    match roles {
        None => Err(CrdError::with_message(ROLES_MALFORMED)),
        Some(roles) => match users {
            None => Err(CrdError::with_message(USERS_MALFORMED)),
            Some(users) => Ok((roles, users)),
        },
    }
}

/// How an attempt ends once the apply is over: with a request to reconcile
/// again after [`RESYNC_SECS`] where it succeeded, with an error where it
/// failed.
pub fn concluded(applied: bool) -> (end: Result<Action, CrdError>)
    ensures
        applied ==> end == Ok::<Action, CrdError>(Action { requeue_after_secs: RESYNC_SECS }),
        !applied ==> end is Err && end->Err_0@ == APPLY_FAILED@,
{
    if applied {
        Ok(Action::requeue(RESYNC_SECS))
    } else {
        Err(CrdError::with_message(APPLY_FAILED))
    }
}

/// What the scheduler is asked to do after a failed attempt: whatever the
/// error, try again after [`RETRY_SECS`], without limit.
pub fn error_policy(error: &CrdError) -> (action: Action)
    ensures
        action == (Action { requeue_after_secs: RETRY_SECS }),
{
    Action::requeue(RETRY_SECS)
}

/// Whether `step` is what follows `event` in an attempt that reconciles
/// against `snapshot`.
pub open spec fn follows(event: Event, snapshot: Seq<IAMIdentityMappingSpec>, step: Step) -> bool {
    match event {
        Event::Started => step matches Step::Fetch { name, namespace } && name@ == AWS_AUTH@
            && namespace@ == KUBE_SYSTEM@,
        Event::Fetched(Fetched::Missing) => step matches Step::Parse(sources) && sources.roles@
            == EMPTY_LIST@ && sources.users@ == EMPTY_LIST@,
        Event::Fetched(Fetched::Found(data)) => step matches Step::Parse(sources) && sources.roles@
            == source_of(data.deep_view(), MAP_ROLES@) && sources.users@ == source_of(
            data.deep_view(),
            MAP_USERS@,
        ),
        Event::Fetched(Fetched::Failed) => step matches Step::Failed(error) && error@
            == FETCH_FAILED@,
        Event::Parsed { roles: None, users } => step matches Step::Failed(error) && error@
            == ROLES_MALFORMED@,
        Event::Parsed { roles: Some(_), users: None } => step matches Step::Failed(error) && error@
            == USERS_MALFORMED@,
        Event::Parsed { roles: Some(roles), users: Some(users) } => step matches Step::Serialize {
            roles: next_roles,
            users: next_users,
        } && entries_of(next_roles@) == next_list(
            entries_of(roles@),
            Principal::Role,
            snapshot_entries(snapshot),
        ) && entries_of(next_users@) == next_list(
            entries_of(users@),
            Principal::User,
            snapshot_entries(snapshot),
        ),
        Event::Serialized { roles: None, users } => step matches Step::Failed(error) && error@
            == ROLES_UNWRITABLE@,
        Event::Serialized { roles: Some(_), users: None } => step matches Step::Failed(error)
            && error@ == USERS_UNWRITABLE@,
        Event::Serialized { roles: Some(roles), users: Some(users) } => step matches Step::Apply(
            request,
        ) && is_forced_apply(request, roles@, users@),
        Event::Applied(true) => step == Step::Done(Action { requeue_after_secs: RESYNC_SECS }),
        Event::Applied(false) => step matches Step::Failed(error) && error@ == APPLY_FAILED@,
    }
}

/// Decides what is to be done next, given what the last piece of outside
/// work gave. `snapshot` holds the live resources as they are known when the
/// decision is made; it counts only when the lists have just been read.
pub fn advance(event: Event, snapshot: &Vec<IAMIdentityMappingSpec>) -> (step: Step)
    ensures
        follows(event, snapshot@, step),
{
    match event {
        Event::Started => Step::Fetch {
            name: AWS_AUTH.to_string(),
            namespace: KUBE_SYSTEM.to_string(),
        },
        Event::Fetched(fetched) => match existing_sources(&fetched) {
            Ok(sources) => Step::Parse(sources),
            Err(error) => Step::Failed(error),
        },
        Event::Parsed { roles, users } => match parsed_lists(roles, users) {
            Ok(lists) => {
                let next = reconcile_lists(lists.0, lists.1, snapshot);
                Step::Serialize { roles: next.0, users: next.1 }
            },
            Err(error) => Step::Failed(error),
        },
        Event::Serialized { roles, users } => match apply_request(roles, users) {
            Ok(request) => Step::Apply(request),
            Err(error) => Step::Failed(error),
        },
        Event::Applied(applied) => match concluded(applied) {
            Ok(action) => Step::Done(action),
            Err(error) => Step::Failed(error),
        },
    }
}

} // verus!
