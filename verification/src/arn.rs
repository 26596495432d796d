//! Classification of principals by the shape of their ARN.
//!
//! A principal is a role when its ARN holds the marker `:role/`, and a user
//! otherwise. Nothing else of the ARN is interpreted.

use vstd::prelude::*;

verus! {

/// The two kinds of principal, which are also the two lists of the document.
#[derive(Clone, Copy, Debug, PartialEq, Eq, Structural)]
pub enum Principal {
    Role,
    User,
}

/// Whether `pat` occurs in `text` starting at position `at`.
pub open spec fn occurs_at(text: Seq<char>, pat: Seq<char>, at: int) -> bool {
    &&& 0 <= at
    &&& at + pat.len() <= text.len()
    &&& text.subrange(at, at + pat.len()) == pat
}

/// Whether `pat` is a contiguous part of `text`.
pub open spec fn has_substring(text: Seq<char>, pat: Seq<char>) -> bool {
    exists|at: int| occurs_at(text, pat, at)
}

/// The marker that tells a role ARN from any other: `:role/`.
pub open spec fn role_marker() -> Seq<char> {
    seq![':', 'r', 'o', 'l', 'e', '/']
}

/// The kind of principal that an ARN denotes.
pub open spec fn kind_of(arn: Seq<char>) -> Principal {
    if has_substring(arn, role_marker()) {
        Principal::Role
    } else {
        Principal::User
    }
}

/// Substring test of the standard library, `str::contains` with a string
/// pattern. Trusted: the result is taken to be `true` exactly when the
/// characters of `pat` occur, contiguously and in order, somewhere in `text`
/// (the empty pattern occurs everywhere).
#[verifier::external_body]
fn text_contains(text: &str, pat: &str) -> (found: bool)
    ensures
        found == has_substring(text@, pat@),
{
    text.contains(pat)
}

/// Classifies an ARN: a role when it holds `:role/`, a user otherwise.
pub fn classify(arn: &str) -> (kind: Principal)
    ensures
        kind == kind_of(arn@),
{
    let marker = ":role/";
    proof {
        reveal_strlit(":role/");
        assert(marker@ =~= role_marker());
    }
    if text_contains(arn, marker) {
        Principal::Role
    } else {
        Principal::User
    }
}

/// Every ARN is of exactly one kind: a role when it holds the marker, a user
/// when it does not, and never both.
pub proof fn lemma_kind_exclusive(arn: Seq<char>)
    ensures
        (kind_of(arn) == Principal::Role) != (kind_of(arn) == Principal::User),
        kind_of(arn) == Principal::Role <==> has_substring(arn, role_marker()),
{
}

} // verus!
