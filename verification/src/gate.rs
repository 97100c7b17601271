//! Authentication of a request: from its credential to the user the request
//! acts for, or to the reason for which there is none.
//!
//! An auth gate does not reach the user directory itself. It is a machine that
//! is run from outside: each step takes what the driver reports and tells the
//! driver what to do next, until the step that accepts or rejects. There are
//! two machines over the same states. The verified one reads the token of the
//! request. The bypass one, for development only, ignores it and stands the
//! first administrator in for the caller. Which one serves is settled when
//! the program is built.

use crate::error::AuthError;
use crate::key::KeyStore;
use crate::token::{decoded, user_cookie_decode};
use crate::user::{User, UserID, Wrapper};
use vstd::prelude::*;

verus! {

/// Where a gate stands between two steps.
#[derive(Clone, Copy, Debug, PartialEq, Eq, Structural)]
pub enum GateState {
    /// Nothing has been looked at yet.
    Start,
    /// The token named this user; the read transaction is being opened.
    Decoded(UserID),
    /// The transaction is open; the directory is looking this user up.
    Lookup(UserID),
    /// Bypass only: the read transaction is being opened.
    Opening,
    /// Bypass only: the directory is listing its users.
    Listing,
    /// The request has been accepted or rejected.
    Done,
}

/// What the driver reports to a gate.
#[derive(Clone, Debug, PartialEq, Eq)]
pub enum GateEvent {
    /// A request, with the text of its credential header where it has one.
    Request(Option<String>),
    /// Whether the read transaction on the user store could be opened.
    Transaction(bool),
    /// The record that the directory holds under the identifier asked for;
    /// `None` where the lookup failed.
    Found(Option<User>),
    /// The users of the directory in its order; `None` where they could not
    /// be listed.
    Listed(Option<Vec<User>>),
}

/// What a gate tells the driver.
#[derive(Clone, Debug, PartialEq, Eq)]
pub enum GateAction {
    /// Open a read transaction on the user store, and report `Transaction`.
    OpenTransaction,
    /// Look this user up in the directory, and report `Found`.
    FindById(UserID),
    /// List the users of the directory, and report `Listed`.
    FindAll,
    /// The request acts for this user.
    Accept(Wrapper),
    /// The request is turned away for this reason.
    Reject(AuthError),
}

impl GateAction {
    /// Whether the action ends the run.
    pub open spec fn is_final(self) -> bool {
        self is Accept || self is Reject
    }

    /// The action that ends a run with `outcome`.
    pub open spec fn of_outcome(outcome: Result<Wrapper, AuthError>) -> GateAction {
        match outcome {
            Ok(principal) => GateAction::Accept(principal),
            Err(reason) => GateAction::Reject(reason),
        }
    }
}

impl GateState {
    /// The number of steps that a run may still take from this state.
    pub open spec fn steps_left(self) -> nat {
        match self {
            GateState::Start => 3,
            GateState::Decoded(_) => 2,
            GateState::Opening => 2,
            GateState::Lookup(_) => 1,
            GateState::Listing => 1,
            GateState::Done => 0,
        }
    }
}

/// The step that answers a report that was not asked for: the run ends,
/// and the request is rejected as invalid.
pub open spec fn out_of_turn() -> (GateState, GateAction) {
    (GateState::Done, GateAction::Reject(AuthError::Invalid))
}

/// The step of the verified gate.
///
/// A request without a credential is `Missing`. A credential is read as a
/// token under `key`; a token that names no user is rejected for the reason
/// it fails. For the user named, a read transaction is opened (`DBError`
/// where it cannot be) and the user is looked up (`DBQueryError` where the
/// lookup fails). The record found is the principal.
pub open spec fn verified_next(key: Seq<u8>, state: GateState, event: GateEvent) -> (
    GateState,
    GateAction,
) {
    match (state, event) {
        (GateState::Start, GateEvent::Request(None)) => (
            GateState::Done,
            GateAction::Reject(AuthError::Missing),
        ),
        (GateState::Start, GateEvent::Request(Some(text))) => match decoded(key, text@) {
            Ok(id) => (GateState::Decoded(id), GateAction::OpenTransaction),
            Err(reason) => (GateState::Done, GateAction::Reject(reason)),
        },
        (GateState::Decoded(id), GateEvent::Transaction(true)) => (
            GateState::Lookup(id),
            GateAction::FindById(id),
        ),
        (GateState::Decoded(_), GateEvent::Transaction(false)) => (
            GateState::Done,
            GateAction::Reject(AuthError::DBError),
        ),
        (GateState::Lookup(_), GateEvent::Found(Some(user))) => (
            GateState::Done,
            GateAction::Accept(Wrapper(user)),
        ),
        (GateState::Lookup(_), GateEvent::Found(None)) => (
            GateState::Done,
            GateAction::Reject(AuthError::DBQueryError),
        ),
        _ => out_of_turn(),
    }
}

/// The role whose first holder the bypass gate stands in for the caller.
pub open spec fn admin_role() -> Seq<char> {
    "admin"@
}

/// The first of `users` that holds the administrator's role.
pub open spec fn first_admin(users: Seq<User>) -> Option<User>
    decreases users.len(),
{
    if users.len() == 0 {
        None
    } else if users[0].holds(admin_role()) {
        Some(users[0])
    } else {
        first_admin(users.drop_first())
    }
}

/// The step of the bypass gate.
///
/// Whatever credential the request holds, a read transaction is opened and
/// the users are listed (`DBError` where either cannot be done). The first
/// administrator is the principal; without one the request is `Missing`.
pub open spec fn bypass_next(state: GateState, event: GateEvent) -> (GateState, GateAction) {
    match (state, event) {
        (GateState::Start, GateEvent::Request(_)) => (
            GateState::Opening,
            GateAction::OpenTransaction,
        ),
        (GateState::Opening, GateEvent::Transaction(true)) => (
            GateState::Listing,
            GateAction::FindAll,
        ),
        (GateState::Opening, GateEvent::Transaction(false)) => (
            GateState::Done,
            GateAction::Reject(AuthError::DBError),
        ),
        (GateState::Listing, GateEvent::Listed(Some(users))) => match first_admin(users@) {
            Some(user) => (GateState::Done, GateAction::Accept(Wrapper(user))),
            None => (GateState::Done, GateAction::Reject(AuthError::Missing)),
        },
        (GateState::Listing, GateEvent::Listed(None)) => (
            GateState::Done,
            GateAction::Reject(AuthError::DBError),
        ),
        _ => out_of_turn(),
    }
}

/// What the verified gate answers to a request: `credential` is the text of
/// its credential header, `opened` tells whether the read transaction could
/// be opened, and `found` is what the directory holds under the identifier
/// that the token names.
pub open spec fn verified_outcome(
    key: Seq<u8>,
    credential: Option<String>,
    opened: bool,
    found: Option<User>,
) -> Result<Wrapper, AuthError> {
    match credential {
        None => Err(AuthError::Missing),
        Some(text) => match decoded(key, text@) {
            Err(reason) => Err(reason),
            Ok(_) => if !opened {
                Err(AuthError::DBError)
            } else {
                match found {
                    None => Err(AuthError::DBQueryError),
                    Some(user) => Ok(Wrapper(user)),
                }
            },
        },
    }
}

/// What the bypass gate answers to a request: `opened` tells whether the
/// read transaction could be opened, and `listed` is the list of the
/// directory's users, where it could be had.
pub open spec fn bypass_outcome(opened: bool, listed: Option<Vec<User>>) -> Result<
    Wrapper,
    AuthError,
> {
    if !opened {
        Err(AuthError::DBError)
    } else {
        match listed {
            None => Err(AuthError::DBError),
            Some(users) => match first_admin(users@) {
                None => Err(AuthError::Missing),
                Some(user) => Ok(Wrapper(user)),
            },
        }
    }
}

/// The action on which a run of the verified gate ends, where the driver
/// answers every action with the report asked for.
pub open spec fn verified_run(
    key: Seq<u8>,
    credential: Option<String>,
    opened: bool,
    found: Option<User>,
) -> GateAction {
    let first = verified_next(key, GateState::Start, GateEvent::Request(credential));
    if first.1.is_final() {
        first.1
    } else {
        let second = verified_next(key, first.0, GateEvent::Transaction(opened));
        if second.1.is_final() {
            second.1
        } else {
            verified_next(key, second.0, GateEvent::Found(found)).1
        }
    }
}

/// The action on which a run of the bypass gate ends, where the driver
/// answers every action with the report asked for.
pub open spec fn bypass_run(
    credential: Option<String>,
    opened: bool,
    listed: Option<Vec<User>>,
) -> GateAction {
    let first = bypass_next(GateState::Start, GateEvent::Request(credential));
    let second = bypass_next(first.0, GateEvent::Transaction(opened));
    if second.1.is_final() {
        second.1
    } else {
        bypass_next(second.0, GateEvent::Listed(listed)).1
    }
}

/// A run of the verified gate ends on its answer: the request is accepted
/// for the user found, or rejected for the first reason that comes up.
pub proof fn lemma_verified_run(
    key: Seq<u8>,
    credential: Option<String>,
    opened: bool,
    found: Option<User>,
)
    ensures
        verified_run(key, credential, opened, found) == GateAction::of_outcome(
            verified_outcome(key, credential, opened, found),
        ),
        verified_run(key, credential, opened, found).is_final(),
{
}

/// A run of the bypass gate ends on its answer, and the credential of the
/// request has no part in it.
pub proof fn lemma_bypass_run(credential: Option<String>, opened: bool, listed: Option<Vec<User>>)
    ensures
        bypass_run(credential, opened, listed) == GateAction::of_outcome(
            bypass_outcome(opened, listed),
        ),
        bypass_run(credential, opened, listed).is_final(),
{
}

/// Every step of either gate brings the run nearer its end: the state
/// reached has fewer steps left, it is `Done` exactly when the action ends
/// the run, and a gate that is done rejects whatever is reported to it.
pub proof fn lemma_step_progress(key: Seq<u8>, state: GateState, event: GateEvent)
    ensures
        verified_next(key, state, event).0 is Done <==> verified_next(key, state, event).1.is_final(),
        bypass_next(state, event).0 is Done <==> bypass_next(state, event).1.is_final(),
        !(state is Done) ==> verified_next(key, state, event).0.steps_left() < state.steps_left(),
        !(state is Done) ==> bypass_next(state, event).0.steps_left() < state.steps_left(),
        state is Done ==> verified_next(key, state, event) == out_of_turn(),
        state is Done ==> bypass_next(state, event) == out_of_turn(),
{
}

/// The first administrator is an administrator of the list with none before
/// it, and there is one wherever the list holds an administrator at all.
pub proof fn lemma_first_admin(users: Seq<User>)
    ensures
        match first_admin(users) {
            Some(user) => exists|i: int|
                0 <= i < users.len() && #[trigger] users[i] == user && user.holds(admin_role())
                    && forall|j: int| 0 <= j < i ==> !(#[trigger] users[j]).holds(admin_role()),
            None => forall|j: int| 0 <= j < users.len() ==> !(#[trigger] users[j]).holds(admin_role()),
        },
    decreases users.len(),
{
    if users.len() > 0 && !users[0].holds(admin_role()) {
        let rest = users.drop_first();
        lemma_first_admin(rest);
        match first_admin(rest) {
            Some(user) => {
                let i = choose|i: int|
                    0 <= i < rest.len() && #[trigger] rest[i] == user && user.holds(admin_role())
                        && forall|j: int| 0 <= j < i ==> !(#[trigger] rest[j]).holds(admin_role());
                assert(users[i + 1] == user);
                assert forall|j: int| 0 <= j < i + 1 implies !(#[trigger] users[j]).holds(
                    admin_role(),
                ) by {
                    if j > 0 {
                        assert(users[j] == rest[j - 1]);
                    }
                }
            },
            None => {
                assert forall|j: int| 0 <= j < users.len() implies !(#[trigger] users[j]).holds(
                    admin_role(),
                ) by {
                    if j > 0 {
                        assert(users[j] == rest[j - 1]);
                    }
                }
            },
        }
    } else if users.len() > 0 {
        assert(users[0] == users[0]);
    }
}

/// Takes the first administrator out of `users`.
pub fn take_first_admin(users: Vec<User>) -> (found: Option<User>)
    ensures
        found == first_admin(users@),
{
    let ghost all = users@;
    let mut left = users;
    let mut i: usize = 0;
    assert(all.subrange(0, all.len() as int) =~= all);
    while i < left.len()
        invariant
            users@ == all,
            left@ == all,
            i <= all.len(),
            first_admin(all) == first_admin(all.subrange(i as int, all.len() as int)),
        decreases all.len() - i,
    {
        let ghost rest = all.subrange(i as int, all.len() as int);
        assert(rest.len() > 0 && rest[0] == all[i as int]);
        if left[i].has_role("admin") {
            return Some(left.remove(i));
        }
        assert(rest.drop_first() =~= all.subrange(i + 1, all.len() as int));
        i += 1;
    }
    assert(all.subrange(i as int, all.len() as int).len() == 0);
    None
}

/// Makes one step of the verified gate, under the key of the store.
pub fn verified_step(store: &KeyStore, state: GateState, event: GateEvent) -> (next: (
    GateState,
    GateAction,
))
    requires
        store.is_set(),
    ensures
        next == verified_next(store.key_bytes(), state, event),
{
    match (state, event) {
        (GateState::Start, GateEvent::Request(None)) => (
            GateState::Done,
            GateAction::Reject(AuthError::Missing),
        ),
        (GateState::Start, GateEvent::Request(Some(text))) => match user_cookie_decode(store, text) {
            Ok(id) => (GateState::Decoded(id), GateAction::OpenTransaction),
            Err(reason) => (GateState::Done, GateAction::Reject(reason)),
        },
        (GateState::Decoded(id), GateEvent::Transaction(true)) => (
            GateState::Lookup(id),
            GateAction::FindById(id),
        ),
        (GateState::Decoded(_), GateEvent::Transaction(false)) => (
            GateState::Done,
            GateAction::Reject(AuthError::DBError),
        ),
        (GateState::Lookup(_), GateEvent::Found(Some(user))) => (
            GateState::Done,
            GateAction::Accept(Wrapper(user)),
        ),
        (GateState::Lookup(_), GateEvent::Found(None)) => (
            GateState::Done,
            GateAction::Reject(AuthError::DBQueryError),
        ),
        _ => (GateState::Done, GateAction::Reject(AuthError::Invalid)),
    }
}

/// Makes one step of the bypass gate.
pub fn bypass_step(state: GateState, event: GateEvent) -> (next: (GateState, GateAction))
    ensures
        next == bypass_next(state, event),
{
    match (state, event) {
        (GateState::Start, GateEvent::Request(_)) => (
            GateState::Opening,
            GateAction::OpenTransaction,
        ),
        (GateState::Opening, GateEvent::Transaction(true)) => (
            GateState::Listing,
            GateAction::FindAll,
        ),
        (GateState::Opening, GateEvent::Transaction(false)) => (
            GateState::Done,
            GateAction::Reject(AuthError::DBError),
        ),
        (GateState::Listing, GateEvent::Listed(Some(users))) => match take_first_admin(users) {
            Some(user) => (GateState::Done, GateAction::Accept(Wrapper(user))),
            None => (GateState::Done, GateAction::Reject(AuthError::Missing)),
        },
        (GateState::Listing, GateEvent::Listed(None)) => (
            GateState::Done,
            GateAction::Reject(AuthError::DBError),
        ),
        _ => (GateState::Done, GateAction::Reject(AuthError::Invalid)),
    }
}

} // verus!
