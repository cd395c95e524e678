//! The session boundary: the shapes the session store exchanges with its
//! callers, and the authorization rule for updating a stored session.
//!
//! The store itself (persistence, identifiers, expiry) lives outside the
//! library; callers fetch a session, feed its lines into the engine, and may
//! write results back. The decision of whether an update may proceed is pure
//! and is verified here.

use vstd::prelude::*;
use crate::models::Person;

verus! {

/// Request shape for creating a session.
pub struct CreateSessionRequest {
    pub people: Vec<Person>,
    pub fund_amount: i128,
    pub tip_percentage: i128,
}

/// Response shape for a created session: its identifier and the secret that
/// authorizes later edits.
pub struct CreateSessionResponse {
    pub id: String,
    pub edit_secret: String,
}

/// Response shape for reading a session back.
pub struct GetSessionResponse {
    pub people: Vec<Person>,
    pub fund_amount: i128,
    pub tip_percentage: i128,
}

/// Request shape for overwriting a stored session.
pub struct UpdateSessionRequest {
    pub people: Vec<Person>,
    pub fund_amount: i128,
    pub tip_percentage: i128,
}

/// What the store answers to an update attempt.
#[derive(Debug, PartialEq, Eq, Structural)]
pub enum UpdateOutcome {
    /// The secret matched a stored session: the update may proceed.
    Updated,
    /// No secret was presented, or it did not match the stored one.
    Forbidden,
    /// No session with the requested identifier exists.
    NotFound,
}

/// The authorization rule for session updates: a presented secret is
/// required, the session must exist, and the secrets must match exactly.
/// An absent secret is refused before the store is even consulted.
pub fn authorize_update(stored_secret: Option<&String>, presented: Option<&String>) -> (r:
    UpdateOutcome)
    ensures
        presented is None ==> r == UpdateOutcome::Forbidden,
        presented is Some && stored_secret is None ==> r == UpdateOutcome::NotFound,
        presented is Some && stored_secret is Some ==> (r == UpdateOutcome::Updated <==> stored_secret->0@
            == presented->0@),
        presented is Some && stored_secret is Some && stored_secret->0@ != presented->0@ ==> r
            == UpdateOutcome::Forbidden,
{
    match presented {
        Option::None => UpdateOutcome::Forbidden,
        Option::Some(given) => match stored_secret {
            Option::None => UpdateOutcome::NotFound,
            Option::Some(stored) => if *stored == *given {
                UpdateOutcome::Updated
            } else {
                UpdateOutcome::Forbidden
            },
        },
    }
}

} // verus!
