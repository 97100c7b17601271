//! Users as authentication sees them: an identifier and the roles held.

use vstd::prelude::*;

verus! {

/// The identifier of a user: a 64-bit signed integer, opaque to this crate.
#[derive(Clone, Copy, Debug, PartialEq, Eq, Hash, Structural)]
pub struct UserID(pub i64);

/// The part of a user's record that authentication reads.
#[derive(Clone, Debug, PartialEq, Eq)]
pub struct User {
    /// The identifier under which the user directory keeps the record.
    pub id: UserID,
    /// The names of the roles the user holds.
    pub roles: Vec<String>,
}

impl User {
    /// Whether `role` is among the roles of the user.
    pub open spec fn holds(&self, role: Seq<char>) -> bool {
        exists|i: int| 0 <= i < self.roles@.len() && (#[trigger] self.roles@[i])@ == role
    }

    /// Tells whether the user holds the role named `role`.
    pub fn has_role(&self, role: &str) -> (held: bool)
        ensures
            held == self.holds(role@),
    {
        let wanted = role.to_owned();
        let mut i: usize = 0;
        while i < self.roles.len()
            invariant
                i <= self.roles@.len(),
                wanted@ == role@,
                forall|j: int| 0 <= j < i ==> (#[trigger] self.roles@[j])@ != role@,
            decreases self.roles@.len() - i,
        {
            if self.roles[i] == wanted {
                return true;
            }
            i += 1;
        }
        false
    }
}

/// The caller of a request, once authenticated: the record of the user the
/// request acts for. It stands for the length of that one request only.
#[derive(Clone, Debug, PartialEq, Eq)]
pub struct Wrapper(pub User);

impl Wrapper {
    /// The identifier of the authenticated user.
    pub fn get_user(&self) -> (id: UserID)
        ensures
            id == self.0.id,
    {
        self.0.id
    }
}

} // verus!
