//! A joined participant: the connection identity it joined under and its
//! display name.

use vstd::prelude::*;

verus! {

/// Mathematical value of a [`User`]: the identity as a 128-bit number and
/// the name as a sequence of characters.
#[verifier::ext_equal]
pub struct UserView {
    pub id: u128,
    pub name: Seq<char>,
}

pub struct User {
    pub id: u128,
    pub name: String,
}

impl View for User {
    type V = UserView;

    open spec fn view(&self) -> UserView {
        UserView { id: self.id, name: self.name@ }
    }
}

impl User {
    pub fn new(id: u128, name: &str) -> (user: User)
        ensures
            user@ == (UserView { id, name: name@ }),
    {
        User { id, name: name.to_owned() }
    }

    /// A copy holding the same identity and name.
    pub fn duplicate(&self) -> (user: User)
        ensures
            user@ == self@,
    {
        User { id: self.id, name: self.name.clone() }
    }
}

} // verus!
