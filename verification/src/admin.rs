//! Administrative operations: inspecting the user table and wiping every
//! session.

use vstd::prelude::*;
use crate::models::{Session, User};
use crate::store::{same_domain_tables, Store};

verus! {

pub struct AdminDefaultResponse {
    pub success: bool,
    pub message: String,
}

/// All registered users.
pub fn get_users(st: &Store) -> (r: &Vec<User>)
    ensures
        r@ == st.users@,
{
    &st.users
}

/// Delete every session row: every user is logged out at once.
pub fn session_reset(st: &mut Store)
    requires
        old(st).wf(),
    ensures
        final(st).wf(),
        final(st).users@ == old(st).users@,
        final(st).sessions@ == Seq::<Session>::empty(),
        same_domain_tables(*old(st), *final(st)),
        final(st).next_id == old(st).next_id,
{
    st.sessions.clear();
    assert(final(st).wf());
}

} // verus!
