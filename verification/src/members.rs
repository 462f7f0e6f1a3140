//! Group membership: listing the workers of a group and adding one.

use vstd::prelude::*;
use crate::auth::{resolve_current_user, resolve_ok, resolved_user};
use crate::error::ServiceError;
use crate::models::GroupUserMapping;
use crate::store::{
    first_group_match, has_group_match, has_membership, has_user_id, has_user_named,
    lemma_filter_extend, lemma_filter_whole, lemma_user_by_id, lemma_user_named, user_by_id,
    user_named, Store,
};

verus! {

// ---------------------------------------------------------------------------
// Wire types.
// ---------------------------------------------------------------------------

/// One entry of the worker list.
pub struct Worker {
    pub user_name: String,
    pub user_email: String,
}

pub struct GetWorkerListRequest {
    pub owner_user_name: String,
    pub group_name: String,
}

pub struct GetWorkerListResponse {
    pub workers: Vec<Worker>,
}

pub struct AddWorkerRequest {
    pub owner_user_name: String,
    pub group_name: String,
    pub worker_user_name: String,
}

pub struct AddWorkerResponse {
    pub success: bool,
    pub message: String,
}

// ---------------------------------------------------------------------------
// Worker listing.
// ---------------------------------------------------------------------------

/// Selects the membership rows of a group whose user resolves and is not
/// the owner name on the request.
pub open spec fn worker_row_sel(st: Store, gid: i32, owner: Seq<char>) -> spec_fn(
    GroupUserMapping,
) -> bool {
    |m: GroupUserMapping|
        m.group_id == gid && has_user_id(st.users@, m.user_id) && user_by_id(
            st.users@,
            m.user_id,
        ).user_name@ != owner
}

/// The membership rows the worker list is built from, in table order.
pub open spec fn worker_rows_for(st: Store, gid: i32, owner: Seq<char>) -> Seq<GroupUserMapping> {
    st.memberships@.filter(worker_row_sel(st, gid, owner))
}

/// The list entry carries the member's name and email.
pub open spec fn worker_item_matches(st: Store, item: Worker, m: GroupUserMapping) -> bool {
    &&& item.user_name@ == user_by_id(st.users@, m.user_id).user_name@
    &&& item.user_email@ == user_by_id(st.users@, m.user_id).user_email@
}

/// List the members of a group other than the claimed owner, with their
/// emails.  The group is resolved by the (owner name, group name) pair
/// alone; no session is consulted on this read path.
pub fn get_worker_list(st: &Store, req: &GetWorkerListRequest) -> (r: Result<
    GetWorkerListResponse,
    ServiceError,
>)
    requires
        st.wf(),
    ensures
        match r {
            Ok(resp) => {
                &&& exists|gi: int|
                    #[trigger] first_group_match(
                        *st,
                        req.owner_user_name@,
                        req.group_name@,
                        gi,
                    ) && ({
                        let sel = worker_rows_for(
                            *st,
                            st.groups@[gi].group_id,
                            req.owner_user_name@,
                        );
                        &&& resp.workers@.len() == sel.len()
                        &&& forall|p: int|
                            0 <= p < sel.len() ==> worker_item_matches(
                                *st,
                                #[trigger] resp.workers@[p],
                                sel[p],
                            )
                    })
            },
            Err(e) => match e {
                ServiceError::NotFound => !has_group_match(
                    *st,
                    req.owner_user_name@,
                    req.group_name@,
                ),
                _ => false,
            },
        },
{
    let gi = match st.find_group(&req.owner_user_name, &req.group_name) {
        Some(gi) => gi,
        None => {
            return Err(ServiceError::NotFound);
        },
    };
    let gid = st.groups[gi].group_id;
    let ghost sel_pred = worker_row_sel(*st, gid, req.owner_user_name@);
    let mut workers: Vec<Worker> = Vec::new();
    let n = st.memberships.len();
    let mut i: usize = 0;
    while i < n
        invariant
            st.wf(),
            n == st.memberships@.len(),
            i <= n,
            sel_pred == worker_row_sel(*st, gid, req.owner_user_name@),
            workers@.len() == st.memberships@.subrange(0, i as int).filter(sel_pred).len(),
            forall|p: int|
                0 <= p < workers@.len() ==> worker_item_matches(
                    *st,
                    #[trigger] workers@[p],
                    st.memberships@.subrange(0, i as int).filter(sel_pred)[p],
                ),
        decreases n - i,
    {
        proof {
            lemma_filter_extend(st.memberships@, sel_pred, i as int);
        }
        if st.memberships[i].group_id == gid {
            match st.find_user_by_id(st.memberships[i].user_id) {
                Some(ui) => {
                    proof {
                        lemma_user_by_id(st.users@, ui as int);
                    }
                    if !(st.users[ui].user_name == req.owner_user_name) {
                        let item = Worker {
                            user_name: st.users[ui].user_name.clone(),
                            user_email: st.users[ui].user_email.clone(),
                        };
                        workers.push(item);
                        proof {
                            assert(sel_pred(st.memberships@[i as int]));
                        }
                    } else {
                        proof {
                            assert(!sel_pred(st.memberships@[i as int]));
                        }
                    }
                },
                None => {
                    proof {
                        assert(!sel_pred(st.memberships@[i as int]));
                    }
                },
            }
        } else {
            proof {
                assert(!sel_pred(st.memberships@[i as int]));
            }
        }
        i += 1;
    }
    proof {
        lemma_filter_whole(st.memberships@, sel_pred);
    }
    Ok(GetWorkerListResponse { workers })
}

// ---------------------------------------------------------------------------
// Adding a worker.
// ---------------------------------------------------------------------------

/// Add a registered user as a read-only member of a group.  The caller must
/// present a live session whose username equals the claimed owner name; the
/// target user must exist; a duplicate membership is a `Conflict`.
pub fn add_worker(st: &mut Store, session_id: Option<&String>, req: &AddWorkerRequest, now: i64)
    -> (r: Result<(), ServiceError>)
    requires
        old(st).wf(),
    ensures
        final(st).wf(),
        final(st).users@ == old(st).users@,
        final(st).sessions@ == old(st).sessions@,
        final(st).groups@ == old(st).groups@,
        final(st).projects@ == old(st).projects@,
        final(st).tags@ == old(st).tags@,
        final(st).tag_project_mappings@ == old(st).tag_project_mappings@,
        final(st).tasks@ == old(st).tasks@,
        final(st).next_id == old(st).next_id,
        match r {
            Ok(()) => {
                &&& session_id matches Some(sid)
                &&& resolve_ok(*old(st), sid@, now)
                &&& resolved_user(*old(st), sid@).user_name@ == req.owner_user_name@
                &&& has_user_named(old(st).users@, req.worker_user_name@)
                &&& exists|gi: int|
                    #[trigger] first_group_match(
                        *old(st),
                        req.owner_user_name@,
                        req.group_name@,
                        gi,
                    ) && ({
                        let gid = old(st).groups@[gi].group_id;
                        let uid = user_named(old(st).users@, req.worker_user_name@).user_id;
                        &&& !has_membership(old(st).memberships@, gid, uid)
                        &&& final(st).memberships@ == old(st).memberships@.push(
                            GroupUserMapping { group_id: gid, user_id: uid, writeable: false },
                        )
                    })
            },
            Err(e) => {
                &&& final(st).memberships@ == old(st).memberships@
                &&& match e {
                    ServiceError::NoSession => session_id is None,
                    ServiceError::Unauthorized => session_id matches Some(sid) && (!resolve_ok(
                        *old(st),
                        sid@,
                        now,
                    ) || resolved_user(*old(st), sid@).user_name@ != req.owner_user_name@),
                    ServiceError::NotFound => !has_user_named(old(st).users@, req.worker_user_name@)
                        || !has_group_match(*old(st), req.owner_user_name@, req.group_name@),
                    ServiceError::Conflict => {
                        &&& has_user_named(old(st).users@, req.worker_user_name@)
                        &&& exists|gi: int|
                            #[trigger] first_group_match(
                                *old(st),
                                req.owner_user_name@,
                                req.group_name@,
                                gi,
                            ) && has_membership(
                                old(st).memberships@,
                                old(st).groups@[gi].group_id,
                                user_named(old(st).users@, req.worker_user_name@).user_id,
                            )
                    },
                    _ => false,
                }
            },
        },
{
    let current = match resolve_current_user(st, session_id, now) {
        Ok(name) => name,
        Err(e) => {
            return Err(e);
        },
    };
    if !(current == req.owner_user_name) {
        return Err(ServiceError::Unauthorized);
    }
    let wi = match st.find_user_by_name(&req.worker_user_name) {
        Some(i) => i,
        None => {
            return Err(ServiceError::NotFound);
        },
    };
    proof {
        lemma_user_named(st.users@, wi as int);
    }
    let uid = st.users[wi].user_id;
    let gi = match st.find_group(&req.owner_user_name, &req.group_name) {
        Some(gi) => gi,
        None => {
            return Err(ServiceError::NotFound);
        },
    };
    let gid = st.groups[gi].group_id;
    if st.membership_exists(gid, uid) {
        return Err(ServiceError::Conflict);
    }
    st.memberships.push(GroupUserMapping { group_id: gid, user_id: uid, writeable: false });
    assert(final(st).wf());
    Ok(())
}

} // verus!
