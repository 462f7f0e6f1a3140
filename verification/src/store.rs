//! The relational state of the service: one value holding every table, with
//! the uniqueness invariants the storage schema declares, and the verified
//! row lookups every operation builds on.

use vstd::prelude::*;
use crate::models::{Group, GroupUserMapping, Project, Session, Tag, TagProjectMapping, Task, User};

verus! {

// ---------------------------------------------------------------------------
// Lookup predicates and accessors over the row tables.
// ---------------------------------------------------------------------------

/// Some user row carries this user id.
pub open spec fn has_user_id(us: Seq<User>, uid: i32) -> bool {
    exists|i: int| 0 <= i < us.len() && #[trigger] us[i].user_id == uid
}

/// The user row with this id (meaningful when unique and present).
pub open spec fn user_by_id(us: Seq<User>, uid: i32) -> User {
    us[choose|i: int| 0 <= i < us.len() && #[trigger] us[i].user_id == uid]
}

/// Some user row carries this user name.
pub open spec fn has_user_named(us: Seq<User>, name: Seq<char>) -> bool {
    exists|i: int| 0 <= i < us.len() && #[trigger] us[i].user_name@ == name
}

/// The user row with this name (meaningful when unique and present).
pub open spec fn user_named(us: Seq<User>, name: Seq<char>) -> User {
    us[choose|i: int| 0 <= i < us.len() && #[trigger] us[i].user_name@ == name]
}

/// Some user row carries this email address.
pub open spec fn has_user_email(us: Seq<User>, email: Seq<char>) -> bool {
    exists|i: int| 0 <= i < us.len() && #[trigger] us[i].user_email@ == email
}

/// Some session row carries this token.
pub open spec fn has_session_id(ss: Seq<Session>, sid: Seq<char>) -> bool {
    exists|i: int| 0 <= i < ss.len() && #[trigger] ss[i].session_id@ == sid
}

/// The index of the session row with this token.
pub open spec fn session_index_of(ss: Seq<Session>, sid: Seq<char>) -> int {
    choose|i: int| 0 <= i < ss.len() && #[trigger] ss[i].session_id@ == sid
}

/// The session row with this token (meaningful when unique and present).
pub open spec fn session_with_id(ss: Seq<Session>, sid: Seq<char>) -> Session {
    ss[session_index_of(ss, sid)]
}

/// Some session row belongs to this user.
pub open spec fn has_session_for_user(ss: Seq<Session>, uid: i32) -> bool {
    exists|i: int| 0 <= i < ss.len() && #[trigger] ss[i].user_id == uid
}

/// The index of the session row of this user.
pub open spec fn session_index_for_user(ss: Seq<Session>, uid: i32) -> int {
    choose|i: int| 0 <= i < ss.len() && #[trigger] ss[i].user_id == uid
}

/// The session row of this user (meaningful when unique and present).
pub open spec fn session_for_user(ss: Seq<Session>, uid: i32) -> Session {
    ss[session_index_for_user(ss, uid)]
}

/// Some group row carries this group id.
pub open spec fn has_group_id(gs: Seq<Group>, gid: i32) -> bool {
    exists|i: int| 0 <= i < gs.len() && #[trigger] gs[i].group_id == gid
}

/// The group row with this id (meaningful when unique and present).
pub open spec fn group_by_id(gs: Seq<Group>, gid: i32) -> Group {
    gs[choose|i: int| 0 <= i < gs.len() && #[trigger] gs[i].group_id == gid]
}

/// Some project row carries this project id.
pub open spec fn has_project_id(ps: Seq<Project>, pid: i32) -> bool {
    exists|i: int| 0 <= i < ps.len() && #[trigger] ps[i].project_id == pid
}

/// The project row with this id (meaningful when unique and present).
pub open spec fn project_by_id(ps: Seq<Project>, pid: i32) -> Project {
    ps[choose|i: int| 0 <= i < ps.len() && #[trigger] ps[i].project_id == pid]
}

/// Some membership row links this group and user.
pub open spec fn has_membership(ms: Seq<GroupUserMapping>, gid: i32, uid: i32) -> bool {
    exists|i: int|
        0 <= i < ms.len() && (#[trigger] ms[i]).group_id == gid && ms[i].user_id == uid
}

/// Some tag-project mapping row links this tag and project.
pub open spec fn has_mapping(ms: Seq<TagProjectMapping>, tid: i32, pid: i32) -> bool {
    exists|i: int|
        0 <= i < ms.len() && (#[trigger] ms[i]).tag_id == tid && ms[i].project_id == pid
}

/// Some project row carries this project id inside this group.
pub open spec fn project_in_group(ps: Seq<Project>, pid: i32, gid: i32) -> bool {
    exists|i: int|
        0 <= i < ps.len() && (#[trigger] ps[i]).project_id == pid && ps[i].group_id == gid
}

// ---------------------------------------------------------------------------
// Group resolution by (owner user name, group name), as the handlers do it.
// ---------------------------------------------------------------------------

/// The group row is named `gname` and owned by the user named `owner`.
pub open spec fn group_matches(st: Store, g: Group, owner: Seq<char>, gname: Seq<char>) -> bool {
    &&& g.group_name@ == gname
    &&& has_user_id(st.users@, g.owner_user_id)
    &&& user_by_id(st.users@, g.owner_user_id).user_name@ == owner
}

/// Some group row matches the (owner, name) pair.
pub open spec fn has_group_match(st: Store, owner: Seq<char>, gname: Seq<char>) -> bool {
    exists|i: int| 0 <= i < st.groups@.len() && group_matches(st, #[trigger] st.groups@[i], owner, gname)
}

/// `gi` is the first group row matching the (owner, name) pair: the row a
/// single-row lookup returns.
pub open spec fn first_group_match(st: Store, owner: Seq<char>, gname: Seq<char>, gi: int) -> bool {
    &&& 0 <= gi < st.groups@.len()
    &&& group_matches(st, st.groups@[gi], owner, gname)
    &&& forall|j: int|
        0 <= j < gi ==> !group_matches(st, #[trigger] st.groups@[j], owner, gname)
}

// ---------------------------------------------------------------------------
// Resolution of projects, tags and tasks by scoped names.
// ---------------------------------------------------------------------------

/// The project row carries this name inside this group.
pub open spec fn project_matches(p: Project, gid: i32, name: Seq<char>) -> bool {
    p.group_id == gid && p.project_name@ == name
}

/// Some project row matches (group, name).
pub open spec fn has_project_match(ps: Seq<Project>, gid: i32, name: Seq<char>) -> bool {
    exists|i: int| 0 <= i < ps.len() && project_matches(#[trigger] ps[i], gid, name)
}

/// `pi` is the first project row matching (group, name).
pub open spec fn first_project_match(ps: Seq<Project>, gid: i32, name: Seq<char>, pi: int) -> bool {
    &&& 0 <= pi < ps.len()
    &&& project_matches(ps[pi], gid, name)
    &&& forall|j: int| 0 <= j < pi ==> !project_matches(#[trigger] ps[j], gid, name)
}

/// The tag row carries this name inside this group.
pub open spec fn tag_matches(t: Tag, gid: i32, name: Seq<char>) -> bool {
    t.group_id == gid && t.tag_name@ == name
}

/// Some tag row matches (group, name).
pub open spec fn has_tag_match(ts: Seq<Tag>, gid: i32, name: Seq<char>) -> bool {
    exists|i: int| 0 <= i < ts.len() && tag_matches(#[trigger] ts[i], gid, name)
}

/// `ti` is the first tag row matching (group, name).
pub open spec fn first_tag_match(ts: Seq<Tag>, gid: i32, name: Seq<char>, ti: int) -> bool {
    &&& 0 <= ti < ts.len()
    &&& tag_matches(ts[ti], gid, name)
    &&& forall|j: int| 0 <= j < ti ==> !tag_matches(#[trigger] ts[j], gid, name)
}

/// The index of the first tag row matching (group, name), where one exists.
pub open spec fn first_tag_index(ts: Seq<Tag>, gid: i32, name: Seq<char>) -> int {
    choose|ti: int| #[trigger] first_tag_match(ts, gid, name, ti)
}

/// Any match at or before `w` yields a first match.
proof fn lemma_first_tag_exists_from(ts: Seq<Tag>, gid: i32, name: Seq<char>, w: int)
    requires
        0 <= w < ts.len(),
        tag_matches(ts[w], gid, name),
    ensures
        exists|ti: int| #[trigger] first_tag_match(ts, gid, name, ti),
    decreases w,
{
    if forall|j: int| 0 <= j < w ==> !tag_matches(#[trigger] ts[j], gid, name) {
        assert(first_tag_match(ts, gid, name, w));
    } else {
        let j = choose|j: int| 0 <= j < w && tag_matches(#[trigger] ts[j], gid, name);
        lemma_first_tag_exists_from(ts, gid, name, j);
    }
}

/// A matching tag exists, so a first matching tag exists.
pub proof fn lemma_first_tag_exists(ts: Seq<Tag>, gid: i32, name: Seq<char>)
    requires
        has_tag_match(ts, gid, name),
    ensures
        exists|ti: int| #[trigger] first_tag_match(ts, gid, name, ti),
        first_tag_match(ts, gid, name, first_tag_index(ts, gid, name)),
{
    let w = choose|w: int| 0 <= w < ts.len() && tag_matches(#[trigger] ts[w], gid, name);
    lemma_first_tag_exists_from(ts, gid, name, w);
}

/// At most one index is the first match, so `first_tag_index` denotes it.
pub proof fn lemma_first_tag_unique(ts: Seq<Tag>, gid: i32, name: Seq<char>, ti: int)
    requires
        first_tag_match(ts, gid, name, ti),
    ensures
        first_tag_index(ts, gid, name) == ti,
{
    let tj = first_tag_index(ts, gid, name);
    assert(first_tag_match(ts, gid, name, tj));
    if ti < tj {
        assert(!tag_matches(ts[ti], gid, name));
    }
    if tj < ti {
        assert(!tag_matches(ts[tj], gid, name));
    }
}

/// The task row carries this title inside this project.
pub open spec fn task_matches(t: Task, pid: i32, title: Seq<char>) -> bool {
    t.project_id == pid && t.title@ == title
}

/// Some task row matches (project, title).
pub open spec fn has_task_match(ts: Seq<Task>, pid: i32, title: Seq<char>) -> bool {
    exists|i: int| 0 <= i < ts.len() && task_matches(#[trigger] ts[i], pid, title)
}

/// `ki` is the first task row matching (project, title).
pub open spec fn first_task_match(ts: Seq<Task>, pid: i32, title: Seq<char>, ki: int) -> bool {
    &&& 0 <= ki < ts.len()
    &&& task_matches(ts[ki], pid, title)
    &&& forall|j: int| 0 <= j < ki ==> !task_matches(#[trigger] ts[j], pid, title)
}

// ---------------------------------------------------------------------------
// Table invariants.
// ---------------------------------------------------------------------------

/// User ids, user names and emails are pairwise distinct.
pub open spec fn users_distinct(us: Seq<User>) -> bool {
    forall|i: int, j: int|
        #![trigger us[i], us[j]]
        0 <= i < j < us.len() ==> us[i].user_id != us[j].user_id && us[i].user_name@
            != us[j].user_name@ && us[i].user_email@ != us[j].user_email@
}

/// Session tokens are pairwise distinct and no user holds two rows.
pub open spec fn sessions_distinct(ss: Seq<Session>) -> bool {
    forall|i: int, j: int|
        #![trigger ss[i], ss[j]]
        0 <= i < j < ss.len() ==> ss[i].session_id@ != ss[j].session_id@ && ss[i].user_id
            != ss[j].user_id
}

/// Group ids are pairwise distinct.
pub open spec fn groups_distinct(gs: Seq<Group>) -> bool {
    forall|i: int, j: int|
        #![trigger gs[i], gs[j]]
        0 <= i < j < gs.len() ==> gs[i].group_id != gs[j].group_id
}

/// No (group, user) pair appears on two membership rows.
pub open spec fn memberships_distinct(ms: Seq<GroupUserMapping>) -> bool {
    forall|i: int, j: int|
        #![trigger ms[i], ms[j]]
        0 <= i < j < ms.len() ==> !(ms[i].group_id == ms[j].group_id && ms[i].user_id
            == ms[j].user_id)
}

/// Project ids are pairwise distinct.
pub open spec fn projects_distinct(ps: Seq<Project>) -> bool {
    forall|i: int, j: int|
        #![trigger ps[i], ps[j]]
        0 <= i < j < ps.len() ==> ps[i].project_id != ps[j].project_id
}

/// Tag ids are pairwise distinct.
pub open spec fn tags_distinct(ts: Seq<Tag>) -> bool {
    forall|i: int, j: int|
        #![trigger ts[i], ts[j]]
        0 <= i < j < ts.len() ==> ts[i].tag_id != ts[j].tag_id
}

/// Task ids are pairwise distinct.
pub open spec fn tasks_distinct(ts: Seq<Task>) -> bool {
    forall|i: int, j: int|
        #![trigger ts[i], ts[j]]
        0 <= i < j < ts.len() ==> ts[i].task_id != ts[j].task_id
}

/// Every stored task carries real calendar timestamps.
pub open spec fn tasks_times_valid(ts: Seq<Task>) -> bool {
    forall|i: int|
        0 <= i < ts.len() ==> (#[trigger] ts[i]).start_time.valid() && ts[i].end_time.valid()
}

// ---------------------------------------------------------------------------
// The store.
// ---------------------------------------------------------------------------

/// The whole relational state.  Surrogate ids are allocated from `next_id`,
/// which strictly dominates every id stored anywhere.
pub struct Store {
    pub users: Vec<User>,
    pub sessions: Vec<Session>,
    pub groups: Vec<Group>,
    pub memberships: Vec<GroupUserMapping>,
    pub projects: Vec<Project>,
    pub tags: Vec<Tag>,
    pub tag_project_mappings: Vec<TagProjectMapping>,
    pub tasks: Vec<Task>,
    pub next_id: i32,
}

impl Store {
    /// An id already handed out: positive and below the allocation cursor.
    pub open spec fn id_ok(self, id: i32) -> bool {
        0 < id < self.next_id
    }

    /// Every id field of every row is positive and below `next_id`.
    pub open spec fn bounds_ok(self) -> bool {
        &&& forall|i: int|
            0 <= i < self.users@.len() ==> self.id_ok((#[trigger] self.users@[i]).user_id)
        &&& forall|i: int|
            0 <= i < self.sessions@.len() ==> self.id_ok((#[trigger] self.sessions@[i]).user_id)
        &&& forall|i: int|
            0 <= i < self.groups@.len() ==> self.id_ok((#[trigger] self.groups@[i]).group_id)
                && self.id_ok(self.groups@[i].owner_user_id)
        &&& forall|i: int|
            0 <= i < self.memberships@.len() ==> self.id_ok(
                (#[trigger] self.memberships@[i]).group_id,
            ) && self.id_ok(self.memberships@[i].user_id)
        &&& forall|i: int|
            0 <= i < self.projects@.len() ==> self.id_ok(
                (#[trigger] self.projects@[i]).project_id,
            ) && self.id_ok(self.projects@[i].group_id)
        &&& forall|i: int|
            0 <= i < self.tags@.len() ==> self.id_ok((#[trigger] self.tags@[i]).tag_id)
                && self.id_ok(self.tags@[i].group_id)
        &&& forall|i: int|
            0 <= i < self.tag_project_mappings@.len() ==> self.id_ok(
                (#[trigger] self.tag_project_mappings@[i]).tag_id,
            ) && self.id_ok(self.tag_project_mappings@[i].project_id)
        &&& forall|i: int|
            0 <= i < self.tasks@.len() ==> self.id_ok((#[trigger] self.tasks@[i]).task_id)
                && self.id_ok(self.tasks@[i].project_id) && self.id_ok(
                self.tasks@[i].worker_user_id,
            )
    }

    /// Well-formedness: the schema's uniqueness constraints plus id bounds.
    pub open spec fn wf(self) -> bool {
        &&& users_distinct(self.users@)
        &&& sessions_distinct(self.sessions@)
        &&& groups_distinct(self.groups@)
        &&& memberships_distinct(self.memberships@)
        &&& projects_distinct(self.projects@)
        &&& tags_distinct(self.tags@)
        &&& tasks_distinct(self.tasks@)
        &&& tasks_times_valid(self.tasks@)
        &&& self.bounds_ok()
        &&& self.next_id >= 1
    }

    /// An empty store.
    pub fn new() -> (r: Store)
        ensures
            r.wf(),
            r.users@ == Seq::<User>::empty(),
            r.sessions@ == Seq::<Session>::empty(),
            r.groups@ == Seq::<Group>::empty(),
            r.memberships@ == Seq::<GroupUserMapping>::empty(),
            r.projects@ == Seq::<Project>::empty(),
            r.tags@ == Seq::<Tag>::empty(),
            r.tag_project_mappings@ == Seq::<TagProjectMapping>::empty(),
            r.tasks@ == Seq::<Task>::empty(),
            r.next_id == 1,
    {
        Store {
            users: Vec::new(),
            sessions: Vec::new(),
            groups: Vec::new(),
            memberships: Vec::new(),
            projects: Vec::new(),
            tags: Vec::new(),
            tag_project_mappings: Vec::new(),
            tasks: Vec::new(),
            next_id: 1,
        }
    }

    // -----------------------------------------------------------------------
    // Row finders.  Each returns the first matching index, exactly as the
    // storage engine's single-row lookups do.
    // -----------------------------------------------------------------------

    /// First user row with this name.
    pub fn find_user_by_name(&self, name: &String) -> (r: Option<usize>)
        ensures
            match r {
                Some(i) => i < self.users@.len() && self.users@[i as int].user_name@ == name@
                    && forall|j: int|
                    0 <= j < i ==> (#[trigger] self.users@[j]).user_name@ != name@,
                None => forall|j: int|
                    0 <= j < self.users@.len() ==> (#[trigger] self.users@[j]).user_name@ != name@,
            },
            r is Some <==> has_user_named(self.users@, name@),
    {
        let n = self.users.len();
        let mut i: usize = 0;
        while i < n
            invariant
                n == self.users@.len(),
                i <= n,
                forall|j: int| 0 <= j < i ==> (#[trigger] self.users@[j]).user_name@ != name@,
            decreases n - i,
        {
            if self.users[i].user_name == *name {
                return Some(i);
            }
            i += 1;
        }
        None
    }

    /// First user row with this email.
    pub fn find_user_by_email(&self, email: &String) -> (r: Option<usize>)
        ensures
            match r {
                Some(i) => i < self.users@.len() && self.users@[i as int].user_email@ == email@,
                None => forall|j: int|
                    0 <= j < self.users@.len() ==> (#[trigger] self.users@[j]).user_email@
                        != email@,
            },
            r is Some <==> has_user_email(self.users@, email@),
    {
        let n = self.users.len();
        let mut i: usize = 0;
        while i < n
            invariant
                n == self.users@.len(),
                i <= n,
                forall|j: int| 0 <= j < i ==> (#[trigger] self.users@[j]).user_email@ != email@,
            decreases n - i,
        {
            if self.users[i].user_email == *email {
                return Some(i);
            }
            i += 1;
        }
        None
    }

    /// First user row with this id.
    pub fn find_user_by_id(&self, uid: i32) -> (r: Option<usize>)
        ensures
            match r {
                Some(i) => i < self.users@.len() && self.users@[i as int].user_id == uid,
                None => forall|j: int|
                    0 <= j < self.users@.len() ==> (#[trigger] self.users@[j]).user_id != uid,
            },
            r is Some <==> has_user_id(self.users@, uid),
    {
        let n = self.users.len();
        let mut i: usize = 0;
        while i < n
            invariant
                n == self.users@.len(),
                i <= n,
                forall|j: int| 0 <= j < i ==> (#[trigger] self.users@[j]).user_id != uid,
            decreases n - i,
        {
            if self.users[i].user_id == uid {
                return Some(i);
            }
            i += 1;
        }
        None
    }

    /// First session row with this token.
    pub fn find_session_by_id(&self, sid: &String) -> (r: Option<usize>)
        ensures
            match r {
                Some(i) => i < self.sessions@.len() && self.sessions@[i as int].session_id@ == sid@,
                None => forall|j: int|
                    0 <= j < self.sessions@.len() ==> (#[trigger] self.sessions@[j]).session_id@
                        != sid@,
            },
            r is Some <==> has_session_id(self.sessions@, sid@),
    {
        let n = self.sessions.len();
        let mut i: usize = 0;
        while i < n
            invariant
                n == self.sessions@.len(),
                i <= n,
                forall|j: int| 0 <= j < i ==> (#[trigger] self.sessions@[j]).session_id@ != sid@,
            decreases n - i,
        {
            if self.sessions[i].session_id == *sid {
                return Some(i);
            }
            i += 1;
        }
        None
    }

    /// First session row of this user.
    pub fn find_session_by_user(&self, uid: i32) -> (r: Option<usize>)
        ensures
            match r {
                Some(i) => i < self.sessions@.len() && self.sessions@[i as int].user_id == uid,
                None => forall|j: int|
                    0 <= j < self.sessions@.len() ==> (#[trigger] self.sessions@[j]).user_id
                        != uid,
            },
            r is Some <==> has_session_for_user(self.sessions@, uid),
    {
        let n = self.sessions.len();
        let mut i: usize = 0;
        while i < n
            invariant
                n == self.sessions@.len(),
                i <= n,
                forall|j: int| 0 <= j < i ==> (#[trigger] self.sessions@[j]).user_id != uid,
            decreases n - i,
        {
            if self.sessions[i].user_id == uid {
                return Some(i);
            }
            i += 1;
        }
        None
    }

    /// First group row with this id.
    pub fn find_group_by_id(&self, gid: i32) -> (r: Option<usize>)
        ensures
            match r {
                Some(i) => i < self.groups@.len() && self.groups@[i as int].group_id == gid,
                None => forall|j: int|
                    0 <= j < self.groups@.len() ==> (#[trigger] self.groups@[j]).group_id != gid,
            },
            r is Some <==> has_group_id(self.groups@, gid),
    {
        let n = self.groups.len();
        let mut i: usize = 0;
        while i < n
            invariant
                n == self.groups@.len(),
                i <= n,
                forall|j: int| 0 <= j < i ==> (#[trigger] self.groups@[j]).group_id != gid,
            decreases n - i,
        {
            if self.groups[i].group_id == gid {
                return Some(i);
            }
            i += 1;
        }
        None
    }

    /// First project row with this id.
    pub fn find_project_by_id(&self, pid: i32) -> (r: Option<usize>)
        ensures
            match r {
                Some(i) => i < self.projects@.len() && self.projects@[i as int].project_id == pid,
                None => forall|j: int|
                    0 <= j < self.projects@.len() ==> (#[trigger] self.projects@[j]).project_id
                        != pid,
            },
            r is Some <==> has_project_id(self.projects@, pid),
    {
        let n = self.projects.len();
        let mut i: usize = 0;
        while i < n
            invariant
                n == self.projects@.len(),
                i <= n,
                forall|j: int| 0 <= j < i ==> (#[trigger] self.projects@[j]).project_id != pid,
            decreases n - i,
        {
            if self.projects[i].project_id == pid {
                return Some(i);
            }
            i += 1;
        }
        None
    }

    /// First group row named `gname` and owned by the user named `owner`:
    /// the join lookup every group-scoped handler starts with.
    pub fn find_group(&self, owner: &String, gname: &String) -> (r: Option<usize>)
        requires
            self.wf(),
        ensures
            match r {
                Some(i) => first_group_match(*self, owner@, gname@, i as int),
                None => forall|j: int|
                    0 <= j < self.groups@.len() ==> !group_matches(
                        *self,
                        #[trigger] self.groups@[j],
                        owner@,
                        gname@,
                    ),
            },
            r is Some <==> has_group_match(*self, owner@, gname@),
    {
        let n = self.groups.len();
        let mut i: usize = 0;
        while i < n
            invariant
                self.wf(),
                n == self.groups@.len(),
                i <= n,
                forall|j: int|
                    0 <= j < i ==> !group_matches(*self, #[trigger] self.groups@[j], owner@, gname@),
            decreases n - i,
        {
            if self.groups[i].group_name == *gname {
                match self.find_user_by_id(self.groups[i].owner_user_id) {
                    Some(ui) => {
                        proof {
                            lemma_user_by_id(self.users@, ui as int);
                        }
                        if self.users[ui].user_name == *owner {
                            return Some(i);
                        }
                    },
                    None => {},
                }
            }
            i += 1;
        }
        None
    }

    /// First project row with this name inside this group.
    pub fn find_project_in_group(&self, gid: i32, name: &String) -> (r: Option<usize>)
        ensures
            match r {
                Some(i) => first_project_match(self.projects@, gid, name@, i as int),
                None => forall|j: int|
                    0 <= j < self.projects@.len() ==> !project_matches(
                        #[trigger] self.projects@[j],
                        gid,
                        name@,
                    ),
            },
            r is Some <==> has_project_match(self.projects@, gid, name@),
    {
        let n = self.projects.len();
        let mut i: usize = 0;
        while i < n
            invariant
                n == self.projects@.len(),
                i <= n,
                forall|j: int|
                    0 <= j < i ==> !project_matches(#[trigger] self.projects@[j], gid, name@),
            decreases n - i,
        {
            if self.projects[i].group_id == gid && self.projects[i].project_name == *name {
                return Some(i);
            }
            i += 1;
        }
        None
    }

    /// First tag row with this name inside this group.
    pub fn find_tag_in_group(&self, gid: i32, name: &String) -> (r: Option<usize>)
        ensures
            match r {
                Some(i) => first_tag_match(self.tags@, gid, name@, i as int),
                None => forall|j: int|
                    0 <= j < self.tags@.len() ==> !tag_matches(#[trigger] self.tags@[j], gid, name@),
            },
            r is Some <==> has_tag_match(self.tags@, gid, name@),
    {
        let n = self.tags.len();
        let mut i: usize = 0;
        while i < n
            invariant
                n == self.tags@.len(),
                i <= n,
                forall|j: int| 0 <= j < i ==> !tag_matches(#[trigger] self.tags@[j], gid, name@),
            decreases n - i,
        {
            if self.tags[i].group_id == gid && self.tags[i].tag_name == *name {
                return Some(i);
            }
            i += 1;
        }
        None
    }

    /// First task row with this title inside this project.
    pub fn find_task_in_project(&self, pid: i32, title: &String) -> (r: Option<usize>)
        ensures
            match r {
                Some(i) => first_task_match(self.tasks@, pid, title@, i as int),
                None => forall|j: int|
                    0 <= j < self.tasks@.len() ==> !task_matches(
                        #[trigger] self.tasks@[j],
                        pid,
                        title@,
                    ),
            },
            r is Some <==> has_task_match(self.tasks@, pid, title@),
    {
        let n = self.tasks.len();
        let mut i: usize = 0;
        while i < n
            invariant
                n == self.tasks@.len(),
                i <= n,
                forall|j: int| 0 <= j < i ==> !task_matches(#[trigger] self.tasks@[j], pid, title@),
            decreases n - i,
        {
            if self.tasks[i].project_id == pid && self.tasks[i].title == *title {
                return Some(i);
            }
            i += 1;
        }
        None
    }

    /// Whether some mapping row links this tag and project.
    pub fn mapping_exists(&self, tid: i32, pid: i32) -> (r: bool)
        ensures
            r == has_mapping(self.tag_project_mappings@, tid, pid),
    {
        let n = self.tag_project_mappings.len();
        let mut i: usize = 0;
        while i < n
            invariant
                n == self.tag_project_mappings@.len(),
                i <= n,
                forall|j: int|
                    0 <= j < i ==> !((#[trigger] self.tag_project_mappings@[j]).tag_id == tid
                        && self.tag_project_mappings@[j].project_id == pid),
            decreases n - i,
        {
            let m = &self.tag_project_mappings[i];
            if m.tag_id == tid && m.project_id == pid {
                return true;
            }
            i += 1;
        }
        false
    }

    /// Whether some membership row links this group and user.
    pub fn membership_exists(&self, gid: i32, uid: i32) -> (r: bool)
        ensures
            r == has_membership(self.memberships@, gid, uid),
    {
        let n = self.memberships.len();
        let mut i: usize = 0;
        while i < n
            invariant
                n == self.memberships@.len(),
                i <= n,
                forall|j: int|
                    0 <= j < i ==> !((#[trigger] self.memberships@[j]).group_id == gid
                        && self.memberships@[j].user_id == uid),
            decreases n - i,
        {
            let m = &self.memberships[i];
            if m.group_id == gid && m.user_id == uid {
                return true;
            }
            i += 1;
        }
        false
    }
}

// ---------------------------------------------------------------------------
// Agreement lemmas: under the uniqueness invariants, any matching row is
// the row the `choose`-based accessors denote.
// ---------------------------------------------------------------------------

/// A user row matching an id is the row `user_by_id` denotes.
pub proof fn lemma_user_by_id(us: Seq<User>, i: int)
    requires
        users_distinct(us),
        0 <= i < us.len(),
    ensures
        has_user_id(us, us[i].user_id),
        user_by_id(us, us[i].user_id) == us[i],
{
    assert(has_user_id(us, us[i].user_id));
    let j = choose|j: int| 0 <= j < us.len() && #[trigger] us[j].user_id == us[i].user_id;
    if i != j {
        assert(us[i].user_id != us[j].user_id);
    }
}

/// A user row matching a name is the row `user_named` denotes.
pub proof fn lemma_user_named(us: Seq<User>, i: int)
    requires
        users_distinct(us),
        0 <= i < us.len(),
    ensures
        has_user_named(us, us[i].user_name@),
        user_named(us, us[i].user_name@) == us[i],
{
    assert(has_user_named(us, us[i].user_name@));
    let j = choose|j: int| 0 <= j < us.len() && #[trigger] us[j].user_name@ == us[i].user_name@;
    if i != j {
        assert(us[i].user_name@ != us[j].user_name@);
    }
}

/// A session row matching a token is the row `session_with_id` denotes.
pub proof fn lemma_session_with_id(ss: Seq<Session>, i: int)
    requires
        sessions_distinct(ss),
        0 <= i < ss.len(),
    ensures
        has_session_id(ss, ss[i].session_id@),
        session_index_of(ss, ss[i].session_id@) == i,
        session_with_id(ss, ss[i].session_id@) == ss[i],
{
    assert(has_session_id(ss, ss[i].session_id@));
    let j = session_index_of(ss, ss[i].session_id@);
    if i != j {
        assert(ss[i].session_id@ != ss[j].session_id@);
    }
}

/// A session row matching a user is the row `session_for_user` denotes.
pub proof fn lemma_session_for_user(ss: Seq<Session>, i: int)
    requires
        sessions_distinct(ss),
        0 <= i < ss.len(),
    ensures
        has_session_for_user(ss, ss[i].user_id),
        session_index_for_user(ss, ss[i].user_id) == i,
        session_for_user(ss, ss[i].user_id) == ss[i],
{
    assert(has_session_for_user(ss, ss[i].user_id));
    let j = session_index_for_user(ss, ss[i].user_id);
    if i != j {
        assert(ss[i].user_id != ss[j].user_id);
    }
}

/// A group row matching an id is the row `group_by_id` denotes.
pub proof fn lemma_group_by_id(gs: Seq<Group>, i: int)
    requires
        groups_distinct(gs),
        0 <= i < gs.len(),
    ensures
        has_group_id(gs, gs[i].group_id),
        group_by_id(gs, gs[i].group_id) == gs[i],
{
    assert(has_group_id(gs, gs[i].group_id));
    let j = choose|j: int| 0 <= j < gs.len() && #[trigger] gs[j].group_id == gs[i].group_id;
    if i != j {
        assert(gs[i].group_id != gs[j].group_id);
    }
}

/// A project row matching an id is the row `project_by_id` denotes.
pub proof fn lemma_project_by_id(ps: Seq<Project>, i: int)
    requires
        projects_distinct(ps),
        0 <= i < ps.len(),
    ensures
        has_project_id(ps, ps[i].project_id),
        project_by_id(ps, ps[i].project_id) == ps[i],
{
    assert(has_project_id(ps, ps[i].project_id));
    let j = choose|j: int| 0 <= j < ps.len() && #[trigger] ps[j].project_id == ps[i].project_id;
    if i != j {
        assert(ps[i].project_id != ps[j].project_id);
    }
}

// ---------------------------------------------------------------------------
// Filtering helper: how `Seq::filter` grows across a forward scan.
// ---------------------------------------------------------------------------

/// One scan step: filtering a prefix one element longer either appends that
/// element or leaves the filtered prefix unchanged.
pub proof fn lemma_filter_extend<A>(s: Seq<A>, pred: spec_fn(A) -> bool, i: int)
    requires
        0 <= i < s.len(),
    ensures
        pred(s[i]) ==> s.subrange(0, i + 1).filter(pred) == s.subrange(0, i).filter(pred).push(
            s[i],
        ),
        !pred(s[i]) ==> s.subrange(0, i + 1).filter(pred) == s.subrange(0, i).filter(pred),
{
    reveal(Seq::filter);
    let s1 = s.subrange(0, i + 1);
    assert(s1.drop_last() =~= s.subrange(0, i));
    assert(s1.last() == s[i]);
}

/// Filtering the full range is filtering the sequence itself.
pub proof fn lemma_filter_whole<A>(s: Seq<A>, pred: spec_fn(A) -> bool)
    ensures
        s.subrange(0, s.len() as int).filter(pred) == s.filter(pred),
{
    assert(s.subrange(0, s.len() as int) =~= s);
}

/// Whether some project row carries this project id inside this group.
pub fn project_in_group_exec(ps: &Vec<Project>, pid: i32, gid: i32) -> (r: bool)
    ensures
        r == project_in_group(ps@, pid, gid),
{
    let n = ps.len();
    let mut i: usize = 0;
    while i < n
        invariant
            n == ps@.len(),
            i <= n,
            forall|j: int|
                0 <= j < i ==> !((#[trigger] ps@[j]).project_id == pid && ps@[j].group_id == gid),
        decreases n - i,
    {
        if ps[i].project_id == pid && ps[i].group_id == gid {
            return true;
        }
        i += 1;
    }
    false
}

/// Whether a vector of ids contains `x`.
pub fn contains_i32(v: &Vec<i32>, x: i32) -> (r: bool)
    ensures
        r == v@.contains(x),
{
    let n = v.len();
    let mut i: usize = 0;
    while i < n
        invariant
            n == v@.len(),
            i <= n,
            forall|j: int| 0 <= j < i ==> v@[j] != x,
        decreases n - i,
    {
        if v[i] == x {
            assert(v@[i as int] == x);
            return true;
        }
        i += 1;
    }
    assert(!v@.contains(x));
    false
}

/// Every element of a filtered sequence is an element of the original.
pub proof fn lemma_filter_contained<A>(s: Seq<A>, pred: spec_fn(A) -> bool)
    ensures
        forall|i: int|
            0 <= i < s.filter(pred).len() ==> s.contains(#[trigger] s.filter(pred)[i]),
    decreases s.len(),
{
    reveal(Seq::filter);
    if s.len() > 0 {
        let s0 = s.drop_last();
        lemma_filter_contained(s0, pred);
        assert(s.filter(pred) == if pred(s.last()) {
            s0.filter(pred).push(s.last())
        } else {
            s0.filter(pred)
        });
        assert forall|i: int| 0 <= i < s.filter(pred).len() implies s.contains(
            #[trigger] s.filter(pred)[i],
        ) by {
            let x = s.filter(pred)[i];
            if pred(s.last()) && i == s.filter(pred).len() - 1 {
                assert(s[s.len() - 1] == x);
            } else {
                assert(x == s0.filter(pred)[i]);
                assert(s0.contains(x));
                let p = choose|p: int| 0 <= p < s0.len() && s0[p] == x;
                assert(s[p] == x);
            }
        }
    }
}

/// Filtering keeps elements of the sequence and never conflates two
/// positions: pairwise-distinct keys stay pairwise distinct.
pub proof fn lemma_filter_distinct<A, K>(s: Seq<A>, pred: spec_fn(A) -> bool, key: spec_fn(A) -> K)
    requires
        forall|i: int, j: int| #![trigger s[i], s[j]] 0 <= i < j < s.len() ==> key(s[i]) != key(s[j]),
    ensures
        forall|i: int|
            0 <= i < s.filter(pred).len() ==> s.contains(#[trigger] s.filter(pred)[i]),
        forall|i: int, j: int|
            #![trigger s.filter(pred)[i], s.filter(pred)[j]]
            0 <= i < j < s.filter(pred).len() ==> key(s.filter(pred)[i]) != key(s.filter(pred)[j]),
    decreases s.len(),
{
    reveal(Seq::filter);
    if s.len() > 0 {
        let s0 = s.drop_last();
        let last = s.last();
        assert forall|i: int, j: int|
            #![trigger s0[i], s0[j]]
            0 <= i < j < s0.len() implies key(s0[i]) != key(s0[j]) by {
            assert(s0[i] == s[i] && s0[j] == s[j]);
        }
        lemma_filter_distinct(s0, pred, key);
        let f0 = s0.filter(pred);
        assert forall|m: int| 0 <= m < f0.len() implies s.contains(#[trigger] f0[m]) && key(f0[m])
            != key(last) by {
            assert(s0.contains(f0[m]));
            let p = choose|p: int| 0 <= p < s0.len() && s0[p] == f0[m];
            assert(s[p] == f0[m]);
            assert(key(s[p]) != key(s[s.len() - 1]));
        }
        let f = s.filter(pred);
        if pred(last) {
            assert(f == f0.push(last));
            assert(s.contains(last)) by {
                assert(s[s.len() - 1] == last);
            }
        } else {
            assert(f == f0);
        }
    }
}

/// Mapping distributes over appending one element.
pub proof fn lemma_map_values_push<A, B>(s: Seq<A>, f: spec_fn(A) -> B, x: A)
    ensures
        s.push(x).map_values(f) == s.map_values(f).push(f(x)),
{
    assert(s.push(x).map_values(f) =~= s.map_values(f).push(f(x)));
}

/// Splitting off the head of the pending part of a scan.
pub proof fn lemma_split_step<A>(a: Seq<A>, b: Seq<A>)
    requires
        b.len() > 0,
    ensures
        a + b == a.push(b[0]) + b.subrange(1, b.len() as int),
        (a + b).remove(a.len() as int) == a + b.subrange(1, b.len() as int),
        (a + b)[a.len() as int] == b[0],
{
    assert(a + b =~= a.push(b[0]) + b.subrange(1, b.len() as int));
    assert((a + b).remove(a.len() as int) =~= a + b.subrange(1, b.len() as int));
}

/// Where each element of a sequence lands after one removal.
pub proof fn lemma_remove_keeps<A>(s: Seq<A>, k: int, i: int)
    requires
        0 <= k < s.len(),
        0 <= i < s.len() - 1,
    ensures
        s.remove(k)[i] == (if i < k {
            s[i]
        } else {
            s[i + 1]
        }),
{
}

// ---------------------------------------------------------------------------
// Framing: which tables an operation leaves untouched.
// ---------------------------------------------------------------------------

/// The workspace tables (groups, memberships, projects, tags, mappings,
/// tasks) agree.
pub open spec fn same_domain_tables(a: Store, b: Store) -> bool {
    &&& a.groups@ == b.groups@
    &&& a.memberships@ == b.memberships@
    &&& a.projects@ == b.projects@
    &&& a.tags@ == b.tags@
    &&& a.tag_project_mappings@ == b.tag_project_mappings@
    &&& a.tasks@ == b.tasks@
}

} // verus!
