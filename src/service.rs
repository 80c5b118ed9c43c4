use crate::error::{frame, framed, ErrorKind, ServiceError};
use crate::ids::{hyphenated_text, uuid_text, AuthId, TeamId, UserId, WorkspaceId};
use crate::team::TeamRepoImpl;
use crate::unit_of_work::UnitOfWork;
use crate::user::{User, UserRepoImpl};
use crate::workspace::{role_name, Event, Role, RoleFilter, Workspace, WorkspaceRepoImpl};
use vstd::prelude::*;
use vstd::string::StringExecFns;

verus! {

/// The message given to a user who may not create workspaces.
pub open spec fn create_denied_message(a: AuthId) -> Seq<char> {
    framed(
        "User with auth_id "@,
        hyphenated_text(a.0),
        " does not have permission to create a workspace."@,
    )
}

/// The message given to a user who may not change a workspace's membership.
pub open spec fn membership_denied_message(a: AuthId) -> Seq<char> {
    framed(
        "user with auth_id "@,
        hyphenated_text(a.0),
        " does not have permission to update workspace membership"@,
    )
}

/// The message given to a user who tries to change their own membership.
pub open spec fn self_change_message(a: AuthId, role: Role) -> Seq<char> {
    framed("user with auth_id "@, hyphenated_text(a.0), " cannot demote themselves to "@)
        + role_name(role)
}

/// The role that the two memberships of user `u` give in a workspace whose
/// teams are `admins` and `members`.
pub open spec fn role_of(teams: &TeamRepoImpl, admins: TeamId, members: TeamId, u: UserId) -> Role {
    if teams.is_member(admins, u) && teams.is_member(members, u) {
        Role::Admin
    } else if teams.is_member(members, u) {
        Role::NonAdmin
    } else {
        Role::NonMember
    }
}

/// `new` is `old` with the memberships of `u` in `admins` and `members` set
/// as `role` asks, and every other membership kept.
pub open spec fn role_applied(
    new: &TeamRepoImpl,
    old: &TeamRepoImpl,
    admins: TeamId,
    members: TeamId,
    u: UserId,
    role: Role,
) -> bool {
    forall|t: TeamId, v: UserId|
        #[trigger] new.is_member(t, v) == (if v == u && t == admins {
            role == Role::Admin
        } else if v == u && t == members {
            role != Role::NonMember
        } else {
            old.is_member(t, v)
        })
}

/// Applying `Admin`, then `NonAdmin`, then `NonMember` to one user leaves
/// them in neither team of the workspace, and every other membership as it
/// was before the first change.
pub proof fn lemma_roles_converge_to_non_member(
    s0: &TeamRepoImpl,
    s1: &TeamRepoImpl,
    s2: &TeamRepoImpl,
    s3: &TeamRepoImpl,
    admins: TeamId,
    members: TeamId,
    u: UserId,
)
    requires
        admins != members,
        role_applied(s1, s0, admins, members, u, Role::Admin),
        role_applied(s2, s1, admins, members, u, Role::NonAdmin),
        role_applied(s3, s2, admins, members, u, Role::NonMember),
    ensures
        !s3.is_member(admins, u),
        !s3.is_member(members, u),
        role_of(s3, admins, members, u) == Role::NonMember,
        forall|t: TeamId, v: UserId|
            !(v == u && (t == admins || t == members)) ==> #[trigger] s3.is_member(t, v) == s0.is_member(t, v),
{
    assert(!s3.is_member(admins, u));
    assert(!s3.is_member(members, u));
    assert forall|t: TeamId, v: UserId|
        !(v == u && (t == admins || t == members)) implies #[trigger] s3.is_member(t, v) == s0.is_member(t, v) by {
        assert(s3.is_member(t, v) == s2.is_member(t, v));
        assert(s2.is_member(t, v) == s1.is_member(t, v));
        assert(s1.is_member(t, v) == s0.is_member(t, v));
    }
}

/// Applying the same role twice changes no membership the second time, and
/// every application leaves the user with exactly that role.
pub proof fn lemma_role_reapplication_is_idempotent(
    s0: &TeamRepoImpl,
    s1: &TeamRepoImpl,
    s2: &TeamRepoImpl,
    admins: TeamId,
    members: TeamId,
    u: UserId,
    role: Role,
)
    requires
        admins != members,
        role_applied(s1, s0, admins, members, u, role),
        role_applied(s2, s1, admins, members, u, role),
    ensures
        s2.same_memberships(s1),
        role_of(s1, admins, members, u) == role,
        role_of(s2, admins, members, u) == role,
{
    assert(s1.is_member(admins, u) == (role == Role::Admin));
    assert(s1.is_member(members, u) == (role != Role::NonMember));
    assert(s2.is_member(admins, u) == (role == Role::Admin));
    assert(s2.is_member(members, u) == (role != Role::NonMember));
}

/// Every workspace of a well-formed service references two distinct teams,
/// both of which exist.
pub proof fn lemma_workspace_teams_exist(s: &WorkspaceServiceImpl, id: WorkspaceId)
    requires
        s.wf(),
        s.workspaces.has(id),
    ensures
        s.workspaces.by_id(id).unwrap().admins != s.workspaces.by_id(id).unwrap().members,
        s.teams.has_team(s.workspaces.by_id(id).unwrap().admins),
        s.teams.has_team(s.workspaces.by_id(id).unwrap().members),
{
    let i = s.workspaces.index_of(id);
    assert(s.workspaces.workspaces@[i] == s.workspaces.by_id(id).unwrap());
}

/// The orchestrator: creates workspaces with their two teams, lists and
/// changes membership, and records a domain event for each committed change.
pub struct WorkspaceServiceImpl {
    pub teams: TeamRepoImpl,
    pub users: UserRepoImpl,
    pub workspaces: WorkspaceRepoImpl,
    /// Events of committed changes, oldest first, awaiting publication.
    pub events: Vec<Event>,
}

impl WorkspaceServiceImpl {
    /// The stores are well formed, and every workspace references two
    /// distinct teams that exist.
    pub open spec fn wf(&self) -> bool {
        &&& self.teams.wf()
        &&& self.users.wf()
        &&& self.workspaces.wf()
        &&& forall|i: int|
            0 <= i < self.workspaces.workspaces@.len() ==> {
                let w = #[trigger] self.workspaces.workspaces@[i];
                &&& w.admins != w.members
                &&& self.teams.has_team(w.admins)
                &&& self.teams.has_team(w.members)
            }
    }

    /// Nothing that `old` holds has changed: no record and no event.
    pub open spec fn unchanged_from(&self, old: &WorkspaceServiceImpl) -> bool {
        &&& self.teams.teams@ == old.teams.teams@
        &&& self.teams.next_id == old.teams.next_id
        &&& self.teams.same_memberships(&old.teams)
        &&& self.users.users@ == old.users.users@
        &&& self.users.next_id == old.users.next_id
        &&& self.workspaces.workspaces@ == old.workspaces.workspaces@
        &&& self.workspaces.next_id == old.workspaces.next_id
        &&& self.events@ == old.events@
    }

    pub fn new(users: UserRepoImpl) -> (r: WorkspaceServiceImpl)
        requires
            users.wf(),
        ensures
            r.wf(),
            r.users == users,
            r.teams.teams@.len() == 0,
            r.teams.memberships@.len() == 0,
            r.teams.next_id == 0,
            r.workspaces.next_id == 0,
            r.workspaces.workspaces@.len() == 0,
            r.events@.len() == 0,
    {
        WorkspaceServiceImpl {
            teams: TeamRepoImpl::new(),
            users,
            workspaces: WorkspaceRepoImpl::new(),
            events: Vec::new(),
        }
    }

    /// Creates a workspace and its two teams, `"{title} Admins"` and
    /// `"{title} Members"`, in one unit of work, on behalf of the platform
    /// admin whose external id is `requesting_user`; then records a
    /// `WorkspaceCreated` event. Fails with `NotFound` when the requester
    /// does not resolve, with `Unauthorized` when they are not a platform
    /// admin, and with `Infra` when a store write fails; every failure
    /// leaves the stores and the events as they were.
    pub fn create(&mut self, title: &str, description: &str, requesting_user: AuthId, uow: UnitOfWork) -> (r: Result<Workspace, ServiceError>)
        requires
            old(self).wf(),
        ensures
            final(self).wf(),
            r is Err ==> final(self).unchanged_from(old(self)),
            !old(self).users.has_auth(requesting_user) ==> r is Err && r->Err_0.kind == ErrorKind::NotFound,
            old(self).users.by_auth(requesting_user) matches Some(u) ==> {
                if !u.is_platform_admin {
                    &&& r is Err
                    &&& r->Err_0.kind == ErrorKind::Unauthorized
                    &&& r->Err_0.message@ == create_denied_message(requesting_user)
                } else {
                    &&& r is Ok <==> (uow.allows(3) && old(self).teams.next_id < u128::MAX - 1
                        && old(self).workspaces.next_id < u128::MAX)
                    &&& r is Err ==> r->Err_0.kind == ErrorKind::Infra
                    &&& r matches Ok(w) ==> {
                        &&& w.title@ == title@
                        &&& w.description@ == description@
                        &&& w.admins != w.members
                        &&& !old(self).teams.has_team(w.admins)
                        &&& !old(self).teams.has_team(w.members)
                        &&& final(self).teams.has_team(w.admins)
                        &&& final(self).teams.has_team(w.members)
                        &&& final(self).teams.teams@.len() == old(self).teams.teams@.len() + 2
                        &&& final(self).teams.teams@.subrange(0, old(self).teams.teams@.len() as int)
                            == old(self).teams.teams@
                        &&& final(self).teams.teams@[old(self).teams.teams@.len() as int].id == w.admins
                        &&& final(self).teams.teams@[old(self).teams.teams@.len() as int].title@ == title@ + " Admins"@
                        &&& final(self).teams.teams@[old(self).teams.teams@.len() + 1int].id == w.members
                        &&& final(self).teams.teams@[old(self).teams.teams@.len() + 1int].title@ == title@ + " Members"@
                        &&& final(self).teams.memberships == old(self).teams.memberships
                        &&& !old(self).workspaces.has(w.id)
                        &&& final(self).workspaces.workspaces@ == old(self).workspaces.workspaces@.push(w)
                        &&& final(self).users == old(self).users
                        &&& final(self).events@ == old(self).events@.push(
                            Event::WorkspaceCreated { workspace_id: w.id, user_id: u.id, title: w.title },
                        )
                    }
                }
            },
    {
        let user = match self.users.find_by_auth_id(requesting_user) {
            Some(u) => u,
            None => { return Err(ServiceError::new(ErrorKind::NotFound, "user not found")); },
        };
        if !user.is_platform_admin {
            let id_text = uuid_text(requesting_user.0);
            let message = frame("User with auth_id ", id_text.as_str(), " does not have permission to create a workspace.");
            return Err(ServiceError { kind: ErrorKind::Unauthorized, message });
        }
        let mut uow = uow;
        let ghost start = *self;
        let teams_len = self.teams.teams.len();
        let teams_next = self.teams.next_id;
        let mut admins_title = String::from_str(title);
        admins_title.append(" Admins");
        let admins = match self.teams.create(admins_title.as_str(), &mut uow) {
            Ok(t) => t,
            Err(e) => { return Err(e); },
        };
        let mut members_title = String::from_str(title);
        members_title.append(" Members");
        let members = match self.teams.create(members_title.as_str(), &mut uow) {
            Ok(t) => t,
            Err(e) => {
                self.teams.discard_teams(teams_len, teams_next);
                proof {
                    assert(self.teams.teams@ =~= start.teams.teams@);
                }
                return Err(e);
            },
        };
        let workspace = match self.workspaces.create(title, description, admins.id, members.id, &mut uow) {
            Ok(w) => w,
            Err(e) => {
                self.teams.discard_teams(teams_len, teams_next);
                proof {
                    assert(self.teams.teams@ =~= start.teams.teams@);
                }
                return Err(e);
            },
        };
        proof {
            let n = start.teams.teams@.len() as int;
            assert(self.teams.teams@[n] == admins);
            assert(self.teams.teams@[n + 1] == members);
            assert(self.teams.teams@.subrange(0, n) =~= start.teams.teams@);
            assert(self.teams.has_team(admins.id));
            assert(self.teams.has_team(members.id));
            assert forall|t: TeamId| start.teams.has_team(t) implies self.teams.has_team(t) by {
                let i = choose|i: int| 0 <= i < n && start.teams.teams@[i].id == t;
                assert(self.teams.teams@[i] == start.teams.teams@[i]);
            }
            assert forall|i: int| 0 <= i < self.workspaces.workspaces@.len() implies {
                let w = #[trigger] self.workspaces.workspaces@[i];
                &&& w.admins != w.members
                &&& self.teams.has_team(w.admins)
                &&& self.teams.has_team(w.members)
            } by {
                if i < start.workspaces.workspaces@.len() {
                    assert(self.workspaces.workspaces@[i] == start.workspaces.workspaces@[i]);
                }
            }
        }
        self.events.push(Event::WorkspaceCreated {
            workspace_id: workspace.id,
            user_id: user.id,
            title: workspace.title.clone(),
        });
        Ok(workspace)
    }

    /// The members of a workspace: with no filter the members team, with
    /// `Admin` the admins team, with `NonAdmin` the members team without the
    /// admins team; each in directory order.
    pub fn members(&self, workspace: &Workspace, filter: Option<RoleFilter>) -> (r: Vec<User>)
        ensures
            r@ == match filter {
                None => self.users.users@.filter(self.teams.in_team(workspace.members)),
                Some(RoleFilter::Admin) => self.users.users@.filter(self.teams.in_team(workspace.admins)),
                Some(RoleFilter::NonAdmin) => self.users.users@.filter(
                    self.teams.in_difference(workspace.members, workspace.admins),
                ),
            },
    {
        match filter {
            Some(RoleFilter::Admin) => self.teams.members(workspace.admins, &self.users),
            Some(RoleFilter::NonAdmin) => self.teams.members_difference(workspace.members, workspace.admins, &self.users),
            None => self.teams.members(workspace.members, &self.users),
        }
    }

    /// Whether user `user_id` is in the admins team of workspace
    /// `workspace_id`: `false` for an unknown user, `NotFound` for an unknown
    /// workspace.
    pub fn is_admin(&self, workspace_id: WorkspaceId, user_id: UserId) -> (r: Result<bool, ServiceError>)
        requires
            self.wf(),
        ensures
            !self.users.has_id(user_id) ==> r == Ok::<bool, ServiceError>(false),
            self.users.has_id(user_id) ==> match self.workspaces.by_id(workspace_id) {
                None => r is Err && r->Err_0.kind == ErrorKind::NotFound,
                Some(w) => r == Ok::<bool, ServiceError>(self.teams.is_member(w.admins, user_id)),
            },
    {
        match self.users.find_by_id(user_id) {
            None => Ok(false),
            Some(user) => {
                let workspace = match self.workspaces.find_by_id(workspace_id) {
                    Ok(w) => w,
                    Err(e) => { return Err(e); },
                };
                Ok(self.teams.is_member_of(workspace.admins, user.id))
            },
        }
    }

    /// Sets the memberships of `u` as `role` asks, undoing the first write
    /// when the second fails.
    fn write_role(teams: &mut TeamRepoImpl, admins: TeamId, members: TeamId, u: UserId, role: Role, uow: &mut UnitOfWork) -> (r: Result<(), ServiceError>)
        requires
            old(teams).wf(),
            admins != members,
        ensures
            final(teams).wf(),
            final(teams).teams == old(teams).teams,
            final(teams).next_id == old(teams).next_id,
            r is Ok <==> old(uow).allows(2),
            r is Ok ==> role_applied(final(teams), old(teams), admins, members, u, role),
            r matches Err(e) ==> e.kind == ErrorKind::Infra && final(teams).same_memberships(old(teams)),
    {
        let ghost start = *teams;
        let was_admin = teams.is_member_of(admins, u);
        let first = match role {
            Role::Admin => teams.add_member(admins, u, uow),
            _ => teams.remove_member(admins, u, uow),
        };
        if let Err(e) = first {
            return Err(e);
        }
        let ghost mid = *teams;
        let second = match role {
            Role::NonMember => teams.remove_member(members, u, uow),
            _ => teams.add_member(members, u, uow),
        };
        match second {
            Ok(()) => Ok(()),
            Err(e) => {
                teams.restore_row(admins, u, was_admin);
                assert forall|t: TeamId, v: UserId| #[trigger] teams.is_member(t, v) == start.is_member(t, v) by {
                    if !(t == admins && v == u) {
                        assert(mid.is_member(t, v) == start.is_member(t, v));
                    }
                }
                Err(e)
            },
        }
    }

    /// Gives user `user_id` the role `new_role` in workspace `workspace_id`,
    /// on behalf of the user whose external id is `requesting_user`, in one
    /// unit of work; then records a `WorkspaceMembershipChanged` event.
    /// Fails with `NotFound` when the requester does not resolve, with
    /// `InvalidOperation` when the requester is the target, with
    /// `Unauthorized` when the requester is neither a platform admin nor an
    /// admin of the workspace, with `NotFound` when the workspace is absent,
    /// and with `Infra` when a store write fails. Every failure leaves the
    /// stores and the events as they were.
    pub fn change_workspace_membership(
        &mut self,
        workspace_id: WorkspaceId,
        user_id: UserId,
        new_role: Role,
        requesting_user: AuthId,
        uow: UnitOfWork,
    ) -> (r: Result<Workspace, ServiceError>)
        requires
            old(self).wf(),
        ensures
            final(self).wf(),
            r is Err ==> final(self).unchanged_from(old(self)),
            !old(self).users.has_auth(requesting_user) ==> r is Err && r->Err_0.kind == ErrorKind::NotFound,
            old(self).users.by_auth(requesting_user) matches Some(req) ==> {
                let found = old(self).workspaces.by_id(workspace_id);
                if req.id == user_id {
                    &&& r is Err
                    &&& r->Err_0.kind == ErrorKind::InvalidOperation
                    &&& r->Err_0.message@ == self_change_message(requesting_user, new_role)
                } else if found is None {
                    r is Err && r->Err_0.kind == ErrorKind::NotFound
                } else if !req.is_platform_admin && !old(self).teams.is_member(found.unwrap().admins, req.id) {
                    &&& r is Err
                    &&& r->Err_0.kind == ErrorKind::Unauthorized
                    &&& r->Err_0.message@ == membership_denied_message(requesting_user)
                } else {
                    let w = found.unwrap();
                    &&& r is Ok <==> uow.allows(2)
                    &&& r is Err ==> r->Err_0.kind == ErrorKind::Infra
                    &&& r matches Ok(rw) ==> {
                        &&& rw == w
                        &&& role_applied(&final(self).teams, &old(self).teams, w.admins, w.members, user_id, new_role)
                        &&& role_of(&final(self).teams, w.admins, w.members, user_id) == new_role
                        &&& final(self).teams.teams == old(self).teams.teams
                        &&& final(self).teams.next_id == old(self).teams.next_id
                        &&& final(self).users == old(self).users
                        &&& final(self).workspaces == old(self).workspaces
                        &&& final(self).events@ == old(self).events@.push(
                            Event::WorkspaceMembershipChanged {
                                requesting_user_id: req.id,
                                affected_workspace_id: w.id,
                                affected_user_id: user_id,
                                affected_role: new_role,
                            },
                        )
                    }
                }
            },
    {
        let requester = match self.users.find_by_auth_id(requesting_user) {
            Some(u) => u,
            None => { return Err(ServiceError::new(ErrorKind::NotFound, "user not found")); },
        };
        if requester.id == user_id {
            let id_text = uuid_text(requesting_user.0);
            let mut message = frame("user with auth_id ", id_text.as_str(), " cannot demote themselves to ");
            message.append(new_role.name());
            return Err(ServiceError { kind: ErrorKind::InvalidOperation, message });
        }
        proof {
            let k = self.users.auth_index(requesting_user);
            assert(self.users.has_id(requester.id));
            let j = self.users.id_index(requester.id);
            if j != k {
                if j < k {
                    assert(self.users.users@[j].id != self.users.users@[k].id);
                } else {
                    assert(self.users.users@[k].id != self.users.users@[j].id);
                }
            }
        }
        let workspace = match self.workspaces.find_by_id(workspace_id) {
            Ok(w) => w,
            Err(e) => { return Err(e); },
        };
        if !requester.is_platform_admin {
            let allowed = match self.is_admin(workspace_id, requester.id) {
                Ok(b) => b,
                Err(e) => { return Err(e); },
            };
            if !allowed {
                let id_text = uuid_text(requesting_user.0);
                let message = frame(
                    "user with auth_id ",
                    id_text.as_str(),
                    " does not have permission to update workspace membership",
                );
                return Err(ServiceError { kind: ErrorKind::Unauthorized, message });
            }
        }
        proof {
            let i = self.workspaces.index_of(workspace_id);
            assert(self.workspaces.workspaces@[i] == workspace);
        }
        let mut uow = uow;
        let ghost start = *self;
        match Self::write_role(&mut self.teams, workspace.admins, workspace.members, user_id, new_role, &mut uow) {
            Ok(()) => {},
            Err(e) => { return Err(e); },
        }
        proof {
            assert forall|t: TeamId| start.teams.has_team(t) implies self.teams.has_team(t) by {
                let i = choose|i: int| 0 <= i < start.teams.teams@.len() && start.teams.teams@[i].id == t;
                assert(self.teams.teams@[i] == start.teams.teams@[i]);
            }
            assert forall|i: int| 0 <= i < self.workspaces.workspaces@.len() implies {
                let w = #[trigger] self.workspaces.workspaces@[i];
                &&& w.admins != w.members
                &&& self.teams.has_team(w.admins)
                &&& self.teams.has_team(w.members)
            } by {
                assert(start.workspaces.workspaces@[i] == self.workspaces.workspaces@[i]);
            }
        }
        self.events.push(Event::WorkspaceMembershipChanged {
            requesting_user_id: requester.id,
            affected_workspace_id: workspace.id,
            affected_user_id: user_id,
            affected_role: new_role,
        });
        Ok(workspace)
    }

    /// Every workspace, in creation order.
    pub fn find_all(&self) -> (r: Vec<Workspace>)
        ensures
            r@ == self.workspaces.workspaces@,
    {
        self.workspaces.find_all()
    }

    /// The workspace with id `id`; `NotFound` when there is none.
    pub fn find_by_id(&self, id: WorkspaceId) -> (r: Result<Workspace, ServiceError>)
        requires
            self.wf(),
        ensures
            r is Ok <==> self.workspaces.has(id),
            r matches Ok(w) ==> Some(w) == self.workspaces.by_id(id),
            r matches Err(e) ==> e.kind == ErrorKind::NotFound,
    {
        self.workspaces.find_by_id(id)
    }

    /// Replaces the title and description of workspace `id`, keeping its
    /// teams. Fails with `NotFound` when it is absent and with `Infra` when
    /// the write fails, changing nothing.
    pub fn update(&mut self, id: WorkspaceId, title: &str, description: &str, uow: UnitOfWork) -> (r: Result<Workspace, ServiceError>)
        requires
            old(self).wf(),
        ensures
            final(self).wf(),
            r is Ok <==> old(self).workspaces.has(id) && uow.allows(1),
            final(self).teams == old(self).teams,
            final(self).users == old(self).users,
            final(self).events@ == old(self).events@,
            match r {
                Ok(w) => {
                    let before = old(self).workspaces.by_id(id).unwrap();
                    &&& w.id == id && w.admins == before.admins && w.members == before.members
                    &&& w.title@ == title@ && w.description@ == description@
                    &&& final(self).workspaces.workspaces@ == old(self).workspaces.workspaces@.update(
                        old(self).workspaces.index_of(id),
                        w,
                    )
                    &&& final(self).workspaces.next_id == old(self).workspaces.next_id
                },
                Err(e) => {
                    &&& e.kind == (if old(self).workspaces.has(id) { ErrorKind::Infra } else { ErrorKind::NotFound })
                    &&& final(self).workspaces == old(self).workspaces
                },
            },
    {
        let mut uow = uow;
        let ghost start = *self;
        let r = self.workspaces.update(id, title, description, &mut uow);
        proof {
            let k = start.workspaces.index_of(id);
            assert forall|i: int| 0 <= i < self.workspaces.workspaces@.len() implies {
                let w = #[trigger] self.workspaces.workspaces@[i];
                &&& w.admins != w.members
                &&& self.teams.has_team(w.admins)
                &&& self.teams.has_team(w.members)
            } by {
                if r is Ok && i == k {
                    assert(start.workspaces.workspaces@[k] == start.workspaces.by_id(id).unwrap());
                }
            }
        }
        r
    }

    /// Removes workspace `id` and returns it; its teams are kept. Fails with
    /// `NotFound` when it is absent and with `Infra` when the write fails,
    /// changing nothing.
    pub fn delete(&mut self, id: WorkspaceId, uow: UnitOfWork) -> (r: Result<Workspace, ServiceError>)
        requires
            old(self).wf(),
        ensures
            final(self).wf(),
            r is Ok <==> old(self).workspaces.has(id) && uow.allows(1),
            final(self).teams == old(self).teams,
            final(self).users == old(self).users,
            final(self).events@ == old(self).events@,
            match r {
                Ok(w) => {
                    &&& Some(w) == old(self).workspaces.by_id(id)
                    &&& final(self).workspaces.workspaces@ == old(self).workspaces.workspaces@.remove(
                        old(self).workspaces.index_of(id),
                    )
                    &&& !final(self).workspaces.has(id)
                    &&& final(self).workspaces.next_id == old(self).workspaces.next_id
                },
                Err(e) => {
                    &&& e.kind == (if old(self).workspaces.has(id) { ErrorKind::Infra } else { ErrorKind::NotFound })
                    &&& final(self).workspaces == old(self).workspaces
                },
            },
    {
        let mut uow = uow;
        let ghost start = *self;
        let r = self.workspaces.delete(id, &mut uow);
        proof {
            let k = start.workspaces.index_of(id);
            assert forall|i: int| 0 <= i < self.workspaces.workspaces@.len() implies {
                let w = #[trigger] self.workspaces.workspaces@[i];
                &&& w.admins != w.members
                &&& self.teams.has_team(w.admins)
                &&& self.teams.has_team(w.members)
            } by {
                if r is Ok {
                    let j = if i < k { i } else { i + 1 };
                    assert(self.workspaces.workspaces@[i] == start.workspaces.workspaces@[j]);
                }
            }
        }
        r
    }

    /// Hands over the recorded events, oldest first, for publication, and
    /// clears the record; nothing else changes.
    pub fn take_events(&mut self) -> (r: Vec<Event>)
        requires
            old(self).wf(),
        ensures
            final(self).wf(),
            r@ == old(self).events@,
            final(self).events@.len() == 0,
            final(self).teams == old(self).teams,
            final(self).users == old(self).users,
            final(self).workspaces == old(self).workspaces,
    {
        let mut taken: Vec<Event> = Vec::new();
        std::mem::swap(&mut taken, &mut self.events);
        taken
    }
}

} // verus!
