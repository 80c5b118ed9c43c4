use crate::error::{ErrorKind, ServiceError};
use crate::ids::{TeamId, UserId, WorkspaceId};
use crate::unit_of_work::UnitOfWork;
use vstd::prelude::*;
use vstd::string::StringExecFns;

verus! {

/// A workspace: a title, a description and its two governing teams.
#[derive(Debug)]
pub struct Workspace {
    pub id: WorkspaceId,
    pub title: String,
    pub description: String,
    pub admins: TeamId,
    pub members: TeamId,
}

impl Workspace {
    /// A copy of this record.
    pub fn copied(&self) -> (r: Workspace)
        ensures
            r == *self,
    {
        Workspace {
            id: self.id,
            title: self.title.clone(),
            description: self.description.clone(),
            admins: self.admins,
            members: self.members,
        }
    }

    pub fn id(&self) -> (r: WorkspaceId)
        ensures
            r == self.id,
    {
        self.id
    }

    pub fn title(&self) -> (r: &str)
        ensures
            r@ == self.title@,
    {
        self.title.as_str()
    }

    pub fn description(&self) -> (r: &str)
        ensures
            r@ == self.description@,
    {
        self.description.as_str()
    }

    pub fn admins(&self) -> (r: TeamId)
        ensures
            r == self.admins,
    {
        self.admins
    }

    pub fn members(&self) -> (r: TeamId)
        ensures
            r == self.members,
    {
        self.members
    }
}

/// A user's standing in a workspace, derived from the two memberships.
#[derive(Clone, Copy, Debug, PartialEq, Eq, Structural)]
pub enum Role {
    /// User is a workspace administrator
    Admin,
    /// User is a workspace member
    NonAdmin,
    /// User is not a workspace member
    NonMember,
}

/// The text of each role.
pub open spec fn role_name(r: Role) -> Seq<char> {
    match r {
        Role::Admin => "Admin"@,
        Role::NonAdmin => "NonAdmin"@,
        Role::NonMember => "NonMember"@,
    }
}

impl Role {
    /// The name of this role.
    pub fn name(&self) -> (r: &'static str)
        ensures
            r@ == role_name(*self),
    {
        match self {
            Role::Admin => "Admin",
            Role::NonAdmin => "NonAdmin",
            Role::NonMember => "NonMember",
        }
    }
}

/// Selects a subset of a workspace's members.
#[derive(Clone, Copy, Debug, PartialEq, Eq, Structural)]
pub enum RoleFilter {
    /// Only return Admins
    Admin,
    /// Only return Non-Admins
    NonAdmin,
}

/// A domain event, published after the change it reports has committed.
#[derive(Debug)]
pub enum Event {
    WorkspaceCreated { workspace_id: WorkspaceId, user_id: UserId, title: String },
    WorkspaceMembershipChanged {
        requesting_user_id: UserId,
        affected_workspace_id: WorkspaceId,
        affected_user_id: UserId,
        affected_role: Role,
    },
    /// Folder events of the surrounding system, carried through unchanged.
    FolderCreated {
        folder_id: u128,
        workspace_id: WorkspaceId,
        user_id: UserId,
        title: String,
        description: String,
    },
    FolderUpdated {
        folder_id: u128,
        workspace_id: WorkspaceId,
        user_id: UserId,
        title: String,
        description: String,
    },
    FolderDeleted { folder_id: u128, workspace_id: WorkspaceId, user_id: UserId },
}

/// The workspace store.
pub struct WorkspaceRepoImpl {
    pub workspaces: Vec<Workspace>,
    /// The next workspace id to hand out; every stored id is below it.
    pub next_id: u128,
}

impl WorkspaceRepoImpl {
    /// Workspace ids are unique and below `next_id`.
    pub open spec fn wf(&self) -> bool {
        &&& forall|i: int, j: int|
            0 <= i < j < self.workspaces@.len() ==> self.workspaces@[i].id != self.workspaces@[j].id
        &&& forall|i: int| 0 <= i < self.workspaces@.len() ==> self.workspaces@[i].id.0 < self.next_id
    }

    pub open spec fn has(&self, id: WorkspaceId) -> bool {
        exists|i: int| 0 <= i < self.workspaces@.len() && self.workspaces@[i].id == id
    }

    pub open spec fn index_of(&self, id: WorkspaceId) -> int {
        choose|i: int| 0 <= i < self.workspaces@.len() && self.workspaces@[i].id == id
    }

    /// The workspace with id `id`, if any.
    pub open spec fn by_id(&self, id: WorkspaceId) -> Option<Workspace> {
        if self.has(id) {
            Some(self.workspaces@[self.index_of(id)])
        } else {
            None
        }
    }

    pub fn new() -> (r: WorkspaceRepoImpl)
        ensures
            r.wf(),
            r.workspaces@.len() == 0,
            r.next_id == 0,
    {
        WorkspaceRepoImpl { workspaces: Vec::new(), next_id: 0 }
    }

    fn position(&self, id: WorkspaceId) -> (r: Option<usize>)
        requires
            self.wf(),
        ensures
            r is None <==> !self.has(id),
            r matches Some(k) ==> k == self.index_of(id) && k < self.workspaces@.len(),
    {
        let mut k: usize = 0;
        while k < self.workspaces.len()
            invariant
                self.wf(),
                k <= self.workspaces@.len(),
                forall|i: int| 0 <= i < k ==> self.workspaces@[i].id != id,
            decreases self.workspaces@.len() - k,
        {
            if self.workspaces[k].id == id {
                assert(self.has(id));
                let ghost c = self.index_of(id);
                assert(0 <= c < self.workspaces@.len() && self.workspaces@[c].id == id);
                proof {
                    if c > k as int {
                        assert(self.workspaces@[k as int].id != self.workspaces@[c].id);
                    }
                }
                return Some(k);
            }
            k = k + 1;
        }
        None
    }

    /// Stores a workspace under a fresh id. Fails with `Infra` when the
    /// connection refuses the write or the id space is exhausted.
    pub fn create(&mut self, title: &str, description: &str, admins: TeamId, members: TeamId, uow: &mut UnitOfWork) -> (r: Result<Workspace, ServiceError>)
        requires
            old(self).wf(),
        ensures
            final(self).wf(),
            r is Ok <==> old(uow).can_write() && old(self).next_id < u128::MAX,
            match r {
                Ok(w) => {
                    &&& !old(self).has(w.id)
                    &&& w.id.0 == old(self).next_id
                    &&& final(self).next_id == old(self).next_id + 1
                    &&& w.title@ == title@ && w.description@ == description@
                    &&& w.admins == admins && w.members == members
                    &&& final(self).workspaces@ == old(self).workspaces@.push(w)
                    &&& *final(uow) == old(uow).after_write()
                },
                Err(e) => e.kind == ErrorKind::Infra && *final(self) == *old(self) && *final(uow)
                    == *old(uow),
            },
    {
        if self.next_id == u128::MAX {
            return Err(ServiceError::new(ErrorKind::Infra, "create workspace: id space exhausted"));
        }
        if !uow.claim_write() {
            return Err(ServiceError::new(ErrorKind::Infra, "create workspace: store unavailable"));
        }
        let w = Workspace {
            id: WorkspaceId(self.next_id),
            title: String::from_str(title),
            description: String::from_str(description),
            admins,
            members,
        };
        self.workspaces.push(w.copied());
        self.next_id = self.next_id + 1;
        Ok(w)
    }

    /// Every workspace, in creation order.
    pub fn find_all(&self) -> (r: Vec<Workspace>)
        ensures
            r@ == self.workspaces@,
    {
        let mut r: Vec<Workspace> = Vec::new();
        let mut i: usize = 0;
        while i < self.workspaces.len()
            invariant
                i <= self.workspaces@.len(),
                r@ == self.workspaces@.subrange(0, i as int),
            decreases self.workspaces@.len() - i,
        {
            r.push(self.workspaces[i].copied());
            i = i + 1;
            assert(r@ =~= self.workspaces@.subrange(0, i as int));
        }
        assert(r@ =~= self.workspaces@);
        r
    }

    /// The workspace with id `id`; `NotFound` when there is none.
    pub fn find_by_id(&self, id: WorkspaceId) -> (r: Result<Workspace, ServiceError>)
        requires
            self.wf(),
        ensures
            r is Ok <==> self.has(id),
            r matches Ok(w) ==> Some(w) == self.by_id(id),
            r matches Err(e) ==> e.kind == ErrorKind::NotFound,
    {
        match self.position(id) {
            Some(k) => Ok(self.workspaces[k].copied()),
            None => Err(ServiceError::new(ErrorKind::NotFound, "workspace not found")),
        }
    }

    /// Replaces the title and description of workspace `id`. Fails with
    /// `NotFound` when it is absent, else with `Infra` when the connection
    /// refuses the write.
    pub fn update(&mut self, id: WorkspaceId, title: &str, description: &str, uow: &mut UnitOfWork) -> (r: Result<Workspace, ServiceError>)
        requires
            old(self).wf(),
        ensures
            final(self).wf(),
            r is Ok <==> old(self).has(id) && old(uow).can_write(),
            match r {
                Ok(w) => {
                    let before = old(self).by_id(id).unwrap();
                    &&& w.id == id && w.admins == before.admins && w.members == before.members
                    &&& w.title@ == title@ && w.description@ == description@
                    &&& final(self).workspaces@ == old(self).workspaces@.update(old(self).index_of(id), w)
                    &&& final(self).next_id == old(self).next_id
                    &&& *final(uow) == old(uow).after_write()
                },
                Err(e) => {
                    &&& e.kind == (if old(self).has(id) { ErrorKind::Infra } else { ErrorKind::NotFound })
                    &&& *final(self) == *old(self) && *final(uow) == *old(uow)
                },
            },
    {
        let k = match self.position(id) {
            Some(k) => k,
            None => { return Err(ServiceError::new(ErrorKind::NotFound, "workspace not found")); },
        };
        if !uow.claim_write() {
            return Err(ServiceError::new(ErrorKind::Infra, "update workspace: store unavailable"));
        }
        let w = Workspace {
            id,
            title: String::from_str(title),
            description: String::from_str(description),
            admins: self.workspaces[k].admins,
            members: self.workspaces[k].members,
        };
        self.workspaces.set(k, w.copied());
        Ok(w)
    }

    /// Removes workspace `id` and returns it. Fails with `NotFound` when it
    /// is absent, else with `Infra` when the connection refuses the write.
    pub fn delete(&mut self, id: WorkspaceId, uow: &mut UnitOfWork) -> (r: Result<Workspace, ServiceError>)
        requires
            old(self).wf(),
        ensures
            final(self).wf(),
            r is Ok <==> old(self).has(id) && old(uow).can_write(),
            match r {
                Ok(w) => {
                    &&& Some(w) == old(self).by_id(id)
                    &&& final(self).workspaces@ == old(self).workspaces@.remove(old(self).index_of(id))
                    &&& !final(self).has(id)
                    &&& final(self).next_id == old(self).next_id
                    &&& *final(uow) == old(uow).after_write()
                },
                Err(e) => {
                    &&& e.kind == (if old(self).has(id) { ErrorKind::Infra } else { ErrorKind::NotFound })
                    &&& *final(self) == *old(self) && *final(uow) == *old(uow)
                },
            },
    {
        let k = match self.position(id) {
            Some(k) => k,
            None => { return Err(ServiceError::new(ErrorKind::NotFound, "workspace not found")); },
        };
        if !uow.claim_write() {
            return Err(ServiceError::new(ErrorKind::Infra, "delete workspace: store unavailable"));
        }
        let ghost before = self.workspaces@;
        let w = self.workspaces.remove(k);
        proof {
            let after = self.workspaces@;
            assert(after =~= before.remove(k as int));
            assert forall|i: int, j: int| 0 <= i < j < after.len() implies after[i].id != after[j].id by {
                let bi = if i < k { i } else { i + 1 };
                let bj = if j < k { j } else { j + 1 };
                assert(after[i] == before[bi] && after[j] == before[bj]);
            }
            assert forall|i: int| 0 <= i < after.len() implies after[i].id.0 < self.next_id by {
                let bi = if i < k { i } else { i + 1 };
                assert(after[i] == before[bi]);
            }
            if self.has(id) {
                let y = choose|y: int| 0 <= y < after.len() && after[y].id == id;
                let x = if y < k { y } else { y + 1 };
                assert(before[x].id == id && before[k as int].id == id);
            }
        }
        Ok(w)
    }
}

} // verus!
