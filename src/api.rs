use crate::error::{ErrorKind, ServiceError};
use crate::ids::{parse_uuid, parsed_uuid, AuthId, WorkspaceId};
use crate::service::{create_denied_message, WorkspaceServiceImpl};
use crate::unit_of_work::UnitOfWork;
use crate::workspace::{Event, Workspace};
use vstd::prelude::*;

verus! {

/// Reads `text` as a workspace id; `NotFound` when it is no identifier.
fn workspace_id_of(text: &str) -> (r: Result<WorkspaceId, ServiceError>)
    ensures
        match parsed_uuid(text@) {
            Some(v) => r == Ok::<WorkspaceId, ServiceError>(WorkspaceId(v)),
            None => r is Err && r->Err_0.kind == ErrorKind::NotFound,
        },
{
    match parse_uuid(text) {
        Some(v) => Ok(WorkspaceId(v)),
        None => Err(ServiceError::new(ErrorKind::NotFound, "workspace id is not a valid identifier")),
    }
}

/// Workspace queries at the boundary, where ids arrive as text.
pub struct WorkspacesQuery;

impl WorkspacesQuery {
    /// Every workspace, in creation order.
    pub fn workspaces(&self, service: &WorkspaceServiceImpl) -> (r: Vec<Workspace>)
        ensures
            r@ == service.workspaces.workspaces@,
    {
        service.find_all()
    }

    /// The workspace whose id `id` denotes.
    pub fn workspace(&self, service: &WorkspaceServiceImpl, id: &str) -> (r: Result<Workspace, ServiceError>)
        requires
            service.wf(),
        ensures
            r is Ok <==> (parsed_uuid(id@) matches Some(v) && service.workspaces.has(WorkspaceId(v))),
            r matches Ok(w) ==> Some(w) == service.workspaces.by_id(WorkspaceId(parsed_uuid(id@).unwrap())),
            r matches Err(e) ==> e.kind == ErrorKind::NotFound,
    {
        self.get_workspace(service, id)
    }

    /// The workspace whose id `id` denotes; `NotFound` when the text is no
    /// identifier or no workspace has it.
    pub fn get_workspace(&self, service: &WorkspaceServiceImpl, id: &str) -> (r: Result<Workspace, ServiceError>)
        requires
            service.wf(),
        ensures
            r is Ok <==> (parsed_uuid(id@) matches Some(v) && service.workspaces.has(WorkspaceId(v))),
            r matches Ok(w) ==> Some(w) == service.workspaces.by_id(WorkspaceId(parsed_uuid(id@).unwrap())),
            r matches Err(e) ==> e.kind == ErrorKind::NotFound,
    {
        let wid = workspace_id_of(id)?;
        service.find_by_id(wid)
    }
}

/// Workspace mutations at the boundary, where ids arrive as text.
pub struct WorkspacesMutation;

impl WorkspacesMutation {
    /// Creates a workspace and its two teams on behalf of `requesting_user`,
    /// then records a `WorkspaceCreated` event; see
    /// `WorkspaceServiceImpl::create`.
    pub fn create_workspace(
        &self,
        service: &mut WorkspaceServiceImpl,
        title: &str,
        description: &str,
        requesting_user: AuthId,
        uow: UnitOfWork,
    ) -> (r: Result<Workspace, ServiceError>)
        requires
            old(service).wf(),
        ensures
            final(service).wf(),
            r is Err ==> final(service).unchanged_from(old(service)),
            !old(service).users.has_auth(requesting_user) ==> r is Err && r->Err_0.kind == ErrorKind::NotFound,
            old(service).users.by_auth(requesting_user) matches Some(u) ==> {
                if !u.is_platform_admin {
                    &&& r is Err
                    &&& r->Err_0.kind == ErrorKind::Unauthorized
                    &&& r->Err_0.message@ == create_denied_message(requesting_user)
                } else {
                    &&& r is Ok <==> (uow.allows(3) && old(service).teams.next_id < u128::MAX - 1
                        && old(service).workspaces.next_id < u128::MAX)
                    &&& r is Err ==> r->Err_0.kind == ErrorKind::Infra
                    &&& r matches Ok(w) ==> {
                        let n = old(service).teams.teams@.len() as int;
                        &&& w.title@ == title@
                        &&& w.description@ == description@
                        &&& w.admins != w.members
                        &&& !old(service).teams.has_team(w.admins)
                        &&& !old(service).teams.has_team(w.members)
                        &&& final(service).teams.has_team(w.admins)
                        &&& final(service).teams.has_team(w.members)
                        &&& final(service).teams.teams@.len() == n + 2
                        &&& final(service).teams.teams@.subrange(0, n) == old(service).teams.teams@
                        &&& final(service).teams.teams@[n].id == w.admins
                        &&& final(service).teams.teams@[n].title@ == title@ + " Admins"@
                        &&& final(service).teams.teams@[n + 1].id == w.members
                        &&& final(service).teams.teams@[n + 1].title@ == title@ + " Members"@
                        &&& final(service).teams.memberships == old(service).teams.memberships
                        &&& !old(service).workspaces.has(w.id)
                        &&& final(service).workspaces.workspaces@ == old(service).workspaces.workspaces@.push(w)
                        &&& final(service).users == old(service).users
                        &&& final(service).events@ == old(service).events@.push(
                            Event::WorkspaceCreated { workspace_id: w.id, user_id: u.id, title: w.title },
                        )
                    }
                }
            },
    {
        service.create(title, description, requesting_user, uow)
    }

    /// Replaces the title and description of the workspace whose id `id`
    /// denotes, keeping its teams. Fails with `NotFound` when the text is no
    /// identifier or no workspace has it, and with `Infra` when the write
    /// fails; a failure changes nothing.
    pub fn update_workspace(&self, service: &mut WorkspaceServiceImpl, id: &str, title: &str, description: &str, uow: UnitOfWork) -> (r: Result<Workspace, ServiceError>)
        requires
            old(service).wf(),
        ensures
            final(service).wf(),
            final(service).teams == old(service).teams,
            final(service).users == old(service).users,
            final(service).events@ == old(service).events@,
            r is Ok <==> (parsed_uuid(id@) matches Some(v) && old(service).workspaces.has(WorkspaceId(v))
                && uow.allows(1)),
            match r {
                Ok(w) => {
                    let i = WorkspaceId(parsed_uuid(id@).unwrap());
                    let before = old(service).workspaces.by_id(i).unwrap();
                    &&& w.id == i && w.admins == before.admins && w.members == before.members
                    &&& w.title@ == title@ && w.description@ == description@
                    &&& final(service).workspaces.workspaces@ == old(service).workspaces.workspaces@.update(
                        old(service).workspaces.index_of(i),
                        w,
                    )
                    &&& final(service).workspaces.next_id == old(service).workspaces.next_id
                },
                Err(e) => {
                    &&& e.kind == (if parsed_uuid(id@) matches Some(v) && old(service).workspaces.has(WorkspaceId(v)) {
                        ErrorKind::Infra
                    } else {
                        ErrorKind::NotFound
                    })
                    &&& final(service).workspaces == old(service).workspaces
                },
            },
    {
        let wid = workspace_id_of(id)?;
        service.update(wid, title, description, uow)
    }

    /// Removes the workspace whose id `id` denotes and returns it; its teams
    /// are kept. Fails with `NotFound` when the text is no identifier or no
    /// workspace has it, and with `Infra` when the write fails; a failure
    /// changes nothing.
    pub fn delete_workspace(&self, service: &mut WorkspaceServiceImpl, id: &str, uow: UnitOfWork) -> (r: Result<Workspace, ServiceError>)
        requires
            old(service).wf(),
        ensures
            final(service).wf(),
            final(service).teams == old(service).teams,
            final(service).users == old(service).users,
            final(service).events@ == old(service).events@,
            r is Ok <==> (parsed_uuid(id@) matches Some(v) && old(service).workspaces.has(WorkspaceId(v))
                && uow.allows(1)),
            match r {
                Ok(w) => {
                    let i = WorkspaceId(parsed_uuid(id@).unwrap());
                    &&& Some(w) == old(service).workspaces.by_id(i)
                    &&& final(service).workspaces.workspaces@ == old(service).workspaces.workspaces@.remove(
                        old(service).workspaces.index_of(i),
                    )
                    &&& !final(service).workspaces.has(i)
                    &&& final(service).workspaces.next_id == old(service).workspaces.next_id
                },
                Err(e) => {
                    &&& e.kind == (if parsed_uuid(id@) matches Some(v) && old(service).workspaces.has(WorkspaceId(v)) {
                        ErrorKind::Infra
                    } else {
                        ErrorKind::NotFound
                    })
                    &&& final(service).workspaces == old(service).workspaces
                },
            },
    {
        let wid = workspace_id_of(id)?;
        service.delete(wid, uow)
    }
}

} // verus!
