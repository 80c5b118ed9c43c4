use workspace_service::api::{WorkspacesMutation, WorkspacesQuery};
use workspace_service::error::ErrorKind;
use workspace_service::ids::{AuthId, UserId, WorkspaceId};
use workspace_service::service::WorkspaceServiceImpl;
use workspace_service::unit_of_work::UnitOfWork;
use workspace_service::user::{UserRepoImpl, UsersMutation};
use workspace_service::workspace::{Event, Role, RoleFilter, Workspace};

const ADMIN_AUTH: u128 = 0xfeedface_0000_0000_0000_000000000000;
const PLAIN_AUTH: u128 = 0xdeadbeef_0000_0000_0000_000000000000;
const OTHER_AUTH: u128 = 0x0badcafe_0000_0000_0000_000000000001;
const THIRD_AUTH: u128 = 0x0badcafe_0000_0000_0000_000000000002;

fn directory() -> UserRepoImpl {
    let mut users = UserRepoImpl::new();
    users.create(AuthId(ADMIN_AUTH), "Admin", "admin@example.com", true).unwrap();
    users.create(AuthId(PLAIN_AUTH), "Plain", "plain@example.com", false).unwrap();
    users.create(AuthId(OTHER_AUTH), "Other", "other@example.com", false).unwrap();
    users.create(AuthId(THIRD_AUTH), "Third", "third@example.com", false).unwrap();
    users
}

fn service() -> WorkspaceServiceImpl {
    WorkspaceServiceImpl::new(directory())
}

fn user_id(s: &WorkspaceServiceImpl, auth: u128) -> UserId {
    s.users.find_by_auth_id(AuthId(auth)).unwrap().id
}

fn ids(users: &[workspace_service::user::User]) -> Vec<UserId> {
    users.iter().map(|u| u.id).collect()
}

fn new_workspace(s: &mut WorkspaceServiceImpl) -> Workspace {
    s.create("title", "description", AuthId(ADMIN_AUTH), UnitOfWork::reliable()).unwrap()
}

#[test]
fn update_user_succeds_if_admin() {
    let mut users = directory();
    let target = "1c8b7e1e-4c8d-4f4a-9d6e-2b7f0a1d3e55";
    UsersMutation.get_or_create_user(&mut users, target, "New", "new@example.com").unwrap();
    let updated = UsersMutation.update_user(&mut users, AuthId(ADMIN_AUTH), target, true).unwrap();
    assert!(updated.is_platform_admin);
}

#[test]
fn update_user_fails_if_not_admin() {
    let mut users = directory();
    let result = UsersMutation.update_user(
        &mut users,
        AuthId(PLAIN_AUTH),
        "deadbeef-0000-0000-0000-000000000000",
        true,
    );
    assert_eq!(
        result.err().unwrap().message,
        "User with auth_id deadbeef-0000-0000-0000-000000000000 is not a platform admin."
    );
}

#[test]
fn creating_workspace_emits_an_event() {
    let mut s = service();
    let workspace = s
        .create("title", "description", AuthId(ADMIN_AUTH), UnitOfWork::reliable())
        .unwrap();
    assert_eq!(workspace.title, "title");
    assert_eq!(workspace.description, "description");
    assert!(s
        .events
        .iter()
        .any(|e| matches!(e, Event::WorkspaceCreated { .. })));
}

#[test]
fn creating_workspace_as_non_admin_fails() {
    let mut s = service();
    let result = s.create("title", "description", AuthId(PLAIN_AUTH), UnitOfWork::reliable());
    assert_eq!(
        result.err().unwrap().message,
        "User with auth_id deadbeef-0000-0000-0000-000000000000 does not have permission to create a workspace."
    );
    assert_eq!(s.events.len(), 0);
}

#[test]
fn created_workspace_has_two_distinct_existing_teams() {
    let mut s = service();
    let w = new_workspace(&mut s);
    assert_ne!(w.admins, w.members);
    let titles: Vec<(u128, String)> = s.teams.teams.iter().map(|t| (t.id.0, t.title.clone())).collect();
    assert!(titles.contains(&(w.admins.0, "title Admins".to_string())));
    assert!(titles.contains(&(w.members.0, "title Members".to_string())));
    assert_eq!(s.teams.memberships.len(), 0);
}

#[test]
fn non_admin_create_changes_nothing() {
    let mut s = service();
    let result = s.create("T", "D", AuthId(PLAIN_AUTH), UnitOfWork::reliable());
    assert_eq!(result.err().unwrap().kind, ErrorKind::Unauthorized);
    assert_eq!(s.teams.teams.len(), 0);
    assert_eq!(s.workspaces.workspaces.len(), 0);
    assert_eq!(s.events.len(), 0);
}

#[test]
fn create_by_unknown_identity_is_not_found() {
    let mut s = service();
    let result = s.create("T", "D", AuthId(42), UnitOfWork::reliable());
    assert_eq!(result.err().unwrap().kind, ErrorKind::NotFound);
    assert_eq!(s.events.len(), 0);
}

#[test]
fn create_emits_exactly_one_matching_event() {
    let mut s = service();
    let w = s.create("T", "D", AuthId(ADMIN_AUTH), UnitOfWork::reliable()).unwrap();
    assert_eq!(w.title, "T");
    assert_eq!(w.description, "D");
    assert_eq!(s.events.len(), 1);
    let admin = user_id(&s, ADMIN_AUTH);
    match &s.events[0] {
        Event::WorkspaceCreated { workspace_id, user_id, title } => {
            assert_eq!(*workspace_id, w.id);
            assert_eq!(*user_id, admin);
            assert_eq!(title, "T");
        }
        _ => panic!("wrong event"),
    }
}

#[test]
fn create_rolls_back_when_a_write_fails() {
    for allowance in 0..3u64 {
        let mut s = service();
        let result = s.create("T", "D", AuthId(ADMIN_AUTH), UnitOfWork::failing_after(allowance));
        assert_eq!(result.err().unwrap().kind, ErrorKind::Infra);
        assert_eq!(s.teams.teams.len(), 0);
        assert_eq!(s.teams.next_id, 0);
        assert_eq!(s.workspaces.workspaces.len(), 0);
        assert_eq!(s.events.len(), 0);
    }
    let mut s = service();
    assert!(s.create("T", "D", AuthId(ADMIN_AUTH), UnitOfWork::failing_after(3)).is_ok());
}

#[test]
fn self_change_is_invalid_for_any_requester() {
    let mut s = service();
    let w = new_workspace(&mut s);
    for (auth, role) in [(ADMIN_AUTH, Role::Admin), (PLAIN_AUTH, Role::Admin), (ADMIN_AUTH, Role::NonMember)] {
        let me = user_id(&s, auth);
        let err = s
            .change_workspace_membership(w.id, me, role, AuthId(auth), UnitOfWork::reliable())
            .err()
            .unwrap();
        assert_eq!(err.kind, ErrorKind::InvalidOperation);
    }
    let me = user_id(&s, PLAIN_AUTH);
    let err = s
        .change_workspace_membership(w.id, me, Role::Admin, AuthId(PLAIN_AUTH), UnitOfWork::reliable())
        .err()
        .unwrap();
    assert_eq!(
        err.message,
        "user with auth_id deadbeef-0000-0000-0000-000000000000 cannot demote themselves to Admin"
    );
    assert_eq!(s.events.len(), 1);
}

#[test]
fn role_transitions_converge_and_are_idempotent() {
    let mut s = service();
    let w = new_workspace(&mut s);
    let target = user_id(&s, OTHER_AUTH);
    let mut change = |s: &mut WorkspaceServiceImpl, role: Role| {
        s.change_workspace_membership(w.id, target, role, AuthId(ADMIN_AUTH), UnitOfWork::reliable())
            .unwrap();
    };
    change(&mut s, Role::Admin);
    assert!(s.teams.is_member_of(w.admins, target));
    assert!(s.teams.is_member_of(w.members, target));
    change(&mut s, Role::Admin);
    assert_eq!(s.teams.memberships.len(), 2);
    change(&mut s, Role::NonAdmin);
    assert!(!s.teams.is_member_of(w.admins, target));
    assert!(s.teams.is_member_of(w.members, target));
    change(&mut s, Role::NonMember);
    assert!(!s.teams.is_member_of(w.admins, target));
    assert!(!s.teams.is_member_of(w.members, target));
    assert_eq!(s.teams.memberships.len(), 0);
    change(&mut s, Role::NonMember);
    assert_eq!(s.teams.memberships.len(), 0);
    assert_eq!(s.events.len(), 6);
}

#[test]
fn membership_change_emits_event_with_role() {
    let mut s = service();
    let w = new_workspace(&mut s);
    let target = user_id(&s, OTHER_AUTH);
    let admin = user_id(&s, ADMIN_AUTH);
    let r = s
        .change_workspace_membership(w.id, target, Role::NonAdmin, AuthId(ADMIN_AUTH), UnitOfWork::reliable())
        .unwrap();
    assert_eq!(r.id, w.id);
    match &s.events[1] {
        Event::WorkspaceMembershipChanged { requesting_user_id, affected_workspace_id, affected_user_id, affected_role } => {
            assert_eq!(*requesting_user_id, admin);
            assert_eq!(*affected_workspace_id, w.id);
            assert_eq!(*affected_user_id, target);
            assert_eq!(affected_role.name(), "NonAdmin");
        }
        _ => panic!("wrong event"),
    }
}

#[test]
fn workspace_admin_may_change_membership_but_plain_member_may_not() {
    let mut s = service();
    let w = new_workspace(&mut s);
    let other = user_id(&s, OTHER_AUTH);
    let third = user_id(&s, THIRD_AUTH);
    let err = s
        .change_workspace_membership(w.id, third, Role::NonAdmin, AuthId(OTHER_AUTH), UnitOfWork::reliable())
        .err()
        .unwrap();
    assert_eq!(err.kind, ErrorKind::Unauthorized);
    assert_eq!(
        err.message,
        "user with auth_id 0badcafe-0000-0000-0000-000000000001 does not have permission to update workspace membership"
    );
    s.change_workspace_membership(w.id, other, Role::Admin, AuthId(ADMIN_AUTH), UnitOfWork::reliable())
        .unwrap();
    s.change_workspace_membership(w.id, third, Role::NonAdmin, AuthId(OTHER_AUTH), UnitOfWork::reliable())
        .unwrap();
    assert!(s.teams.is_member_of(w.members, third));
}

#[test]
fn membership_change_on_unknown_workspace_is_not_found() {
    let mut s = service();
    let target = user_id(&s, OTHER_AUTH);
    let err = s
        .change_workspace_membership(WorkspaceId(99), target, Role::Admin, AuthId(ADMIN_AUTH), UnitOfWork::reliable())
        .err()
        .unwrap();
    assert_eq!(err.kind, ErrorKind::NotFound);
    let err = s
        .change_workspace_membership(WorkspaceId(99), target, Role::Admin, AuthId(7), UnitOfWork::reliable())
        .err()
        .unwrap();
    assert_eq!(err.kind, ErrorKind::NotFound);
}

#[test]
fn members_filters_select_exact_sets() {
    let mut s = service();
    let w = new_workspace(&mut s);
    let other = user_id(&s, OTHER_AUTH);
    let third = user_id(&s, THIRD_AUTH);
    assert!(s.members(&w, None).is_empty());
    assert!(s.members(&w, Some(RoleFilter::Admin)).is_empty());
    s.change_workspace_membership(w.id, other, Role::Admin, AuthId(ADMIN_AUTH), UnitOfWork::reliable())
        .unwrap();
    s.change_workspace_membership(w.id, third, Role::NonAdmin, AuthId(ADMIN_AUTH), UnitOfWork::reliable())
        .unwrap();
    assert_eq!(ids(&s.members(&w, None)), vec![other, third]);
    assert_eq!(ids(&s.members(&w, Some(RoleFilter::Admin))), vec![other]);
    assert_eq!(ids(&s.members(&w, Some(RoleFilter::NonAdmin))), vec![third]);
}

#[test]
fn is_admin_of_unknown_user_is_false() {
    let mut s = service();
    let w = new_workspace(&mut s);
    assert!(!s.is_admin(w.id, UserId(12345)).unwrap());
    assert!(!s.is_admin(WorkspaceId(777), UserId(12345)).unwrap());
    let other = user_id(&s, OTHER_AUTH);
    assert!(!s.is_admin(w.id, other).unwrap());
    assert_eq!(s.is_admin(WorkspaceId(777), other).err().unwrap().kind, ErrorKind::NotFound);
    s.change_workspace_membership(w.id, other, Role::Admin, AuthId(ADMIN_AUTH), UnitOfWork::reliable())
        .unwrap();
    assert!(s.is_admin(w.id, other).unwrap());
}

#[test]
fn failed_membership_write_rolls_back() {
    let mut s = service();
    let w = new_workspace(&mut s);
    let other = user_id(&s, OTHER_AUTH);
    s.change_workspace_membership(w.id, other, Role::Admin, AuthId(ADMIN_AUTH), UnitOfWork::reliable())
        .unwrap();
    for role in [Role::NonAdmin, Role::NonMember] {
        for allowance in 0..2u64 {
            let err = s
                .change_workspace_membership(w.id, other, role, AuthId(ADMIN_AUTH), UnitOfWork::failing_after(allowance))
                .err()
                .unwrap();
            assert_eq!(err.kind, ErrorKind::Infra);
            assert!(s.teams.is_member_of(w.admins, other));
            assert!(s.teams.is_member_of(w.members, other));
            assert_eq!(s.teams.memberships.len(), 2);
            assert_eq!(s.events.len(), 2);
        }
    }
}

#[test]
fn query_and_mutation_by_text_id() {
    let mut s = service();
    let w = WorkspacesMutation
        .create_workspace(&mut s, "T", "D", AuthId(ADMIN_AUTH), UnitOfWork::reliable())
        .unwrap();
    let text = format!("{:08x}-0000-0000-0000-{:012x}", 0, w.id.0);
    let found = WorkspacesQuery.workspace(&s, &text).unwrap();
    assert_eq!(found.id, w.id);
    assert_eq!(WorkspacesQuery.get_workspace(&s, "not-a-uuid").err().unwrap().kind, ErrorKind::NotFound);
    let updated = WorkspacesMutation
        .update_workspace(&mut s, &text, "T2", "D2", UnitOfWork::reliable())
        .unwrap();
    assert_eq!(updated.title, "T2");
    assert_eq!(updated.description, "D2");
    assert_eq!(updated.admins, w.admins);
    assert_eq!(WorkspacesQuery.workspaces(&s).len(), 1);
    assert_eq!(
        WorkspacesMutation.update_workspace(&mut s, &text, "x", "y", UnitOfWork::failing_after(0)).err().unwrap().kind,
        ErrorKind::Infra
    );
    let deleted = WorkspacesMutation.delete_workspace(&mut s, &text, UnitOfWork::reliable()).unwrap();
    assert_eq!(deleted.title, "T2");
    assert_eq!(WorkspacesQuery.workspaces(&s).len(), 0);
    assert_eq!(s.teams.teams.len(), 2);
    assert_eq!(
        WorkspacesMutation.delete_workspace(&mut s, &text, UnitOfWork::reliable()).err().unwrap().kind,
        ErrorKind::NotFound
    );
}

#[test]
fn get_or_create_user_returns_existing_or_new() {
    let mut users = directory();
    let existing = UsersMutation
        .get_or_create_user(&mut users, "deadbeef-0000-0000-0000-000000000000", "X", "x@example.com")
        .unwrap();
    assert_eq!(existing.name, "Plain");
    let created = UsersMutation
        .get_or_create_user(&mut users, "00000000-0000-0000-0000-0000000000aa", "New", "n@example.com")
        .unwrap();
    assert_eq!(created.auth_id, AuthId(0xaa));
    assert!(!created.is_platform_admin);
    assert_eq!(users.users.len(), 5);
    assert_eq!(
        UsersMutation.get_or_create_user(&mut users, "zz", "a", "b").err().unwrap().kind,
        ErrorKind::NotFound
    );
    assert_eq!(
        users.create(AuthId(0xaa), "Dup", "d@example.com", false).err().unwrap().kind,
        ErrorKind::InvalidOperation
    );
}

#[test]
fn role_names() {
    assert_eq!(Role::Admin.name(), "Admin");
    assert_eq!(Role::NonAdmin.name(), "NonAdmin");
    assert_eq!(Role::NonMember.name(), "NonMember");
}

#[test]
fn take_events_hands_over_and_clears() {
    let mut s = service();
    let w = new_workspace(&mut s);
    let events = s.take_events();
    assert_eq!(events.len(), 1);
    assert!(matches!(&events[0], Event::WorkspaceCreated { workspace_id, .. } if *workspace_id == w.id));
    assert_eq!(s.events.len(), 0);
    assert_eq!(s.workspaces.workspaces.len(), 1);
}

#[test]
fn text_id_mutations_on_absent_workspace_are_not_found() {
    let mut s = service();
    let w = new_workspace(&mut s);
    let absent = "00000000-0000-0000-0000-0000000000ff";
    assert_eq!(
        WorkspacesMutation.update_workspace(&mut s, absent, "x", "y", UnitOfWork::reliable()).err().unwrap().kind,
        ErrorKind::NotFound
    );
    assert_eq!(
        WorkspacesMutation.delete_workspace(&mut s, absent, UnitOfWork::reliable()).err().unwrap().kind,
        ErrorKind::NotFound
    );
    assert_eq!(s.workspaces.workspaces.len(), 1);
    assert_eq!(s.workspaces.workspaces[0].title, w.title);
}

#[test]
fn delete_keeps_other_workspaces() {
    let mut s = service();
    let first = new_workspace(&mut s);
    let second = s.create("second", "d", AuthId(ADMIN_AUTH), UnitOfWork::reliable()).unwrap();
    let text = format!("00000000-0000-0000-0000-{:012x}", first.id.0);
    let deleted = WorkspacesMutation.delete_workspace(&mut s, &text, UnitOfWork::reliable()).unwrap();
    assert_eq!(deleted.id, first.id);
    let rest = WorkspacesQuery.workspaces(&s);
    assert_eq!(rest.len(), 1);
    assert_eq!(rest[0].id, second.id);
    assert_eq!(rest[0].title, "second");
}

#[test]
fn adding_a_present_member_keeps_one_row() {
    let mut teams = workspace_service::team::TeamRepoImpl::new();
    let mut uow = UnitOfWork::reliable();
    let t = teams.create("t", &mut uow).unwrap();
    teams.add_member(t.id, UserId(5), &mut uow).unwrap();
    teams.add_member(t.id, UserId(5), &mut uow).unwrap();
    assert_eq!(teams.memberships.len(), 1);
    assert!(teams.is_member_of(t.id, UserId(5)));
    teams.remove_member(t.id, UserId(5), &mut uow).unwrap();
    teams.remove_member(t.id, UserId(5), &mut uow).unwrap();
    assert_eq!(teams.memberships.len(), 0);
}
