use crate::error::{ErrorKind, ServiceError};
use crate::ids::{TeamId, UserId};
use crate::unit_of_work::UnitOfWork;
use crate::user::{User, UserRepoImpl};
use vstd::prelude::*;
use vstd::string::StringExecFns;

verus! {

/// A named group of users.
#[derive(Debug)]
pub struct Team {
    pub id: TeamId,
    pub title: String,
}

impl Team {
    /// A copy of this record.
    pub fn copied(&self) -> (r: Team)
        ensures
            r == *self,
    {
        Team { id: self.id, title: self.title.clone() }
    }
}

/// One row of the membership relation.
#[derive(Clone, Copy, Debug, PartialEq, Eq, Structural)]
pub struct Membership {
    pub team: TeamId,
    pub user: UserId,
}

/// The team store: teams and the membership relation between teams and users.
pub struct TeamRepoImpl {
    pub teams: Vec<Team>,
    pub memberships: Vec<Membership>,
    /// The next team id to hand out; every stored id is below it.
    pub next_id: u128,
}

impl TeamRepoImpl {
    /// Team ids are unique and below `next_id`; membership rows are unique.
    pub open spec fn wf(&self) -> bool {
        &&& forall|i: int, j: int|
            0 <= i < j < self.teams@.len() ==> self.teams@[i].id != self.teams@[j].id
        &&& forall|i: int| 0 <= i < self.teams@.len() ==> self.teams@[i].id.0 < self.next_id
        &&& self.memberships@.no_duplicates()
    }

    pub open spec fn has_team(&self, t: TeamId) -> bool {
        exists|i: int| 0 <= i < self.teams@.len() && self.teams@[i].id == t
    }

    pub open spec fn is_member(&self, t: TeamId, u: UserId) -> bool {
        self.memberships@.contains(Membership { team: t, user: u })
    }

    /// Selects the users that belong to team `t`.
    pub open spec fn in_team(&self, t: TeamId) -> spec_fn(User) -> bool {
        |x: User| self.is_member(t, x.id)
    }

    /// Selects the users that belong to team `a` and not to team `b`.
    pub open spec fn in_difference(&self, a: TeamId, b: TeamId) -> spec_fn(User) -> bool {
        |x: User| self.is_member(a, x.id) && !self.is_member(b, x.id)
    }

    /// The membership relation is that of `old` with the row `(t, u)` added.
    pub open spec fn added(&self, old: &TeamRepoImpl, t: TeamId, u: UserId) -> bool {
        forall|t2: TeamId, u2: UserId|
            #[trigger] self.is_member(t2, u2) == (old.is_member(t2, u2) || (t2 == t && u2 == u))
    }

    /// The membership relation is that of `old` with the row `(t, u)` taken out.
    pub open spec fn removed(&self, old: &TeamRepoImpl, t: TeamId, u: UserId) -> bool {
        forall|t2: TeamId, u2: UserId|
            #[trigger] self.is_member(t2, u2) == (old.is_member(t2, u2) && !(t2 == t && u2 == u))
    }

    /// Both stores hold the same membership relation.
    pub open spec fn same_memberships(&self, other: &TeamRepoImpl) -> bool {
        forall|t: TeamId, u: UserId| #[trigger] self.is_member(t, u) == other.is_member(t, u)
    }

    pub fn new() -> (r: TeamRepoImpl)
        ensures
            r.wf(),
            r.teams@.len() == 0,
            r.memberships@.len() == 0,
            r.next_id == 0,
    {
        TeamRepoImpl { teams: Vec::new(), memberships: Vec::new(), next_id: 0 }
    }

    /// Creates a team under a fresh id. Fails with `Infra` when the
    /// connection refuses the write or the id space is exhausted.
    pub fn create(&mut self, title: &str, uow: &mut UnitOfWork) -> (r: Result<Team, ServiceError>)
        requires
            old(self).wf(),
        ensures
            final(self).wf(),
            r is Ok <==> old(uow).can_write() && old(self).next_id < u128::MAX,
            match r {
                Ok(t) => {
                    &&& !old(self).has_team(t.id)
                    &&& t.id.0 == old(self).next_id
                    &&& t.title@ == title@
                    &&& final(self).teams@ == old(self).teams@.push(t)
                    &&& final(self).memberships == old(self).memberships
                    &&& final(self).next_id == old(self).next_id + 1
                    &&& *final(uow) == old(uow).after_write()
                },
                Err(e) => e.kind == ErrorKind::Infra && *final(self) == *old(self) && *final(uow)
                    == *old(uow),
            },
    {
        if self.next_id == u128::MAX {
            return Err(ServiceError::new(ErrorKind::Infra, "create team: id space exhausted"));
        }
        if !uow.claim_write() {
            return Err(ServiceError::new(ErrorKind::Infra, "create team: store unavailable"));
        }
        let team = Team { id: TeamId(self.next_id), title: String::from_str(title) };
        self.teams.push(team.copied());
        self.next_id = self.next_id + 1;
        Ok(team)
    }

    fn position_of(&self, m: Membership) -> (r: Option<usize>)
        ensures
            r is None <==> !self.memberships@.contains(m),
            r matches Some(k) ==> k < self.memberships@.len() && self.memberships@[k as int] == m,
    {
        let mut k: usize = 0;
        while k < self.memberships.len()
            invariant
                k <= self.memberships@.len(),
                forall|i: int| 0 <= i < k ==> self.memberships@[i] != m,
            decreases self.memberships@.len() - k,
        {
            if self.memberships[k] == m {
                return Some(k);
            }
            k = k + 1;
        }
        None
    }

    /// Whether user `u` belongs to team `t`.
    pub fn is_member_of(&self, t: TeamId, u: UserId) -> (r: bool)
        ensures
            r == self.is_member(t, u),
    {
        self.position_of(Membership { team: t, user: u }).is_some()
    }

    /// The users of the directory, in its order, that `pred` keeps.
    fn select(&self, users: &UserRepoImpl, Ghost(pred): Ghost<spec_fn(User) -> bool>, a: TeamId, b: Option<TeamId>) -> (r: Vec<User>)
        requires
            forall|x: User|
                #[trigger] pred(x) == (self.is_member(a, x.id) && (b matches Some(bt) ==> !self.is_member(bt, x.id))),
        ensures
            r@ == users.users@.filter(pred),
    {
        let mut r: Vec<User> = Vec::new();
        let mut i: usize = 0;
        while i < users.users.len()
            invariant
                i <= users.users@.len(),
                r@ == users.users@.subrange(0, i as int).filter(pred),
                forall|x: User|
                    #[trigger] pred(x) == (self.is_member(a, x.id) && (b matches Some(bt) ==> !self.is_member(bt, x.id))),
            decreases users.users@.len() - i,
        {
            let x = &users.users[i];
            let keep = match b {
                Some(bt) => self.is_member_of(a, x.id) && !self.is_member_of(bt, x.id),
                None => self.is_member_of(a, x.id),
            };
            let ghost prefix = users.users@.subrange(0, i as int);
            let ghost next = users.users@.subrange(0, i + 1);
            assert(next.drop_last() =~= prefix);
            assert(next.last() == users.users@[i as int]);
            assert(keep == pred(users.users@[i as int]));
            proof {
                reveal(Seq::filter);
            }
            if keep {
                r.push(x.copied());
            }
            i = i + 1;
        }
        assert(users.users@.subrange(0, users.users@.len() as int) =~= users.users@);
        r
    }

    /// The users of team `t`, in directory order.
    pub fn members(&self, t: TeamId, users: &UserRepoImpl) -> (r: Vec<User>)
        ensures
            r@ == users.users@.filter(self.in_team(t)),
    {
        self.select(users, Ghost(self.in_team(t)), t, None)
    }

    /// The users of team `a` that are not in team `b`, in directory order.
    pub fn members_difference(&self, a: TeamId, b: TeamId, users: &UserRepoImpl) -> (r: Vec<User>)
        ensures
            r@ == users.users@.filter(self.in_difference(a, b)),
    {
        self.select(users, Ghost(self.in_difference(a, b)), a, Some(b))
    }

    fn insert_row(&mut self, t: TeamId, u: UserId)
        requires
            old(self).wf(),
        ensures
            final(self).wf(),
            final(self).added(old(self), t, u),
            final(self).teams == old(self).teams,
            final(self).next_id == old(self).next_id,
            old(self).is_member(t, u) ==> final(self).memberships == old(self).memberships,
    {
        let m = Membership { team: t, user: u };
        if self.position_of(m).is_none() {
            self.memberships.push(m);
            proof {
                assert forall|t2: TeamId, u2: UserId|
                    #[trigger] self.is_member(t2, u2) == (old(self).is_member(t2, u2) || (t2 == t
                        && u2 == u)) by {
                    let m2 = Membership { team: t2, user: u2 };
                    if old(self).memberships@.contains(m2) {
                        let k = choose|k: int| 0 <= k < old(self).memberships@.len() && old(self).memberships@[k] == m2;
                        assert(self.memberships@[k] == m2);
                    }
                    if m2 == m {
                        assert(self.memberships@[self.memberships@.len() - 1] == m2);
                    }
                }
            }
        }
    }

    fn delete_row(&mut self, t: TeamId, u: UserId)
        requires
            old(self).wf(),
        ensures
            final(self).wf(),
            final(self).removed(old(self), t, u),
            final(self).teams == old(self).teams,
            final(self).next_id == old(self).next_id,
            !old(self).is_member(t, u) ==> final(self).memberships == old(self).memberships,
    {
        let m = Membership { team: t, user: u };
        match self.position_of(m) {
            None => {},
            Some(k) => {
                let ghost before = self.memberships@;
                self.memberships.remove(k);
                proof {
                    let after = self.memberships@;
                    assert(after =~= before.remove(k as int));
                    assert forall|i: int, j: int| 0 <= i < j < after.len() implies after[i] != after[j] by {
                        let bi = if i < k { i } else { i + 1 };
                        let bj = if j < k { j } else { j + 1 };
                        assert(after[i] == before[bi] && after[j] == before[bj]);
                    }
                    assert forall|t2: TeamId, u2: UserId|
                        #[trigger] self.is_member(t2, u2) == (old(self).is_member(t2, u2) && !(t2 == t
                            && u2 == u)) by {
                        let m2 = Membership { team: t2, user: u2 };
                        if old(self).memberships@.contains(m2) && m2 != m {
                            let x = choose|x: int| 0 <= x < before.len() && before[x] == m2;
                            assert(x != k);
                            let y = if x < k { x } else { x - 1 };
                            assert(after[y] == m2);
                        }
                        if after.contains(m2) {
                            let y = choose|y: int| 0 <= y < after.len() && after[y] == m2;
                            let x = if y < k { y } else { y + 1 };
                            assert(before[x] == m2);
                            assert(x != k);
                        }
                    }
                }
            },
        }
    }

    /// Adds user `u` to team `t`; adding a present member leaves the rows
    /// exactly as they were, so no row is ever duplicated. The write goes to
    /// the connection either way, and fails with `Infra`, changing nothing,
    /// when the connection refuses it.
    pub fn add_member(&mut self, t: TeamId, u: UserId, uow: &mut UnitOfWork) -> (r: Result<(), ServiceError>)
        requires
            old(self).wf(),
        ensures
            final(self).wf(),
            r is Ok <==> old(uow).can_write(),
            r is Ok ==> final(self).added(old(self), t, u) && final(self).teams == old(self).teams
                && final(self).next_id == old(self).next_id && *final(uow) == old(uow).after_write(),
            r is Ok && old(self).is_member(t, u) ==> final(self).memberships == old(self).memberships,
            r matches Err(e) ==> e.kind == ErrorKind::Infra && *final(self) == *old(self) && *final(uow)
                == *old(uow),
    {
        if !uow.claim_write() {
            return Err(ServiceError::new(ErrorKind::Infra, "add member to team: store unavailable"));
        }
        self.insert_row(t, u);
        Ok(())
    }

    /// Removes user `u` from team `t`; removing an absent member leaves the
    /// rows exactly as they were. The write goes to the connection either
    /// way, and fails with `Infra`, changing nothing, when the connection
    /// refuses it.
    pub fn remove_member(&mut self, t: TeamId, u: UserId, uow: &mut UnitOfWork) -> (r: Result<(), ServiceError>)
        requires
            old(self).wf(),
        ensures
            final(self).wf(),
            r is Ok <==> old(uow).can_write(),
            r is Ok ==> final(self).removed(old(self), t, u) && final(self).teams == old(self).teams
                && final(self).next_id == old(self).next_id && *final(uow) == old(uow).after_write(),
            r is Ok && !old(self).is_member(t, u) ==> final(self).memberships == old(self).memberships,
            r matches Err(e) ==> e.kind == ErrorKind::Infra && *final(self) == *old(self) && *final(uow)
                == *old(uow),
    {
        if !uow.claim_write() {
            return Err(ServiceError::new(ErrorKind::Infra, "remove member from team: store unavailable"));
        }
        self.delete_row(t, u);
        Ok(())
    }

    /// Undoes a write of the row `(t, u)`: the row is put back when
    /// `present` holds and taken out otherwise.
    pub(crate) fn restore_row(&mut self, t: TeamId, u: UserId, present: bool)
        requires
            old(self).wf(),
        ensures
            final(self).wf(),
            final(self).teams == old(self).teams,
            final(self).next_id == old(self).next_id,
            forall|t2: TeamId, u2: UserId|
                #[trigger] final(self).is_member(t2, u2) == (if t2 == t && u2 == u {
                    present
                } else {
                    old(self).is_member(t2, u2)
                }),
    {
        if present {
            self.insert_row(t, u);
        } else {
            self.delete_row(t, u);
        }
    }

    /// Undoes team creations: keeps the first `len` teams and resets the id
    /// counter.
    pub(crate) fn discard_teams(&mut self, len: usize, next_id: u128)
        requires
            old(self).wf(),
            len <= old(self).teams@.len(),
            forall|i: int| 0 <= i < len ==> old(self).teams@[i].id.0 < next_id,
        ensures
            final(self).wf(),
            final(self).teams@ == old(self).teams@.subrange(0, len as int),
            final(self).memberships == old(self).memberships,
            final(self).next_id == next_id,
    {
        self.teams.truncate(len);
        self.next_id = next_id;
    }
}

} // verus!
