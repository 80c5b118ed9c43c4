use crate::error::{frame, framed, ErrorKind, ServiceError};
use crate::ids::{hyphenated_text, parse_uuid, parsed_uuid, uuid_text, AuthId, UserId};
use vstd::prelude::*;
use vstd::string::StringExecFns;

verus! {

/// A user of the platform.
#[derive(Debug)]
pub struct User {
    pub id: UserId,
    pub auth_id: AuthId,
    pub name: String,
    pub email_address: String,
    /// Grants bypass of every workspace-scoped authorization check.
    pub is_platform_admin: bool,
}

impl User {
    /// A copy of this record.
    pub fn copied(&self) -> (r: User)
        ensures
            r == *self,
    {
        User {
            id: self.id,
            auth_id: self.auth_id,
            name: self.name.clone(),
            email_address: self.email_address.clone(),
            is_platform_admin: self.is_platform_admin,
        }
    }

    pub fn id(&self) -> (r: UserId)
        ensures
            r == self.id,
    {
        self.id
    }

    pub fn auth_id(&self) -> (r: AuthId)
        ensures
            r == self.auth_id,
    {
        self.auth_id
    }

    pub fn name(&self) -> (r: &str)
        ensures
            r@ == self.name@,
    {
        self.name.as_str()
    }

    pub fn email_address(&self) -> (r: &str)
        ensures
            r@ == self.email_address@,
    {
        self.email_address.as_str()
    }

    pub fn is_platform_admin(&self) -> (r: bool)
        ensures
            r == self.is_platform_admin,
    {
        self.is_platform_admin
    }
}

/// The user directory: resolves external and internal identities to users.
pub struct UserRepoImpl {
    pub users: Vec<User>,
    /// The next internal id to hand out; every stored id is below it.
    pub next_id: u128,
}

impl UserRepoImpl {
    /// Internal ids and external ids are unique, and every id is below `next_id`.
    pub open spec fn wf(&self) -> bool {
        &&& forall|i: int, j: int|
            0 <= i < j < self.users@.len() ==> self.users@[i].id != self.users@[j].id
                && self.users@[i].auth_id != self.users@[j].auth_id
        &&& forall|i: int| 0 <= i < self.users@.len() ==> self.users@[i].id.0 < self.next_id
    }

    pub open spec fn has_auth(&self, a: AuthId) -> bool {
        exists|i: int| 0 <= i < self.users@.len() && self.users@[i].auth_id == a
    }

    pub open spec fn auth_index(&self, a: AuthId) -> int {
        choose|i: int| 0 <= i < self.users@.len() && self.users@[i].auth_id == a
    }

    /// The user whose external id is `a`, if any.
    pub open spec fn by_auth(&self, a: AuthId) -> Option<User> {
        if self.has_auth(a) {
            Some(self.users@[self.auth_index(a)])
        } else {
            None
        }
    }

    pub open spec fn has_id(&self, id: UserId) -> bool {
        exists|i: int| 0 <= i < self.users@.len() && self.users@[i].id == id
    }

    pub open spec fn id_index(&self, id: UserId) -> int {
        choose|i: int| 0 <= i < self.users@.len() && self.users@[i].id == id
    }

    /// The user whose internal id is `id`, if any.
    pub open spec fn by_id(&self, id: UserId) -> Option<User> {
        if self.has_id(id) {
            Some(self.users@[self.id_index(id)])
        } else {
            None
        }
    }

    pub fn new() -> (r: UserRepoImpl)
        ensures
            r.wf(),
            r.users@.len() == 0,
            r.next_id == 0,
    {
        UserRepoImpl { users: Vec::new(), next_id: 0 }
    }

    fn position_of_auth(&self, a: AuthId) -> (r: Option<usize>)
        requires
            self.wf(),
        ensures
            r.is_none() == !self.has_auth(a),
            r matches Some(k) ==> k == self.auth_index(a) && k < self.users@.len(),
    {
        let mut k: usize = 0;
        while k < self.users.len()
            invariant
                self.wf(),
                k <= self.users@.len(),
                forall|i: int| 0 <= i < k ==> self.users@[i].auth_id != a,
            decreases self.users@.len() - k,
        {
            if self.users[k].auth_id == a {
                assert(self.has_auth(a));
                let ghost c = self.auth_index(a);
                assert(0 <= c < self.users@.len() && self.users@[c].auth_id == a);
                proof {
                    if c > k as int {
                        assert(self.users@[k as int].auth_id != self.users@[c].auth_id);
                    }
                }
                assert(c == k as int);
                return Some(k);
            }
            k = k + 1;
        }
        None
    }

    fn position_of_id(&self, id: UserId) -> (r: Option<usize>)
        requires
            self.wf(),
        ensures
            r.is_none() == !self.has_id(id),
            r matches Some(k) ==> k == self.id_index(id) && k < self.users@.len(),
    {
        let mut k: usize = 0;
        while k < self.users.len()
            invariant
                self.wf(),
                k <= self.users@.len(),
                forall|i: int| 0 <= i < k ==> self.users@[i].id != id,
            decreases self.users@.len() - k,
        {
            if self.users[k].id == id {
                assert(self.has_id(id));
                let ghost c = self.id_index(id);
                assert(0 <= c < self.users@.len() && self.users@[c].id == id);
                proof {
                    if c > k as int {
                        assert(self.users@[k as int].id != self.users@[c].id);
                    }
                }
                assert(c == k as int);
                return Some(k);
            }
            k = k + 1;
        }
        None
    }

    /// Resolves an external identity.
    pub fn find_by_auth_id(&self, a: AuthId) -> (r: Option<User>)
        requires
            self.wf(),
        ensures
            r == self.by_auth(a),
    {
        match self.position_of_auth(a) {
            Some(k) => Some(self.users[k].copied()),
            None => None,
        }
    }

    /// Resolves an internal identity.
    pub fn find_by_id(&self, id: UserId) -> (r: Option<User>)
        requires
            self.wf(),
        ensures
            r == self.by_id(id),
    {
        match self.position_of_id(id) {
            Some(k) => Some(self.users[k].copied()),
            None => None,
        }
    }

    /// Registers a new user under a fresh internal id. Fails with
    /// `InvalidOperation` when the external id is taken, and with `Infra`
    /// when the id space is exhausted.
    pub fn create(&mut self, auth_id: AuthId, name: &str, email_address: &str, is_platform_admin: bool) -> (r: Result<User, ServiceError>)
        requires
            old(self).wf(),
        ensures
            final(self).wf(),
            match r {
                Ok(u) => {
                    &&& !old(self).has_auth(auth_id)
                    &&& old(self).next_id < u128::MAX
                    &&& !old(self).has_id(u.id)
                    &&& u.id.0 == old(self).next_id
                    &&& final(self).next_id == old(self).next_id + 1
                    &&& u.auth_id == auth_id && u.name@ == name@ && u.email_address@ == email_address@
                    &&& u.is_platform_admin == is_platform_admin
                    &&& final(self).users@ == old(self).users@.push(u)
                },
                Err(e) => {
                    &&& *final(self) == *old(self)
                    &&& e.kind == (if old(self).has_auth(auth_id) { ErrorKind::InvalidOperation } else { ErrorKind::Infra })
                    &&& (old(self).has_auth(auth_id) || old(self).next_id == u128::MAX)
                },
            },
    {
        if self.position_of_auth(auth_id).is_some() {
            return Err(ServiceError::new(ErrorKind::InvalidOperation, "auth id already registered"));
        }
        if self.next_id == u128::MAX {
            return Err(ServiceError::new(ErrorKind::Infra, "user id space exhausted"));
        }
        let u = User {
            id: UserId(self.next_id),
            auth_id,
            name: String::from_str(name),
            email_address: String::from_str(email_address),
            is_platform_admin,
        };
        self.users.push(u.copied());
        self.next_id = self.next_id + 1;
        Ok(u)
    }

    /// Sets the platform-admin flag of the user with external id `a`.
    pub fn update(&mut self, a: AuthId, is_platform_admin: bool) -> (r: Result<User, ServiceError>)
        requires
            old(self).wf(),
        ensures
            final(self).wf(),
            match r {
                Ok(u) => {
                    &&& old(self).has_auth(a)
                    &&& u == (User { is_platform_admin, ..old(self).by_auth(a).unwrap() })
                    &&& final(self).users@ == old(self).users@.update(old(self).auth_index(a), u)
                    &&& final(self).next_id == old(self).next_id
                },
                Err(e) => !old(self).has_auth(a) && e.kind == ErrorKind::NotFound && *final(self)
                    == *old(self),
            },
    {
        match self.position_of_auth(a) {
            None => Err(ServiceError::new(ErrorKind::NotFound, "user not found")),
            Some(k) => {
                let mut u = self.users[k].copied();
                u.is_platform_admin = is_platform_admin;
                self.users.set(k, u.copied());
                Ok(u)
            },
        }
    }
}

/// The message given to a user who is not a platform admin.
pub open spec fn not_platform_admin_message(a: AuthId) -> Seq<char> {
    framed("User with auth_id "@, hyphenated_text(a.0), " is not a platform admin."@)
}

/// User operations at the boundary, where identities arrive as text.
pub struct UsersMutation;

impl UsersMutation {
    /// Returns the user with the external id that `auth_id` denotes, creating
    /// it (not a platform admin) when it is absent.
    pub fn get_or_create_user(&self, users: &mut UserRepoImpl, auth_id: &str, name: &str, email_address: &str) -> (r: Result<User, ServiceError>)
        requires
            old(users).wf(),
        ensures
            final(users).wf(),
            parsed_uuid(auth_id@) is None ==> r is Err && r->Err_0.kind == ErrorKind::NotFound
                && *final(users) == *old(users),
            parsed_uuid(auth_id@) matches Some(v) ==> {
                let a = AuthId(v);
                if old(users).has_auth(a) {
                    r == Ok::<User, ServiceError>(old(users).by_auth(a).unwrap()) && *final(users) == *old(users)
                } else {
                    match r {
                        Ok(u) => u.auth_id == a && u.name@ == name@ && u.email_address@ == email_address@
                            && !u.is_platform_admin && final(users).users@ == old(users).users@.push(u),
                        Err(e) => e.kind == ErrorKind::Infra && old(users).next_id == u128::MAX
                            && *final(users) == *old(users),
                    }
                }
            },
    {
        let v = match parse_uuid(auth_id) {
            Some(v) => v,
            None => { return Err(ServiceError::new(ErrorKind::NotFound, "auth id is not a valid identifier")); },
        };
        let a = AuthId(v);
        match users.find_by_auth_id(a) {
            Some(u) => Ok(u),
            None => users.create(a, name, email_address, false),
        }
    }

    /// Sets the platform-admin flag of the user that `auth_id` denotes, on
    /// behalf of `requesting_user`, who must be a platform admin.
    pub fn update_user(&self, users: &mut UserRepoImpl, requesting_user: AuthId, auth_id: &str, is_platform_admin: bool) -> (r: Result<User, ServiceError>)
        requires
            old(users).wf(),
        ensures
            final(users).wf(),
            r is Err ==> *final(users) == *old(users),
            !old(users).has_auth(requesting_user) ==> r is Err && r->Err_0.kind == ErrorKind::NotFound,
            old(users).by_auth(requesting_user) matches Some(req) ==> {
                if !req.is_platform_admin {
                    r is Err && r->Err_0.kind == ErrorKind::Unauthorized
                        && r->Err_0.message@ == not_platform_admin_message(requesting_user)
                } else {
                    match parsed_uuid(auth_id@) {
                        None => r is Err && r->Err_0.kind == ErrorKind::NotFound,
                        Some(v) => match r {
                            Ok(u) => old(users).has_auth(AuthId(v)) && u == (User {
                                is_platform_admin,
                                ..old(users).by_auth(AuthId(v)).unwrap()
                            }) && final(users).users@ == old(users).users@.update(
                                old(users).auth_index(AuthId(v)),
                                u,
                            ),
                            Err(e) => !old(users).has_auth(AuthId(v)) && e.kind == ErrorKind::NotFound,
                        },
                    }
                }
            },
    {
        let req = match users.find_by_auth_id(requesting_user) {
            Some(u) => u,
            None => { return Err(ServiceError::new(ErrorKind::NotFound, "user not found")); },
        };
        if !req.is_platform_admin {
            let id_text = uuid_text(requesting_user.0);
            let message = frame("User with auth_id ", id_text.as_str(), " is not a platform admin.");
            return Err(ServiceError { kind: ErrorKind::Unauthorized, message });
        }
        let v = match parse_uuid(auth_id) {
            Some(v) => v,
            None => { return Err(ServiceError::new(ErrorKind::NotFound, "auth id is not a valid identifier")); },
        };
        users.update(AuthId(v), is_platform_admin)
    }
}

} // verus!
