use vstd::prelude::*;
use crate::time::now_millis;
use crate::{clamp_ts, valid_ts};

verus! {

/// Mathematical value of a user record: plain field values, with the
/// timestamps as milliseconds since the Unix epoch.
pub struct UserV {
    pub id: u128,
    pub name: Seq<char>,
    pub email: Seq<char>,
    pub password: Seq<char>,
    pub address: Seq<char>,
    pub created_at: int,
    pub updated_at: int,
}

/// A well-formed record: both timestamps storable, and the record was
/// never updated before it was created.
pub open spec fn user_wf(u: UserV) -> bool {
    &&& valid_ts(u.created_at)
    &&& valid_ts(u.updated_at)
    &&& u.created_at <= u.updated_at
}

/// The values of a whole collection of records, in order.
pub open spec fn views_of(v: Seq<User>) -> Seq<UserV> {
    v.map_values(|u: User| u@)
}

/// Every record in the collection is well formed.
pub open spec fn users_wf(s: Seq<UserV>) -> bool {
    forall|k: int| 0 <= k < s.len() ==> user_wf(#[trigger] s[k])
}

/// The domain entity: identity, contact fields, and creation/update
/// timestamps. The identifier never changes after construction, and
/// `updated_at` never moves backwards.
pub struct User {
    pub id: u128,
    pub name: String,
    pub email: String,
    pub password: String,
    pub address: String,
    pub created_at: i64,
    pub updated_at: i64,
}

impl View for User {
    type V = UserV;

    open spec fn view(&self) -> UserV {
        UserV {
            id: self.id,
            name: self.name@,
            email: self.email@,
            password: self.password@,
            address: self.address@,
            created_at: self.created_at as int,
            updated_at: self.updated_at as int,
        }
    }
}

impl Clone for User {
    fn clone(&self) -> (r: Self)
        ensures
            r@ == self@,
    {
        User {
            id: self.id,
            name: self.name.clone(),
            email: self.email.clone(),
            password: self.password.clone(),
            address: self.address.clone(),
            created_at: self.created_at,
            updated_at: self.updated_at,
        }
    }
}

impl User {
    pub open spec fn wf(&self) -> bool {
        user_wf(self@)
    }

    /// Builds a record from an identifier and the caller's field values;
    /// both timestamps are set to the same clock reading.
    pub fn new(id: u128, name: String, email: String, password: String, address: String) -> (r: Self)
        ensures
            r.wf(),
            r@.id == id,
            r@.name == name@,
            r@.email == email@,
            r@.password == password@,
            r@.address == address@,
            r@.created_at == r@.updated_at,
    {
        let t = clamp_ts(now_millis());
        User { id, name, email, password, address, created_at: t, updated_at: t }
    }

    pub fn id(&self) -> (r: u128)
        ensures
            r == self@.id,
    {
        self.id
    }

    pub fn name(&self) -> (r: &str)
        ensures
            r@ == self@.name,
    {
        self.name.as_str()
    }

    pub fn email(&self) -> (r: &str)
        ensures
            r@ == self@.email,
    {
        self.email.as_str()
    }

    pub fn password(&self) -> (r: &str)
        ensures
            r@ == self@.password,
    {
        self.password.as_str()
    }

    pub fn address(&self) -> (r: &str)
        ensures
            r@ == self@.address,
    {
        self.address.as_str()
    }

    pub fn created_at(&self) -> (r: i64)
        ensures
            r == self@.created_at,
    {
        self.created_at
    }

    pub fn updated_at(&self) -> (r: i64)
        ensures
            r == self@.updated_at,
    {
        self.updated_at
    }

    /// Replaces the email and refreshes `updated_at`, which never moves
    /// backwards; every other field, `created_at` included, is kept.
    pub fn update_email(&mut self, new_email: String)
        requires
            old(self).wf(),
        ensures
            final(self).wf(),
            final(self)@.email == new_email@,
            final(self)@.id == old(self)@.id,
            final(self)@.name == old(self)@.name,
            final(self)@.password == old(self)@.password,
            final(self)@.address == old(self)@.address,
            final(self)@.created_at == old(self)@.created_at,
            final(self)@.updated_at >= old(self)@.updated_at,
    {
        self.email = new_email;
        self.refresh_updated_at();
    }

    /// Replaces the address and refreshes `updated_at`, which never moves
    /// backwards; every other field, `created_at` included, is kept.
    pub fn update_address(&mut self, new_address: String)
        requires
            old(self).wf(),
        ensures
            final(self).wf(),
            final(self)@.address == new_address@,
            final(self)@.id == old(self)@.id,
            final(self)@.name == old(self)@.name,
            final(self)@.email == old(self)@.email,
            final(self)@.password == old(self)@.password,
            final(self)@.created_at == old(self)@.created_at,
            final(self)@.updated_at >= old(self)@.updated_at,
    {
        self.address = new_address;
        self.refresh_updated_at();
    }

    /// Moves `updated_at` forward to the clock if the clock is ahead.
    fn refresh_updated_at(&mut self)
        requires
            old(self).wf(),
        ensures
            final(self).wf(),
            final(self)@.id == old(self)@.id,
            final(self)@.name == old(self)@.name,
            final(self)@.email == old(self)@.email,
            final(self)@.password == old(self)@.password,
            final(self)@.address == old(self)@.address,
            final(self)@.created_at == old(self)@.created_at,
            final(self)@.updated_at >= old(self)@.updated_at,
    {
        let t = clamp_ts(now_millis());
        if t > self.updated_at {
            self.updated_at = t;
        }
    }
}

} // verus!
