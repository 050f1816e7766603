use vstd::prelude::*;
use crate::repository::{find_user, UserRepositoryInterface};
use crate::user::User;

verus! {

/// Front end over the repository: stores a caller-supplied record as it
/// arrives (identifier included, none is generated), and looks records
/// up by identifier. How requests and responses are carried on the wire
/// is the caller's business.
pub struct UserController<T: UserRepositoryInterface> {
    pub user_repository: T,
}

impl<T: UserRepositoryInterface> UserController<T> {
    pub fn new(user_repository: T) -> (r: Self)
        ensures
            r.user_repository == user_repository,
    {
        UserController { user_repository }
    }

    /// Appends the caller's record unchanged and echoes it back.
    pub fn add(&mut self, user: User) -> (r: User)
        requires
            old(self).user_repository.inv(),
            user.wf(),
        ensures
            final(self).user_repository.inv(),
            final(self).user_repository.users() == old(self).user_repository.users().push(user@),
            r@ == user@,
    {
        self.user_repository.create(user)
    }

    /// The first stored record with the identifier, if any; the caller
    /// renders the absent case as its not-found answer.
    pub fn find_by_id(&self, id: u128) -> (r: Option<User>)
        ensures
            (match r {
                Some(u) => find_user(self.user_repository.users(), id) == Some(u@),
                None => find_user(self.user_repository.users(), id) is None,
            }),
    {
        self.user_repository.find_by_id(id)
    }
}

} // verus!
