use vstd::prelude::*;
use crate::dto::CreateUserResponseDto;
use crate::user::UserV;

verus! {

/// Session-local list of responses kept by the interactive driver for
/// its own listing; it is not the repository and is lost on exit.
pub struct AppStore {
    pub users: Vec<CreateUserResponseDto>,
}

impl AppStore {
    pub open spec fn view_users(&self) -> Seq<UserV> {
        self.users@.map_values(|u: CreateUserResponseDto| u@)
    }

    pub fn new() -> (r: Self)
        ensures
            r.view_users() == Seq::<UserV>::empty(),
    {
        AppStore { users: Vec::new() }
    }

    /// Appends one response to the session list.
    pub fn add_user(&mut self, user: CreateUserResponseDto)
        ensures
            final(self).view_users() == old(self).view_users().push(user@),
    {
        let ghost old_view = self.view_users();
        self.users.push(user);
        proof {
            assert(self.view_users() =~= old_view.push(self.users@.last()@));
        }
    }

    /// A copy of the session list, in insertion order.
    pub fn get_users(&self) -> (r: Vec<CreateUserResponseDto>)
        ensures
            r@.map_values(|u: CreateUserResponseDto| u@) == self.view_users(),
    {
        let mut out: Vec<CreateUserResponseDto> = Vec::new();
        let n = self.users.len();
        for i in 0..n
            invariant
                n == self.users.len(),
                out@.len() == i,
                forall|k: int| 0 <= k < i ==> out@[k]@ == #[trigger] self.users@[k]@,
        {
            out.push(self.users[i].clone());
        }
        proof {
            assert(out@.map_values(|u: CreateUserResponseDto| u@) =~= self.view_users());
        }
        out
    }
}

} // verus!
