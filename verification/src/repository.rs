use vstd::prelude::*;
use crate::codec::{decode_users, enc_users, encode_users};
use crate::user::{User, UserV, users_wf, views_of};

verus! {

/// Position of the first record in `s` whose identifier is `id`,
/// or -1 when no record has it.
pub open spec fn first_index_of(s: Seq<UserV>, id: u128) -> int
    decreases s.len(),
{
    if s.len() == 0 {
        -1
    } else if s[0].id == id {
        0
    } else {
        let r = first_index_of(s.skip(1), id);
        if r < 0 {
            -1
        } else {
            r + 1
        }
    }
}

/// What a lookup by identifier returns: the first record with that
/// identifier, if any.
pub open spec fn find_user(s: Seq<UserV>, id: u128) -> Option<UserV> {
    let i = first_index_of(s, id);
    if i < 0 {
        None
    } else {
        Some(s[i])
    }
}

/// What an update leaves behind: the first record with the argument's
/// identifier is replaced whole; without a match the collection is kept.
pub open spec fn update_seq(s: Seq<UserV>, u: UserV) -> Seq<UserV> {
    let i = first_index_of(s, u.id);
    if i < 0 {
        s
    } else {
        s.update(i, u)
    }
}

/// `first_index_of` points at the first match, and is -1 only when
/// nothing matches.
pub proof fn lemma_first_index_of(s: Seq<UserV>, id: u128)
    ensures
        first_index_of(s, id) < 0 ==> forall|k: int| 0 <= k < s.len() ==> s[k].id != id,
        first_index_of(s, id) >= 0 ==> {
            let i = first_index_of(s, id);
            &&& 0 <= i < s.len()
            &&& s[i].id == id
            &&& forall|k: int| 0 <= k < i ==> s[k].id != id
        },
    decreases s.len(),
{
    if s.len() > 0 && s[0].id != id {
        lemma_first_index_of(s.skip(1), id);
        assert forall|k: int| 0 <= k < s.len() && first_index_of(s, id) < 0 implies s[k].id != id by {
            if k > 0 {
                assert(s.skip(1)[k - 1] == s[k]);
            }
        }
        let i = first_index_of(s, id);
        if i >= 0 {
            assert(s.skip(1)[i - 1] == s[i]);
            assert forall|k: int| 0 <= k < i implies s[k].id != id by {
                if k > 0 {
                    assert(s.skip(1)[k - 1] == s[k]);
                }
            }
        }
    }
}

/// The converse: a position that matches, with no match before it,
/// is the one `first_index_of` picks.
pub proof fn lemma_first_index_at(s: Seq<UserV>, id: u128, i: int)
    requires
        0 <= i < s.len(),
        s[i].id == id,
        forall|k: int| 0 <= k < i ==> s[k].id != id,
    ensures
        first_index_of(s, id) == i,
{
    lemma_first_index_of(s, id);
    let j = first_index_of(s, id);
    if j < 0 {
    } else if j < i {
    } else if j > i {
    }
}

/// Every record still has no match when nothing matched before:
/// `first_index_of` on a collection with no match stays -1.
pub proof fn lemma_first_index_none(s: Seq<UserV>, id: u128)
    requires
        forall|k: int| 0 <= k < s.len() ==> s[k].id != id,
    ensures
        first_index_of(s, id) < 0,
{
    lemma_first_index_of(s, id);
}

/// After appending a record whose identifier is fresh, a lookup by that
/// identifier returns exactly the appended record.
pub proof fn lemma_create_then_find(s: Seq<UserV>, u: UserV)
    requires
        forall|k: int| 0 <= k < s.len() ==> s[k].id != u.id,
    ensures
        find_user(s.push(u), u.id) == Some(u),
{
    assert forall|k: int| 0 <= k < s.len() as int implies s.push(u)[k].id != u.id by {
        assert(s.push(u)[k] == s[k]);
    }
    lemma_first_index_at(s.push(u), u.id, s.len() as int);
}

/// After replacing the record that holds an identifier, a lookup by that
/// identifier returns exactly the replacement: full-replacement semantics.
pub proof fn lemma_update_then_find(s: Seq<UserV>, u: UserV)
    requires
        find_user(s, u.id) is Some,
    ensures
        find_user(update_seq(s, u), u.id) == Some(u),
{
    lemma_first_index_of(s, u.id);
    let i = first_index_of(s, u.id);
    let s2 = s.update(i, u);
    assert forall|k: int| 0 <= k < i implies s2[k].id != u.id by {
        assert(s2[k] == s[k]);
    }
    lemma_first_index_at(s2, u.id, i);
}

/// An update whose identifier matches no record leaves the collection
/// unchanged in content.
pub proof fn lemma_update_absent(s: Seq<UserV>, u: UserV)
    requires
        forall|k: int| 0 <= k < s.len() ==> s[k].id != u.id,
    ensures
        update_seq(s, u) == s,
{
    lemma_first_index_none(s, u.id);
}

/// Capability that stores and retrieves user records. A lookup scans for
/// the first record with the identifier; an update replaces that record
/// whole, and is a no-op when nothing matches.
pub trait UserRepositoryInterface: Sized {
    spec fn users(&self) -> Seq<UserV>;

    spec fn inv(&self) -> bool;

    fn create(&mut self, user: User) -> (r: User)
        requires
            old(self).inv(),
            user.wf(),
        ensures
            final(self).inv(),
            final(self).users() == old(self).users().push(user@),
            r@ == user@,
    ;

    fn find_by_id(&self, id: u128) -> (r: Option<User>)
        ensures
            (match r {
                Some(u) => find_user(self.users(), id) == Some(u@),
                None => find_user(self.users(), id) is None,
            }),
    ;

    fn update(&mut self, user: User) -> (r: User)
        requires
            old(self).inv(),
            user.wf(),
        ensures
            final(self).inv(),
            final(self).users() == update_seq(old(self).users(), user@),
            r@ == user@,
    ;
}

/// The in-memory user collection that is mirrored to a JSON file; the
/// file itself is read and written by the caller, which hands the text
/// to `load_users` and takes it from `save_users`.
pub struct JsonUserRepository {
    pub users: Vec<User>,
}

impl JsonUserRepository {
    /// The repository over an empty backing file.
    pub fn new() -> (r: Self)
        ensures
            r.inv(),
            r.users() == Seq::<UserV>::empty(),
    {
        JsonUserRepository { users: Vec::new() }
    }

    /// Rebuilds the collection from the backing file's text. Text this
    /// repository saved reads back as the collection it saved; empty or
    /// malformed text yields the empty collection, never an error.
    pub fn load_users(content: &str) -> (r: Vec<User>)
        ensures
            users_wf(views_of(r@)),
            forall|vs: Seq<UserV>|
                users_wf(vs) && content@ == #[trigger] enc_users(vs) ==> views_of(r@) == vs,
            content@.len() == 0 ==> r@.len() == 0,
    {
        match decode_users(content) {
            Some(v) => v,
            None => Vec::new(),
        }
    }

    /// The repository over the backing file's text, as `load_users`
    /// reads it.
    pub fn load(content: &str) -> (r: Self)
        ensures
            r.inv(),
            forall|vs: Seq<UserV>|
                users_wf(vs) && content@ == #[trigger] enc_users(vs) ==> r.users() == vs,
            content@.len() == 0 ==> r.users() == Seq::<UserV>::empty(),
    {
        let users = Self::load_users(content);
        proof {
            if users@.len() == 0 {
                assert(views_of(users@) =~= Seq::<UserV>::empty());
            }
        }
        JsonUserRepository { users }
    }

    /// Renders the whole collection as the backing file's text, a JSON
    /// array with one object per record; the caller writes it out.
    pub fn save_users(&self) -> (r: String)
        requires
            self.inv(),
        ensures
            r@ == enc_users(self.users()),
    {
        encode_users(&self.users)
    }
}

impl UserRepositoryInterface for JsonUserRepository {
    open spec fn users(&self) -> Seq<UserV> {
        views_of(self.users@)
    }

    open spec fn inv(&self) -> bool {
        users_wf(self.users())
    }

    fn create(&mut self, user: User) -> (r: User) {
        let u2 = user.clone();
        self.users.push(user);
        proof {
            assert(self.users() =~= old(self).users().push(u2@));
        }
        u2
    }

    fn find_by_id(&self, id: u128) -> (r: Option<User>) {
        let ghost s = self.users();
        let n = self.users.len();
        for i in 0..n
            invariant
                n == self.users.len(),
                s == self.users(),
                forall|k: int| 0 <= k < i ==> s[k].id != id,
        {
            if self.users[i].id == id {
                proof {
                    lemma_first_index_at(s, id, i as int);
                }
                return Some(self.users[i].clone());
            }
        }
        proof {
            lemma_first_index_none(s, id);
        }
        None
    }

    fn update(&mut self, user: User) -> (r: User) {
        let ghost s = old(self).users();
        let n = self.users.len();
        for i in 0..n
            invariant
                n == self.users.len(),
                s == self.users(),
                old(self).inv(),
                s == old(self).users(),
                user.wf(),
                forall|k: int| 0 <= k < i ==> s[k].id != user@.id,
        {
            if self.users[i].id == user.id {
                let u2 = user.clone();
                self.users.set(i, user);
                proof {
                    lemma_first_index_at(s, u2@.id, i as int);
                    assert(self.users() =~= update_seq(s, u2@));
                }
                return u2;
            }
        }
        proof {
            lemma_first_index_none(s, user@.id);
        }
        user
    }
}

} // verus!
