use vstd::prelude::*;
use std::collections::HashMap;
use crate::text::str_eq;

verus! {

broadcast use vstd::std_specs::hash::group_hash_axioms;

/// One registered user of the directory.
#[derive(Debug, PartialEq, Eq)]
pub struct User {
    pub id: u32,
    pub first_name: String,
    pub last_name: String,
}

impl Clone for User {
    fn clone(&self) -> (r: Self)
        ensures
            r == *self,
    {
        User {
            id: self.id,
            first_name: self.first_name.clone(),
            last_name: self.last_name.clone(),
        }
    }
}

/// A user's names match the given pair.
pub open spec fn name_matches(u: User, first: Seq<char>, last: Seq<char>) -> bool {
    u.first_name@ == first && u.last_name@ == last
}

/// The directory's users listed by ascending id, considering every id
/// below `next`.
pub open spec fn users_in_order(m: Map<u32, User>, next: int) -> Seq<User>
    decreases next,
{
    if next <= 1 {
        Seq::empty()
    } else {
        users_in_order(m, next - 1) + if m.contains_key((next - 1) as u32) {
            seq![m[(next - 1) as u32]]
        } else {
            Seq::empty()
        }
    }
}

/// In-memory user directory: ids are handed out in registration order,
/// starting at 1.
pub struct UserStore {
    pub users: HashMap<u32, User>,
    pub next_id: u32,
}

impl UserStore {
    /// Every stored id was handed out: at least 1 and below the next
    /// free id, and every stored user carries its own key as id.
    pub open spec fn wf(&self) -> bool {
        &&& self.next_id >= 1
        &&& forall|k: u32|
            #[trigger] self.users@.contains_key(k) ==> 1 <= k < self.next_id
                && self.users@[k].id == k
    }

    /// An empty directory; the first user will get id 1.
    pub fn new() -> (s: Self)
        ensures
            s.wf(),
            s.users@ == Map::<u32, User>::empty(),
            s.next_id == 1,
    {
        UserStore { users: HashMap::new(), next_id: 1 }
    }

    /// Registers a user under the next free id and returns the stored
    /// record.
    pub fn add_user(&mut self, first_name: &str, last_name: &str) -> (r: User)
        requires
            old(self).wf(),
            old(self).next_id < u32::MAX,
        ensures
            final(self).wf(),
            r.id == old(self).next_id,
            r.first_name@ == first_name@,
            r.last_name@ == last_name@,
            final(self).users@ == old(self).users@.insert(old(self).next_id, r),
            final(self).next_id == old(self).next_id + 1,
    {
        let user = User {
            id: self.next_id,
            first_name: first_name.to_owned(),
            last_name: last_name.to_owned(),
        };
        let result = user.clone();
        self.users.insert(self.next_id, user);
        self.next_id = self.next_id + 1;
        proof {
            assert forall|k: u32| #[trigger]
                self.users@.contains_key(k) implies 1 <= k < self.next_id && self.users@[k].id
                == k by {
                if k != old(self).next_id {
                    assert(old(self).users@.contains_key(k));
                    assert(self.users@[k] == old(self).users@[k]);
                }
            }
        }
        result
    }

    /// Looks a user up by id.
    pub fn get_user_by_id(&self, user_id: u32) -> (r: Option<User>)
        ensures
            match r {
                Some(u) => self.users@.contains_key(user_id) && u == self.users@[user_id],
                None => !self.users@.contains_key(user_id),
            },
    {
        match self.users.get(&user_id) {
            Some(u) => Some(u.clone()),
            None => None,
        }
    }

    /// Every registered user, by ascending id.
    pub fn get_all_users(&self) -> (r: Vec<User>)
        requires
            self.wf(),
        ensures
            r@ == users_in_order(self.users@, self.next_id as int),
    {
        let mut out: Vec<User> = Vec::new();
        let mut id: u32 = 1;
        while id < self.next_id
            invariant
                1 <= id <= self.next_id,
                out@ == users_in_order(self.users@, id as int),
            decreases self.next_id - id,
        {
            match self.users.get(&id) {
                Some(u) => {
                    out.push(u.clone());
                    proof {
                        assert(out@ =~= users_in_order(self.users@, id as int + 1));
                    }
                },
                None => {
                    proof {
                        assert(out@ =~= users_in_order(self.users@, id as int + 1));
                    }
                },
            }
            id = id + 1;
        }
        out
    }

    /// Finds a registered user by exact first and last name, if any
    /// matches; among several matches the one registered earliest wins.
    pub fn login_user(&self, first_name: &str, last_name: &str) -> (r: Option<User>)
        requires
            self.wf(),
        ensures
            match r {
                Some(u) => {
                    &&& self.users@.contains_key(u.id)
                    &&& self.users@[u.id] == u
                    &&& name_matches(u, first_name@, last_name@)
                },
                None => forall|k: u32|
                    self.users@.contains_key(k) ==> !name_matches(
                        #[trigger] self.users@[k],
                        first_name@,
                        last_name@,
                    ),
            },
    {
        let mut id: u32 = 1;
        while id < self.next_id
            invariant
                1 <= id <= self.next_id,
                self.wf(),
                forall|k: u32|
                    k < id && self.users@.contains_key(k) ==> !name_matches(
                        #[trigger] self.users@[k],
                        first_name@,
                        last_name@,
                    ),
            decreases self.next_id - id,
        {
            match self.users.get(&id) {
                Some(u) => {
                    if str_eq(u.first_name.as_str(), first_name) && str_eq(
                        u.last_name.as_str(),
                        last_name,
                    ) {
                        return Some(u.clone());
                    }
                },
                None => {},
            }
            id = id + 1;
        }
        None
    }
}

} // verus!
