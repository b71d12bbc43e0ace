use vstd::prelude::*;

use crate::store::subscriber::{has_membership, SubscriberRecord, SubscriberStore};

verus! {

/// One subscription group.
///
/// `name` is the unique, case-sensitive key. `admin_email` and `token` form
/// the administrative credential: the e-mail scopes deletion, the token is
/// matched byte for byte by the authorization check. Timestamps are Unix
/// seconds, assigned by the store when the record is created.
#[derive(Debug)]
pub struct GroupRecord {
    pub id: i64,
    pub created_at: i64,
    pub updated_at: i64,
    pub name: String,
    pub admin_email: String,
    pub token: String,
}

impl Clone for GroupRecord {
    fn clone(&self) -> (r: Self)
        ensures
            r == *self,
    {
        GroupRecord {
            id: self.id,
            created_at: self.created_at,
            updated_at: self.updated_at,
            name: self.name.clone(),
            admin_email: self.admin_email.clone(),
            token: self.token.clone(),
        }
    }
}

/// Whether some group in `s` is named `name`.
pub open spec fn contains_name(s: Seq<GroupRecord>, name: Seq<char>) -> bool {
    exists|i: int| 0 <= i < s.len() && s[i].name@ == name
}

/// The index of the group named `name` (meaningful when `contains_name`
/// holds; under `unique_names` it is the only such index).
pub open spec fn name_index(s: Seq<GroupRecord>, name: Seq<char>) -> int {
    choose|i: int| 0 <= i < s.len() && s[i].name@ == name
}

/// The group named `name` (meaningful when `contains_name` holds).
pub open spec fn group_named(s: Seq<GroupRecord>, name: Seq<char>) -> GroupRecord {
    s[name_index(s, name)]
}

/// Whether some group in `s` is named `name` and carries `email` as its
/// administrative e-mail: the condition under which a credential-scoped
/// deletion succeeds.
pub open spec fn contains_cred(s: Seq<GroupRecord>, name: Seq<char>, email: Seq<char>) -> bool {
    exists|i: int| 0 <= i < s.len() && s[i].name@ == name && s[i].admin_email@ == email
}

/// The index of the group matching both `name` and `email` (meaningful when
/// `contains_cred` holds).
pub open spec fn cred_index(s: Seq<GroupRecord>, name: Seq<char>, email: Seq<char>) -> int {
    choose|i: int| 0 <= i < s.len() && s[i].name@ == name && s[i].admin_email@ == email
}

/// Groups that `uid` holds a membership row for.
pub open spec fn subscribed(ss: Seq<SubscriberRecord>, uid: i64) -> spec_fn(GroupRecord) -> bool {
    |g: GroupRecord| has_membership(ss, uid, g.id)
}

/// Every group some subscriber row links `uid` to, in store order. A group
/// appears once however many duplicate membership rows exist.
pub open spec fn groups_of_sub(
    gs: Seq<GroupRecord>,
    ss: Seq<SubscriberRecord>,
    uid: i64,
) -> Seq<GroupRecord> {
    gs.filter(subscribed(ss, uid))
}

/// At most one group per distinct name.
pub open spec fn unique_names(s: Seq<GroupRecord>) -> bool {
    forall|i: int, j: int|
        0 <= i < s.len() && 0 <= j < s.len() && i != j ==> s[i].name@ != s[j].name@
}

/// In-memory store owning the group records.
///
/// It keeps the name-uniqueness invariant and assigns each new record a
/// fresh id below `next_id`.
pub struct GroupStore {
    pub groups: Vec<GroupRecord>,
    pub next_id: i64,
}

impl View for GroupStore {
    type V = Seq<GroupRecord>;

    open spec fn view(&self) -> Seq<GroupRecord> {
        self.groups@
    }
}

impl GroupStore {
    /// Every stored id was assigned from the counter and is thus below it.
    pub open spec fn ids_assigned(&self) -> bool {
        forall|i: int| 0 <= i < self@.len() ==> 0 <= #[trigger] self@[i].id < self.next_id
    }

    /// Structural invariant: names are unique and ids come from the counter.
    pub open spec fn wf(&self) -> bool {
        &&& unique_names(self@)
        &&& self.ids_assigned()
        &&& 0 <= self.next_id
    }

    /// Whether the id counter still has room for one more record.
    pub open spec fn can_assign_id(&self) -> bool {
        self.next_id < i64::MAX
    }

    pub fn new() -> (r: GroupStore)
        ensures
            r@ == Seq::<GroupRecord>::empty(),
            r.wf(),
            r.next_id == 1,
    {
        GroupStore { groups: Vec::new(), next_id: 1 }
    }

    /// Fetch the group named `name`, if any.
    pub fn get_group(&self, name: &String) -> (r: Option<GroupRecord>)
        requires
            self.wf(),
        ensures
            match r {
                Some(g) => {
                    &&& contains_name(self@, name@)
                    &&& g == group_named(self@, name@)
                    &&& g.name@ == name@
                },
                None => !contains_name(self@, name@),
            },
    {
        let n = self.groups.len();
        let mut i: usize = 0;
        while i < n
            invariant
                self.wf(),
                n == self@.len(),
                i <= n,
                forall|j: int| 0 <= j < i ==> self@[j].name@ != name@,
            decreases n - i,
        {
            if self.groups[i].name == *name {
                let g = self.groups[i].clone();
                assert(contains_name(self@, name@));
                return Some(g);
            }
            i += 1;
        }
        None
    }

    /// Create a group named `name` with the given credential; both
    /// timestamps are set to `now`. Callers must have ruled the name out of
    /// the store first: the uniqueness invariant is the store's to keep.
    pub fn add_group(
        &mut self,
        name: &String,
        admin_email: &String,
        token: &String,
        now: i64,
    ) -> (g: GroupRecord)
        requires
            old(self).wf(),
            old(self).can_assign_id(),
            !contains_name(old(self)@, name@),
        ensures
            final(self).wf(),
            g.id == old(self).next_id,
            g.name == *name,
            g.admin_email == *admin_email,
            g.token == *token,
            g.created_at == now,
            g.updated_at == now,
            final(self)@ == old(self)@.push(g),
            final(self).next_id == old(self).next_id + 1,
    {
        let g = GroupRecord {
            id: self.next_id,
            created_at: now,
            updated_at: now,
            name: name.clone(),
            admin_email: admin_email.clone(),
            token: token.clone(),
        };
        let out = g.clone();
        self.groups.push(g);
        self.next_id = self.next_id + 1;
        out
    }

    /// Delete the group named `name`, scoped by its administrative e-mail:
    /// a record is removed only when both match, and the removed snapshot is
    /// returned. A name that is absent, or whose stored e-mail differs,
    /// leaves the store unchanged and yields `None`.
    pub fn remove_group(&mut self, name: &String, admin_email: &String) -> (r: Option<
        GroupRecord,
    >)
        requires
            old(self).wf(),
        ensures
            final(self).wf(),
            final(self).next_id == old(self).next_id,
            match r {
                Some(g) => {
                    &&& contains_cred(old(self)@, name@, admin_email@)
                    &&& g == old(self)@[cred_index(old(self)@, name@, admin_email@)]
                    &&& g.name@ == name@
                    &&& g.admin_email@ == admin_email@
                    &&& final(self)@ == old(self)@.remove(
                        cred_index(old(self)@, name@, admin_email@),
                    )
                },
                None => {
                    &&& !contains_cred(old(self)@, name@, admin_email@)
                    &&& *final(self) == *old(self)
                },
            },
    {
        let n = self.groups.len();
        let mut i: usize = 0;
        while i < n
            invariant
                *self == *old(self),
                self.wf(),
                n == self@.len(),
                i <= n,
                forall|j: int|
                    0 <= j < i ==> !(self@[j].name@ == name@ && self@[j].admin_email@
                        == admin_email@),
            decreases n - i,
        {
            if self.groups[i].name == *name && self.groups[i].admin_email == *admin_email {
                let ghost pre = self@;
                assert(contains_cred(pre, name@, admin_email@));
                let g = self.groups.remove(i);
                proof {
                    let k = cred_index(pre, name@, admin_email@);
                    assert(pre[k].name@ == name@);
                    assert(k == i);
                    pre.remove_ensures(i as int);
                    assert(unique_names(self@));
                    assert(self.ids_assigned());
                }
                return Some(g);
            }
            i += 1;
        }
        None
    }

    /// Every group that an active subscriber row links `user_id` to, in
    /// store order.
    pub fn list_groups_by_sub(&self, user_id: i64, subs: &SubscriberStore) -> (r: Vec<GroupRecord>)
        ensures
            r@ == groups_of_sub(self@, subs@, user_id),
    {
        let n = self.groups.len();
        let mut out: Vec<GroupRecord> = Vec::new();
        let mut i: usize = 0;
        while i < n
            invariant
                n == self@.len(),
                i <= n,
                out@ == self@.take(i as int).filter(subscribed(subs@, user_id)),
            decreases n - i,
        {
            proof {
                assert(self@.take(i + 1) =~= self@.take(i as int).push(self@[i as int]));
                self@.take(i as int).lemma_filter_push(self@[i as int], subscribed(subs@, user_id));
            }
            if subs.member_of(user_id, self.groups[i].id) {
                out.push(self.groups[i].clone());
            }
            i += 1;
        }
        proof {
            assert(self@.take(n as int) =~= self@);
        }
        out
    }
}

} // verus!
