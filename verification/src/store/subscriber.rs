use vstd::prelude::*;

use crate::store::group::{contains_name, group_named, GroupRecord, GroupStore};

verus! {

/// One membership record: `user_id` is the externally assigned identity,
/// `group_id` the id of the group it subscribes to. The group reference is
/// weak: nothing cascades when the group goes away. Timestamps are Unix
/// seconds, assigned by the store when the record is created.
#[derive(Debug)]
pub struct SubscriberRecord {
    pub id: i64,
    pub created_at: i64,
    pub updated_at: i64,
    pub user_id: i64,
    pub group_id: i64,
}

impl Clone for SubscriberRecord {
    fn clone(&self) -> (r: Self)
        ensures
            r == *self,
    {
        SubscriberRecord {
            id: self.id,
            created_at: self.created_at,
            updated_at: self.updated_at,
            user_id: self.user_id,
            group_id: self.group_id,
        }
    }
}

/// Membership in group `gid`.
pub open spec fn in_group(gid: i64) -> spec_fn(SubscriberRecord) -> bool {
    |x: SubscriberRecord| x.group_id == gid
}

/// A row linking `uid` to `gid`.
pub open spec fn links(uid: i64, gid: i64) -> spec_fn(SubscriberRecord) -> bool {
    |x: SubscriberRecord| x.user_id == uid && x.group_id == gid
}

/// The complement of [`links`]: rows a removal of the `(uid, gid)`
/// membership keeps.
pub open spec fn keeps(uid: i64, gid: i64) -> spec_fn(SubscriberRecord) -> bool {
    |x: SubscriberRecord| !(x.user_id == uid && x.group_id == gid)
}

/// The subscribers of group `gid`, in store order.
pub open spec fn subs_of_group(s: Seq<SubscriberRecord>, gid: i64) -> Seq<SubscriberRecord> {
    s.filter(in_group(gid))
}

/// The membership rows linking `uid` to `gid`, in store order. Duplicate
/// memberships are permitted, so this can hold more than one row.
pub open spec fn memberships(s: Seq<SubscriberRecord>, uid: i64, gid: i64) -> Seq<
    SubscriberRecord,
> {
    s.filter(links(uid, gid))
}

/// The store without any membership row linking `uid` to `gid`.
pub open spec fn without_memberships(s: Seq<SubscriberRecord>, uid: i64, gid: i64) -> Seq<
    SubscriberRecord,
> {
    s.filter(keeps(uid, gid))
}

/// Whether some row links `uid` to `gid`.
pub open spec fn has_membership(s: Seq<SubscriberRecord>, uid: i64, gid: i64) -> bool {
    exists|j: int| 0 <= j < s.len() && s[j].user_id == uid && s[j].group_id == gid
}

/// In-memory store owning the subscriber records.
///
/// It assigns each new record a fresh id below `next_id`. Uniqueness of
/// `(user_id, group_id)` pairs is deliberately not enforced.
pub struct SubscriberStore {
    pub subs: Vec<SubscriberRecord>,
    pub next_id: i64,
}

impl View for SubscriberStore {
    type V = Seq<SubscriberRecord>;

    open spec fn view(&self) -> Seq<SubscriberRecord> {
        self.subs@
    }
}

impl SubscriberStore {
    /// Every stored id was assigned from the counter and is thus below it.
    pub open spec fn ids_assigned(&self) -> bool {
        forall|i: int| 0 <= i < self@.len() ==> 0 <= #[trigger] self@[i].id < self.next_id
    }

    /// Structural invariant: ids come from the counter.
    pub open spec fn wf(&self) -> bool {
        &&& self.ids_assigned()
        &&& 0 <= self.next_id
    }

    /// Whether the id counter still has room for one more record.
    pub open spec fn can_assign_id(&self) -> bool {
        self.next_id < i64::MAX
    }

    pub fn new() -> (r: SubscriberStore)
        ensures
            r@ == Seq::<SubscriberRecord>::empty(),
            r.wf(),
            r.next_id == 1,
    {
        SubscriberStore { subs: Vec::new(), next_id: 1 }
    }

    /// Insert a membership row linking `user_id` to the given group; both
    /// timestamps are set to `now`.
    pub fn add_subscriber(&mut self, user_id: i64, group: &GroupRecord, now: i64) -> (s:
        SubscriberRecord)
        requires
            old(self).wf(),
            old(self).can_assign_id(),
        ensures
            final(self).wf(),
            s.id == old(self).next_id,
            s.user_id == user_id,
            s.group_id == group.id,
            s.created_at == now,
            s.updated_at == now,
            final(self)@ == old(self)@.push(s),
            final(self).next_id == old(self).next_id + 1,
    {
        let s = SubscriberRecord {
            id: self.next_id,
            created_at: now,
            updated_at: now,
            user_id,
            group_id: group.id,
        };
        let ghost srec = s;
        let out = s.clone();
        self.subs.push(s);
        self.next_id = self.next_id + 1;
        proof {
            let pre = old(self)@;
            assert forall|k: int| 0 <= k < self@.len() implies 0 <= #[trigger] self@[k].id
                < self.next_id by {
                if k < pre.len() {
                    assert(self@[k] == pre[k]);
                } else {
                    assert(self@[k] == srec);
                }
            }
        }
        out
    }

    /// Whether some row links `user_id` to `group_id`.
    pub fn member_of(&self, user_id: i64, group_id: i64) -> (r: bool)
        ensures
            r == has_membership(self@, user_id, group_id),
    {
        let n = self.subs.len();
        let mut i: usize = 0;
        while i < n
            invariant
                n == self@.len(),
                i <= n,
                forall|j: int|
                    0 <= j < i ==> !(self@[j].user_id == user_id && self@[j].group_id == group_id),
            decreases n - i,
        {
            if self.subs[i].user_id == user_id && self.subs[i].group_id == group_id {
                return true;
            }
            i += 1;
        }
        false
    }

    /// Remove every membership row linking `user_id` to the group named
    /// `group_name`, returning the first removed row. A name that does not
    /// resolve, like a membership that does not exist, is no error: the
    /// store is left unchanged and `None` comes back.
    pub fn remove_subscriber(
        &mut self,
        user_id: i64,
        group_name: &String,
        groups: &GroupStore,
    ) -> (r: Option<SubscriberRecord>)
        requires
            old(self).wf(),
            groups.wf(),
        ensures
            final(self).wf(),
            final(self).next_id == old(self).next_id,
            !contains_name(groups@, group_name@) ==> final(self)@ == old(self)@ && r is None,
            contains_name(groups@, group_name@) ==> {
                let gid = group_named(groups@, group_name@).id;
                &&& final(self)@ == without_memberships(old(self)@, user_id, gid)
                &&& match r {
                    Some(x) => memberships(old(self)@, user_id, gid).len() > 0 && x == memberships(
                        old(self)@,
                        user_id,
                        gid,
                    )[0],
                    None => memberships(old(self)@, user_id, gid).len() == 0,
                }
            },
    {
        let group = match groups.get_group(group_name) {
            Some(g) => g,
            None => {
                return None;
            },
        };
        let gid = group.id;
        let ghost pre = self@;
        let n = self.subs.len();
        let mut kept: Vec<SubscriberRecord> = Vec::new();
        let mut first: Option<SubscriberRecord> = None;
        let mut i: usize = 0;
        while i < n
            invariant
                *self == *old(self),
                self.wf(),
                pre == self@,
                n == pre.len(),
                i <= n,
                kept@ == pre.take(i as int).filter(keeps(user_id, gid)),
                forall|k: int| 0 <= k < kept@.len() ==> 0 <= #[trigger] kept@[k].id < self.next_id,
                match first {
                    Some(x) => pre.take(i as int).filter(links(user_id, gid)).len() > 0 && x
                        == pre.take(i as int).filter(links(user_id, gid))[0],
                    None => pre.take(i as int).filter(links(user_id, gid)).len() == 0,
                },
            decreases n - i,
        {
            proof {
                assert(pre.take(i + 1) =~= pre.take(i as int).push(pre[i as int]));
                pre.take(i as int).lemma_filter_push(pre[i as int], keeps(user_id, gid));
                pre.take(i as int).lemma_filter_push(pre[i as int], links(user_id, gid));
            }
            if self.subs[i].user_id == user_id && self.subs[i].group_id == gid {
                if first.is_none() {
                    first = Some(self.subs[i].clone());
                }
            } else {
                kept.push(self.subs[i].clone());
            }
            i += 1;
        }
        proof {
            assert(pre.take(n as int) =~= pre);
        }
        self.subs = kept;
        first
    }

    /// Every subscriber of the given group, in store order.
    pub fn list_subs_by_group(&self, group: &GroupRecord) -> (r: Vec<SubscriberRecord>)
        ensures
            r@ == subs_of_group(self@, group.id),
    {
        let gid = group.id;
        let n = self.subs.len();
        let mut out: Vec<SubscriberRecord> = Vec::new();
        let mut i: usize = 0;
        while i < n
            invariant
                n == self@.len(),
                i <= n,
                out@ == self@.take(i as int).filter(in_group(gid)),
            decreases n - i,
        {
            proof {
                assert(self@.take(i + 1) =~= self@.take(i as int).push(self@[i as int]));
                self@.take(i as int).lemma_filter_push(self@[i as int], in_group(gid));
            }
            if self.subs[i].group_id == gid {
                out.push(self.subs[i].clone());
            }
            i += 1;
        }
        proof {
            assert(self@.take(n as int) =~= self@);
        }
        out
    }
}

} // verus!
