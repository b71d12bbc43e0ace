use vstd::prelude::*;

use crate::error::NotificationError;
use crate::store::group::{contains_name, group_named, GroupStore};
use crate::store::subscriber::{
    subs_of_group, without_memberships, SubscriberRecord, SubscriberStore,
};

verus! {

/// Domain service for memberships. It owns the subscriber store and
/// enforces the one precondition of the domain: a membership may only ever
/// be created for a group that exists at creation time. The group store is
/// borrowed per call, mirroring the service's read-only dependency on it.
pub struct SubscriberService {
    pub store: SubscriberStore,
}

impl View for SubscriberService {
    type V = Seq<SubscriberRecord>;

    open spec fn view(&self) -> Seq<SubscriberRecord> {
        self.store@
    }
}

impl SubscriberService {
    /// Structural invariant, inherited from the store.
    pub open spec fn wf(&self) -> bool {
        self.store.wf()
    }

    /// Whether the underlying store still has room for one more record.
    pub open spec fn can_assign_id(&self) -> bool {
        self.store.can_assign_id()
    }

    pub fn new(store: SubscriberStore) -> (r: SubscriberService)
        ensures
            r.store == store,
    {
        SubscriberService { store }
    }

    /// Link `user_id` to the group named `group_name`.
    ///
    /// Fails with `ObjectConflict` exactly when no such group exists, in
    /// which case no row is created; otherwise one membership row pointing
    /// at the resolved group's id is appended, timestamped `now`. Duplicate
    /// memberships are not rejected.
    pub fn add_subscriber(
        &mut self,
        user_id: i64,
        group_name: String,
        groups: &GroupStore,
        now: i64,
    ) -> (r: Result<(), NotificationError>)
        requires
            old(self).wf(),
            old(self).can_assign_id(),
            groups.wf(),
        ensures
            final(self).wf(),
            match r {
                Ok(_) => {
                    &&& contains_name(groups@, group_name@)
                    &&& final(self).store.next_id == old(self).store.next_id + 1
                    &&& exists|s: SubscriberRecord|
                        #![trigger old(self)@.push(s)]
                        {
                            &&& final(self)@ == old(self)@.push(s)
                            &&& s.user_id == user_id
                            &&& s.group_id == group_named(groups@, group_name@).id
                            &&& s.created_at == now
                            &&& s.updated_at == now
                            &&& s.id == old(self).store.next_id
                        }
                },
                Err(e) => {
                    &&& !contains_name(groups@, group_name@)
                    &&& *final(self) == *old(self)
                    &&& e matches NotificationError::ObjectConflict(m) && m@
                        == "group name does not exist"@
                },
            },
    {
        match groups.get_group(&group_name) {
            Some(group) => {
                let s = self.store.add_subscriber(user_id, &group, now);
                proof {
                    assert(self@ == old(self)@.push(s));
                }
                Ok(())
            },
            None => Err(
                NotificationError::ObjectConflict("group name does not exist".to_owned()),
            ),
        }
    }

    /// Unlink `user_id` from the group named `group_name`.
    ///
    /// Idempotent in intent: a membership that does not exist, like a name
    /// that does not resolve, is no error — the operation succeeds and
    /// changes nothing.
    pub fn remove_subscriber(
        &mut self,
        user_id: i64,
        group_name: String,
        groups: &GroupStore,
    ) -> (r: Result<(), NotificationError>)
        requires
            old(self).wf(),
            groups.wf(),
        ensures
            final(self).wf(),
            final(self).store.next_id == old(self).store.next_id,
            r is Ok,
            !contains_name(groups@, group_name@) ==> final(self)@ == old(self)@,
            contains_name(groups@, group_name@) ==> final(self)@ == without_memberships(
                old(self)@,
                user_id,
                group_named(groups@, group_name@).id,
            ),
    {
        let _ = self.store.remove_subscriber(user_id, &group_name, groups);
        Ok(())
    }

    /// Every subscriber of the group named `group_name`, in store order.
    ///
    /// Fails with `ObjectConflict` exactly when no such group exists.
    pub fn list_subs_by_group(&self, group_name: String, groups: &GroupStore) -> (r: Result<
        Vec<SubscriberRecord>,
        NotificationError,
    >)
        requires
            groups.wf(),
        ensures
            match r {
                Ok(subs) => contains_name(groups@, group_name@) && subs@ == subs_of_group(
                    self@,
                    group_named(groups@, group_name@).id,
                ),
                Err(e) => {
                    &&& !contains_name(groups@, group_name@)
                    &&& e matches NotificationError::ObjectConflict(m) && m@
                        == "group name does not exist"@
                },
            },
    {
        match groups.get_group(&group_name) {
            Some(group) => Ok(self.store.list_subs_by_group(&group)),
            None => Err(
                NotificationError::ObjectConflict("group name does not exist".to_owned()),
            ),
        }
    }

}

} // verus!
