use vstd::prelude::*;

use crate::error::NotificationError;
use crate::store::group::{
    contains_cred, contains_name, cred_index, group_named, groups_of_sub, GroupRecord, GroupStore,
};
use crate::store::subscriber::SubscriberStore;

verus! {

/// Domain service for groups. It owns the group store and adds the domain
/// rules on top of it: a name can be taken at most once, deletion is scoped
/// by the administrative e-mail, and the stored token is the authorization
/// primitive offered to callers.
pub struct GroupService {
    pub store: GroupStore,
}

impl View for GroupService {
    type V = Seq<GroupRecord>;

    open spec fn view(&self) -> Seq<GroupRecord> {
        self.store@
    }
}

impl GroupService {
    /// Structural invariant, inherited from the store.
    pub open spec fn wf(&self) -> bool {
        self.store.wf()
    }

    /// Whether the underlying store still has room for one more record.
    pub open spec fn can_assign_id(&self) -> bool {
        self.store.can_assign_id()
    }

    pub fn new(store: GroupStore) -> (r: GroupService)
        ensures
            r.store == store,
    {
        GroupService { store }
    }

    /// Create a group named `name` with the given credential.
    ///
    /// Fails with `ObjectConflict` exactly when a group with that name
    /// already exists, in which case nothing changes; otherwise one new
    /// record carrying the arguments is appended, timestamped `now`.
    pub fn add_group(
        &mut self,
        name: String,
        admin_email: String,
        token: String,
        now: i64,
    ) -> (r: Result<(), NotificationError>)
        requires
            old(self).wf(),
            old(self).can_assign_id(),
        ensures
            final(self).wf(),
            match r {
                Ok(_) => {
                    &&& !contains_name(old(self)@, name@)
                    &&& contains_name(final(self)@, name@)
                    &&& final(self).store.next_id == old(self).store.next_id + 1
                    &&& exists|g: GroupRecord|
                        #![trigger old(self)@.push(g)]
                        {
                            &&& final(self)@ == old(self)@.push(g)
                            &&& g.name@ == name@
                            &&& g.admin_email@ == admin_email@
                            &&& g.token@ == token@
                            &&& g.created_at == now
                            &&& g.updated_at == now
                            &&& g.id == old(self).store.next_id
                        }
                },
                Err(e) => {
                    &&& contains_name(old(self)@, name@)
                    &&& *final(self) == *old(self)
                    &&& e matches NotificationError::ObjectConflict(m) && m@
                        == "group name is taken"@
                },
            },
    {
        let existing_group = self.store.get_group(&name);
        if existing_group.is_some() {
            return Err(NotificationError::ObjectConflict("group name is taken".to_owned()));
        }
        let g = self.store.add_group(&name, &admin_email, &token, now);
        proof {
            assert(self@ == old(self)@.push(g));
            assert(self@[old(self)@.len() as int].name@ == name@);
        }
        Ok(())
    }

    /// Delete the group named `name`, presenting `admin_email` as the
    /// credential, and return the removed snapshot.
    ///
    /// A name that does not exist and a name whose stored e-mail differs
    /// from the presented one are deliberately indistinguishable: both
    /// leave the store unchanged and fail with the same `ObjectConflict`.
    pub fn remove_group(&mut self, name: String, admin_email: String) -> (r: Result<
        Option<GroupRecord>,
        NotificationError,
    >)
        requires
            old(self).wf(),
        ensures
            final(self).wf(),
            final(self).store.next_id == old(self).store.next_id,
            match r {
                Ok(opt) => {
                    &&& contains_cred(old(self)@, name@, admin_email@)
                    &&& opt matches Some(g) && g == old(self)@[cred_index(
                        old(self)@,
                        name@,
                        admin_email@,
                    )] && g.name@ == name@ && g.admin_email@ == admin_email@
                    &&& final(self)@ == old(self)@.remove(
                        cred_index(old(self)@, name@, admin_email@),
                    )
                },
                Err(e) => {
                    &&& !contains_cred(old(self)@, name@, admin_email@)
                    &&& *final(self) == *old(self)
                    &&& e matches NotificationError::ObjectConflict(m) && m@
                        == "group does not exist"@
                },
            },
    {
        let existing_group = self.store.get_group(&name);
        if existing_group.is_none() {
            proof {
                if contains_cred(self@, name@, admin_email@) {
                    let i = cred_index(self@, name@, admin_email@);
                    assert(self@[i].name@ == name@);
                    assert(contains_name(self@, name@));
                }
            }
            return Err(NotificationError::ObjectConflict("group does not exist".to_owned()));
        }
        match self.store.remove_group(&name, &admin_email) {
            Some(g) => Ok(Some(g)),
            None => Err(NotificationError::ObjectConflict("group does not exist".to_owned())),
        }
    }

    /// Every group that `user_id` has an active membership row for.
    /// Read-only; an empty result is valid and no error.
    pub fn list_groups_by_sub(&self, user_id: i64, subs: &SubscriberStore) -> (r: Result<
        Vec<GroupRecord>,
        NotificationError,
    >)
        ensures
            r matches Ok(groups) && groups@ == groups_of_sub(self@, subs@, user_id),
    {
        Ok(self.store.list_groups_by_sub(user_id, subs))
    }

    /// Whether `token` matches, byte for byte, the token stored for the
    /// group named `name`. Fails with `NotFound` exactly when no such
    /// group exists.
    pub fn verify_token(&self, name: String, token: String) -> (r: Result<
        bool,
        NotificationError,
    >)
        requires
            self.wf(),
        ensures
            match r {
                Ok(b) => contains_name(self@, name@) && b == (group_named(self@, name@).token@
                    == token@),
                Err(e) => {
                    &&& !contains_name(self@, name@)
                    &&& e matches NotificationError::NotFound(m) && m@ == "group not found"@
                },
            },
    {
        match self.store.get_group(&name) {
            Some(group) => Ok(group.token == token),
            None => Err(NotificationError::NotFound("group not found".to_owned())),
        }
    }
}

} // verus!
