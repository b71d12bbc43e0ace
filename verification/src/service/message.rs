use vstd::prelude::*;

use crate::error::NotificationError;
use crate::store::message::{
    cutoff_in_range, inserted_at, matching, page, purged, retained, MessageRecord, MessageStore,
};

verus! {

/// Domain service for messages: thin orchestration over the message store.
/// Reads, appends and the retention purge go straight through; the store's
/// guarantees (newest-first paging, exact purge bounds) are restated here
/// unchanged.
pub struct MessageService {
    pub store: MessageStore,
}

impl View for MessageService {
    type V = Seq<MessageRecord>;

    open spec fn view(&self) -> Seq<MessageRecord> {
        self.store@
    }
}

impl MessageService {
    /// Structural invariant, inherited from the store.
    pub open spec fn wf(&self) -> bool {
        self.store.wf()
    }

    /// Whether the underlying store still has room for one more record.
    pub open spec fn can_assign_id(&self) -> bool {
        self.store.can_assign_id()
    }

    pub fn new(store: MessageStore) -> (r: MessageService)
        ensures
            r.store == store,
    {
        MessageService { store }
    }

    /// The page window over the messages whose channel is a member of
    /// `channels`: newest first, `offset` skipped, at most `limit` taken.
    /// An empty `channels` list selects nothing.
    pub fn get_messages(&self, channels: Vec<String>, offset: i64, limit: i64) -> (r: Result<
        Vec<MessageRecord>,
        NotificationError,
    >)
        requires
            self.wf(),
            0 <= offset,
            0 <= limit,
        ensures
            r matches Ok(msgs) && msgs@ == page(self@, channels@, offset as int, limit as int),
    {
        Ok(self.store.get_messages(&channels, offset, limit))
    }

    /// Count of the messages whose channel is a member of `channels`,
    /// independent of any page window.
    pub fn get_messages_count(&self, channels: Vec<String>) -> (r: Result<
        i64,
        NotificationError,
    >)
        requires
            self.wf(),
        ensures
            r matches Ok(c) && c == matching(self@, channels@).len(),
    {
        Ok(self.store.get_messages_count(&channels))
    }

    /// Append one message with creation time `now` and return the stored
    /// record, including its assigned id.
    pub fn add_message(
        &mut self,
        channel: String,
        subject: String,
        message: String,
        now: i64,
    ) -> (r: Result<MessageRecord, NotificationError>)
        requires
            old(self).wf(),
            old(self).can_assign_id(),
        ensures
            final(self).wf(),
            final(self).store.next_id == old(self).store.next_id + 1,
            r matches Ok(m) && {
                &&& m.id == old(self).store.next_id
                &&& m.channel@ == channel@
                &&& m.subject@ == subject@
                &&& m.message@ == message@
                &&& m.created_at == now
                &&& m.updated_at == now
                &&& exists|k: int| #[trigger] inserted_at(old(self)@, final(self)@, k, m, now)
            },
    {
        let m = self.store.add_message(&channel, &subject, &message, now);
        proof {
            let k = choose|k: int| #[trigger] inserted_at(old(self).store@, self.store@, k, m, now);
            assert(inserted_at(old(self)@, self@, k, m, now));
        }
        Ok(m)
    }

    /// Delete and return every message created strictly before `date`.
    /// Fails with `InvalidArgument` exactly when the cutoff cannot be
    /// converted to a point in time, in which case nothing changes.
    pub fn clear_messages(&mut self, date: i64) -> (r: Result<
        Vec<MessageRecord>,
        NotificationError,
    >)
        requires
            old(self).wf(),
        ensures
            final(self).wf(),
            final(self).store.next_id == old(self).store.next_id,
            match r {
                Ok(removed) => {
                    &&& cutoff_in_range(date)
                    &&& final(self)@ == retained(old(self)@, date)
                    &&& removed@ == purged(old(self)@, date)
                },
                Err(e) => {
                    &&& !cutoff_in_range(date)
                    &&& final(self)@ == old(self)@
                    &&& e matches NotificationError::InvalidArgument(m) && m@
                        == "cutoff timestamp is out of range"@
                },
            },
    {
        self.store.clean_messages(date)
    }
}

} // verus!
