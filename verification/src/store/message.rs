use vstd::math::min;
use vstd::prelude::*;

use crate::error::NotificationError;

verus! {

/// Earliest cutoff second a retention purge accepts: midnight of the first
/// day of year -9999, the lower end of the representable date range.
pub const MIN_UNIX_TIMESTAMP: i64 = -377705116800;

/// Latest cutoff second a retention purge accepts: the last second of year
/// 9999, the upper end of the representable date range.
pub const MAX_UNIX_TIMESTAMP: i64 = 253402300799;

/// Whether `date` can be converted to a point in time.
pub open spec fn cutoff_in_range(date: i64) -> bool {
    MIN_UNIX_TIMESTAMP <= date && date <= MAX_UNIX_TIMESTAMP
}

/// Relies on time::OffsetDateTime::from_unix_timestamp: conversion of a
/// Unix second succeeds exactly when it falls within the representable
/// years -9999 through 9999.
#[verifier::external_body]
fn timestamp_representable(date: i64) -> (r: bool)
    ensures
        r == cutoff_in_range(date),
{
    time::OffsetDateTime::from_unix_timestamp(date).is_ok()
}

/// One notification message. `channel` is a free-text routing key — many
/// messages share one channel, and nothing ties it to a group. A message is
/// immutable once stored; `created_at` (Unix seconds) is both the ordering
/// key and the retention cutoff key.
#[derive(Debug)]
pub struct MessageRecord {
    pub id: i64,
    pub created_at: i64,
    pub updated_at: i64,
    pub channel: String,
    pub subject: String,
    pub message: String,
}

impl Clone for MessageRecord {
    fn clone(&self) -> (r: Self)
        ensures
            r == *self,
    {
        MessageRecord {
            id: self.id,
            created_at: self.created_at,
            updated_at: self.updated_at,
            channel: self.channel.clone(),
            subject: self.subject.clone(),
            message: self.message.clone(),
        }
    }
}

/// Messages routed to one of `chans`.
pub open spec fn in_channels(chans: Seq<String>) -> spec_fn(MessageRecord) -> bool {
    |m: MessageRecord| exists|i: int| 0 <= i < chans.len() && chans[i]@ == m.channel@
}

/// Messages created at or after the cutoff `t`: what a purge keeps.
pub open spec fn at_least(t: i64) -> spec_fn(MessageRecord) -> bool {
    |m: MessageRecord| m.created_at >= t
}

/// Messages created strictly before the cutoff `t`: what a purge removes.
pub open spec fn earlier_than(t: i64) -> spec_fn(MessageRecord) -> bool {
    |m: MessageRecord| m.created_at < t
}

/// The messages whose channel is a member of `chans`, in store order
/// (newest first).
pub open spec fn matching(s: Seq<MessageRecord>, chans: Seq<String>) -> Seq<MessageRecord> {
    s.filter(in_channels(chans))
}

/// The page window: the matching messages, newest first, with `offset`
/// skipped and at most `limit` taken.
pub open spec fn page(
    s: Seq<MessageRecord>,
    chans: Seq<String>,
    offset: int,
    limit: int,
) -> Seq<MessageRecord>
    recommends
        0 <= offset,
        0 <= limit,
{
    let f = matching(s, chans);
    f.subrange(min(offset, f.len() as int), min(offset + limit, f.len() as int))
}

/// The messages a purge with cutoff `t` keeps, in store order.
pub open spec fn retained(s: Seq<MessageRecord>, t: i64) -> Seq<MessageRecord> {
    s.filter(at_least(t))
}

/// The messages a purge with cutoff `t` removes, in store order.
pub open spec fn purged(s: Seq<MessageRecord>, t: i64) -> Seq<MessageRecord> {
    s.filter(earlier_than(t))
}

/// How an append with creation time `now` places the new record `m`:
/// `post` is `pre` with `m` at position `k`, after every message created at
/// or after `now` and before every older one.
pub open spec fn inserted_at(
    pre: Seq<MessageRecord>,
    post: Seq<MessageRecord>,
    k: int,
    m: MessageRecord,
    now: i64,
) -> bool {
    &&& 0 <= k <= pre.len()
    &&& post == pre.insert(k, m)
    &&& forall|j: int| 0 <= j < k ==> #[trigger] pre[j].created_at >= now
    &&& k < pre.len() ==> pre[k].created_at < now
}

/// Newest-first order: creation timestamps never increase along the store.
pub open spec fn newest_first(s: Seq<MessageRecord>) -> bool {
    forall|i: int, j: int|
        0 <= i < j < s.len() ==> #[trigger] s[i].created_at >= #[trigger] s[j].created_at
}

/// A filtered subsequence of a newest-first sequence is newest first.
pub proof fn lemma_filter_keeps_newest_first(s: Seq<MessageRecord>, p: spec_fn(MessageRecord) -> bool)
    requires
        newest_first(s),
    ensures
        newest_first(s.filter(p)),
    decreases s.len(),
{
    reveal(Seq::filter);
    if s.len() > 0 {
        let rest = s.drop_last();
        assert(newest_first(rest));
        lemma_filter_keeps_newest_first(rest, p);
        if p(s.last()) {
            let f = rest.filter(p).push(s.last());
            assert(s.filter(p) == f);
            assert forall|i: int, j: int| 0 <= i < j < f.len() implies #[trigger] f[i].created_at
                >= #[trigger] f[j].created_at by {
                if j < f.len() - 1 {
                    assert(f[i] == rest.filter(p)[i] && f[j] == rest.filter(p)[j]);
                } else {
                    assert(f[i] == rest.filter(p)[i]);
                    assert(rest.filter(p).contains(rest.filter(p)[i]));
                    rest.lemma_filter_contains_rev(p, rest.filter(p)[i]);
                    let k = choose|k: int|
                        0 <= k < rest.len() && rest[k] == rest.filter(p)[i];
                    assert(s[k] == rest[k]);
                    assert(s[k].created_at >= s[s.len() - 1].created_at);
                }
            }
        }
    }
}

/// Filtering changes nothing when every element satisfies the predicate.
pub proof fn lemma_filter_all_pos_identity(
    s: Seq<MessageRecord>,
    p: spec_fn(MessageRecord) -> bool,
)
    requires
        forall|i: int| 0 <= i < s.len() ==> p(#[trigger] s[i]),
    ensures
        s.filter(p) == s,
    decreases s.len(),
{
    reveal(Seq::filter);
    if s.len() == 0 {
        assert(s.filter(p) =~= s);
    } else {
        let rest = s.drop_last();
        lemma_filter_all_pos_identity(rest, p);
        assert(p(s.last()));
        assert(s.filter(p) =~= s);
    }
}

/// In-memory store owning the message records, kept in newest-first order.
///
/// It assigns each new record a fresh id below `next_id`; the counter also
/// bounds how many records the store can hold, so a count always fits the
/// interface's signed integer.
pub struct MessageStore {
    pub messages: Vec<MessageRecord>,
    pub next_id: i64,
}

impl View for MessageStore {
    type V = Seq<MessageRecord>;

    open spec fn view(&self) -> Seq<MessageRecord> {
        self.messages@
    }
}

impl MessageStore {
    /// Structural invariant: newest-first order, and no more records than
    /// ids handed out.
    pub open spec fn wf(&self) -> bool {
        &&& newest_first(self@)
        &&& self@.len() <= self.next_id
        &&& 0 <= self.next_id
    }

    /// Whether the id counter still has room for one more record.
    pub open spec fn can_assign_id(&self) -> bool {
        self.next_id < i64::MAX
    }

    pub fn new() -> (r: MessageStore)
        ensures
            r@ == Seq::<MessageRecord>::empty(),
            r.wf(),
            r.next_id == 1,
    {
        MessageStore { messages: Vec::new(), next_id: 1 }
    }

    /// Append one message with creation time `now`. The record is placed
    /// after every message created at or after `now` and before every
    /// older one, keeping the store newest first.
    pub fn add_message(
        &mut self,
        channel: &String,
        subject: &String,
        message: &String,
        now: i64,
    ) -> (m: MessageRecord)
        requires
            old(self).wf(),
            old(self).can_assign_id(),
        ensures
            final(self).wf(),
            m.id == old(self).next_id,
            m.channel == *channel,
            m.subject == *subject,
            m.message == *message,
            m.created_at == now,
            m.updated_at == now,
            final(self).next_id == old(self).next_id + 1,
            exists|k: int| #[trigger] inserted_at(old(self)@, final(self)@, k, m, now),
    {
        let m = MessageRecord {
            id: self.next_id,
            created_at: now,
            updated_at: now,
            channel: channel.clone(),
            subject: subject.clone(),
            message: message.clone(),
        };
        let ghost mrec = m;
        let out = m.clone();
        let n = self.messages.len();
        let mut k: usize = 0;
        while k < n && self.messages[k].created_at >= now
            invariant
                *self == *old(self),
                n == self@.len(),
                k <= n,
                forall|j: int| 0 <= j < k ==> #[trigger] self@[j].created_at >= now,
            decreases n - k,
        {
            k += 1;
        }
        let ghost pre = self@;
        let ghost kk = k as int;
        self.messages.insert(k, m);
        self.next_id = self.next_id + 1;
        proof {
            pre.insert_ensures(kk, mrec);
            let post = self@;
            assert(post == pre.insert(kk, mrec));
            assert forall|a: int, b: int| 0 <= a < b < post.len() implies #[trigger] post[a].created_at
                >= #[trigger] post[b].created_at by {
                if a == kk {
                    assert(pre.insert(kk, mrec)[(b - 1) + 1] == pre[b - 1]);
                    assert(pre[kk].created_at < now);
                    if kk < b - 1 {
                        assert(pre[kk].created_at >= pre[b - 1].created_at);
                    }
                } else if b == kk {
                    assert(pre.insert(kk, mrec)[a] == pre[a]);
                    assert(pre[a].created_at >= now);
                } else if b < kk {
                    assert(pre.insert(kk, mrec)[a] == pre[a]);
                    assert(pre.insert(kk, mrec)[b] == pre[b]);
                } else if a > kk {
                    assert(pre.insert(kk, mrec)[(a - 1) + 1] == pre[a - 1]);
                    assert(pre.insert(kk, mrec)[(b - 1) + 1] == pre[b - 1]);
                } else {
                    assert(pre.insert(kk, mrec)[a] == pre[a]);
                    assert(pre.insert(kk, mrec)[(b - 1) + 1] == pre[b - 1]);
                    assert(pre[a].created_at >= pre[b - 1].created_at);
                }
            }
            assert(inserted_at(pre, self@, kk, mrec, now));
        }
        out
    }

    /// Count the messages whose channel is a member of `channels`.
    pub fn get_messages_count(&self, channels: &Vec<String>) -> (r: i64)
        requires
            self.wf(),
        ensures
            r == matching(self@, channels@).len(),
    {
        let n = self.messages.len();
        let mut count: usize = 0;
        let mut i: usize = 0;
        while i < n
            invariant
                self.wf(),
                n == self@.len(),
                i <= n,
                count == matching(self@.take(i as int), channels@).len(),
                count <= i,
            decreases n - i,
        {
            proof {
                assert(self@.take(i + 1) =~= self@.take(i as int).push(self@[i as int]));
                self@.take(i as int).lemma_filter_push(self@[i as int], in_channels(channels@));
            }
            if channel_member(channels, &self.messages[i].channel) {
                count += 1;
            }
            i += 1;
        }
        proof {
            assert(self@.take(n as int) =~= self@);
            self@.lemma_filter_len(in_channels(channels@));
        }
        count as i64
    }

    /// The page window over the messages whose channel is a member of
    /// `channels`: newest first, `offset` skipped, at most `limit` taken.
    pub fn get_messages(&self, channels: &Vec<String>, offset: i64, limit: i64) -> (r: Vec<
        MessageRecord,
    >)
        requires
            self.wf(),
            0 <= offset,
            0 <= limit,
        ensures
            r@ == page(self@, channels@, offset as int, limit as int),
    {
        let n = self.messages.len();
        let mut filtered: Vec<MessageRecord> = Vec::new();
        let mut i: usize = 0;
        while i < n
            invariant
                self.wf(),
                n == self@.len(),
                i <= n,
                filtered@ == matching(self@.take(i as int), channels@),
            decreases n - i,
        {
            proof {
                assert(self@.take(i + 1) =~= self@.take(i as int).push(self@[i as int]));
                self@.take(i as int).lemma_filter_push(self@[i as int], in_channels(channels@));
            }
            if channel_member(channels, &self.messages[i].channel) {
                filtered.push(self.messages[i].clone());
            }
            i += 1;
        }
        proof {
            assert(self@.take(n as int) =~= self@);
            self@.lemma_filter_len(in_channels(channels@));
            assert(self@.filter(in_channels(channels@)).len() <= self@.len());
        }
        let flen = filtered.len();
        let start: usize = if offset >= flen as i64 {
            flen
        } else {
            offset as usize
        };
        let remaining = flen - start;
        let take_n: usize = if limit >= remaining as i64 {
            remaining
        } else {
            limit as usize
        };
        let end = start + take_n;
        let mut out: Vec<MessageRecord> = Vec::new();
        let mut j: usize = start;
        while j < end
            invariant
                start <= j <= end,
                end <= filtered@.len(),
                out@ == filtered@.subrange(start as int, j as int),
            decreases end - j,
        {
            proof {
                assert(filtered@.subrange(start as int, j + 1) =~= filtered@.subrange(
                    start as int,
                    j as int,
                ).push(filtered@[j as int]));
            }
            out.push(filtered[j].clone());
            j += 1;
        }
        proof {
            let f = matching(self@, channels@);
            assert(start as int == min(offset as int, f.len() as int));
            assert(end as int == min(offset + limit, f.len() as int));
        }
        out
    }

    /// Delete and return every message created strictly before `date`.
    /// A cutoff outside the representable range of timestamps is rejected
    /// and changes nothing.
    pub fn clean_messages(&mut self, date: i64) -> (r: Result<
        Vec<MessageRecord>,
        NotificationError,
    >)
        requires
            old(self).wf(),
        ensures
            final(self).wf(),
            final(self).next_id == old(self).next_id,
            match r {
                Ok(removed) => {
                    &&& cutoff_in_range(date)
                    &&& final(self)@ == retained(old(self)@, date)
                    &&& removed@ == purged(old(self)@, date)
                },
                Err(e) => {
                    &&& !cutoff_in_range(date)
                    &&& final(self)@ == old(self)@
                    &&& e matches NotificationError::InvalidArgument(m) && m@
                        == "cutoff timestamp is out of range"@
                },
            },
    {
        if !timestamp_representable(date) {
            return Err(
                NotificationError::InvalidArgument("cutoff timestamp is out of range".to_owned()),
            );
        }
        let ghost pre = self@;
        let n = self.messages.len();
        let mut kept: Vec<MessageRecord> = Vec::new();
        let mut removed: Vec<MessageRecord> = Vec::new();
        let mut i: usize = 0;
        while i < n
            invariant
                *self == *old(self),
                self.wf(),
                pre == self@,
                n == pre.len(),
                i <= n,
                kept@ == pre.take(i as int).filter(at_least(date)),
                removed@ == pre.take(i as int).filter(earlier_than(date)),
            decreases n - i,
        {
            proof {
                assert(pre.take(i + 1) =~= pre.take(i as int).push(pre[i as int]));
                pre.take(i as int).lemma_filter_push(pre[i as int], at_least(date));
                pre.take(i as int).lemma_filter_push(pre[i as int], earlier_than(date));
            }
            if self.messages[i].created_at >= date {
                kept.push(self.messages[i].clone());
            } else {
                removed.push(self.messages[i].clone());
            }
            i += 1;
        }
        proof {
            assert(pre.take(n as int) =~= pre);
            lemma_filter_keeps_newest_first(pre, at_least(date));
            pre.lemma_filter_len(at_least(date));
        }
        self.messages = kept;
        Ok(removed)
    }
}

/// Whether `ch` occurs in `channels`, compared byte for byte.
fn channel_member(channels: &Vec<String>, ch: &String) -> (r: bool)
    ensures
        r == (exists|i: int| 0 <= i < channels@.len() && channels@[i]@ == ch@),
{
    let n = channels.len();
    let mut i: usize = 0;
    while i < n
        invariant
            n == channels@.len(),
            i <= n,
            forall|j: int| 0 <= j < i ==> channels@[j]@ != ch@,
        decreases n - i,
    {
        if channels[i] == *ch {
            return true;
        }
        i += 1;
    }
    false
}

} // verus!
