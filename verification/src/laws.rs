use vstd::prelude::*;

use crate::store::group::{
    contains_cred, contains_name, cred_index, group_named, name_index, unique_names, GroupRecord,
};
use crate::store::message::{
    at_least, earlier_than, lemma_filter_all_pos_identity, matching, page, purged, retained,
    MessageRecord,
};

verus! {

/// Uniqueness of group names across calls.
///
/// `GroupService::add_group` fails with a conflict exactly when
/// `contains_name` holds, and a successful add of `g` turns the store `pre`
/// into `pre.push(g)`. This law closes the loop: the name is present from
/// then on, so a second add of the same name is refused — and it stays
/// refused until a removal takes the name out again, which
/// [`lemma_removed_name_free`] covers.
pub proof fn lemma_group_name_uniqueness(pre: Seq<GroupRecord>, g: GroupRecord)
    requires
        !contains_name(pre, g.name@),
    ensures
        contains_name(pre.push(g), g.name@),
{
    assert(pre.push(g)[pre.len() as int].name@ == g.name@);
}

/// After a credential-scoped removal of the group named `name`, no group
/// of that name is left: a subsequent add of `name` is no longer refused.
pub proof fn lemma_removed_name_free(s: Seq<GroupRecord>, name: Seq<char>, email: Seq<char>)
    requires
        unique_names(s),
        contains_cred(s, name, email),
    ensures
        !contains_name(s.remove(cred_index(s, name, email)), name),
{
    let k = cred_index(s, name, email);
    assert(0 <= k < s.len() && s[k].name@ == name);
    let post = s.remove(k);
    s.remove_ensures(k);
    assert forall|i: int| 0 <= i < post.len() implies post[i].name@ != name by {
        if i < k {
            assert(post[i] == s[i]);
        } else {
            assert(post[i] == s[i + 1]);
        }
    }
}

/// Token correctness: under unique names, the group the authorization
/// check resolves for a name is the one stored record of that name, so the
/// check answers true for exactly the stored token and false for every
/// other candidate. `GroupService::verify_token` ties its result to
/// `group_named(..).token`, and fails with `NotFound` exactly when the
/// name is absent.
pub proof fn lemma_verify_token_exact(s: Seq<GroupRecord>, i: int, candidate: Seq<char>)
    requires
        unique_names(s),
        0 <= i < s.len(),
    ensures
        contains_name(s, s[i].name@),
        group_named(s, s[i].name@) == s[i],
        (group_named(s, s[i].name@).token@ == candidate) <==> (s[i].token@ == candidate),
{
    assert(contains_name(s, s[i].name@));
    let k = name_index(s, s[i].name@);
    assert(0 <= k < s.len() && s[k].name@ == s[i].name@);
    assert(k == i);
}

/// Admin-scoped deletion: presenting an e-mail other than the stored one
/// never satisfies the credential condition. `GroupService::remove_group`
/// fails, with the store unchanged, exactly when `contains_cred` is false,
/// and reports the same conflict for a wrong e-mail as for a name that
/// does not exist — the two cases are observably identical.
pub proof fn lemma_remove_group_admin_scoped(
    s: Seq<GroupRecord>,
    name: Seq<char>,
    email: Seq<char>,
)
    requires
        unique_names(s),
        contains_name(s, name),
        group_named(s, name).admin_email@ != email,
    ensures
        !contains_cred(s, name, email),
{
    let i = name_index(s, name);
    assert(0 <= i < s.len() && s[i].name@ == name);
    assert forall|j: int| 0 <= j < s.len() implies !(s[j].name@ == name && s[j].admin_email@
        == email) by {
        if s[j].name@ == name {
            assert(j == i);
        }
    }
}

/// Retention idempotence: a purge removes exactly the messages created
/// strictly before the cutoff and keeps exactly the others — that is
/// `MessageService::clear_messages`' contract. This law adds that purging
/// twice with the same cutoff changes nothing more: the second purge
/// removes nothing and keeps the store as it is.
pub proof fn lemma_clear_messages_idempotent(s: Seq<MessageRecord>, t: i64)
    ensures
        purged(retained(s, t), t) == Seq::<MessageRecord>::empty(),
        retained(retained(s, t), t) == retained(s, t),
{
    let r = retained(s, t);
    assert forall|i: int| 0 <= i < r.len() implies !(earlier_than(t)(r[i])) by {
        s.lemma_filter_pred(at_least(t), i);
    }
    r.lemma_all_neg_filter_empty(earlier_than(t));
    assert(purged(r, t) =~= Seq::<MessageRecord>::empty());
    assert forall|i: int| 0 <= i < r.len() implies at_least(t)(#[trigger] r[i]) by {
        s.lemma_filter_pred(at_least(t), i);
    }
    lemma_filter_all_pos_identity(r, at_least(t));
}

/// Pagination consistency: the count reported for a channel filter equals
/// the length of the page that starts at offset zero with a limit of at
/// least that count — `get_messages_count` and `get_messages` agree.
pub proof fn lemma_pagination_consistent(s: Seq<MessageRecord>, chans: Seq<String>, limit: int)
    requires
        matching(s, chans).len() <= limit,
    ensures
        page(s, chans, 0, limit) == matching(s, chans),
{
    assert(page(s, chans, 0, limit) =~= matching(s, chans));
}

} // verus!
