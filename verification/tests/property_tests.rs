use notification::store::message::{MAX_UNIX_TIMESTAMP, MIN_UNIX_TIMESTAMP};
use notification::{
    GroupService, GroupStore, MessageService, MessageStore, NotificationError, SubscriberService,
    SubscriberStore,
};

fn group_service_with(names: &[&str]) -> GroupService {
    let mut service = GroupService::new(GroupStore::new());
    for (i, name) in names.iter().enumerate() {
        service
            .add_group(
                name.to_string(),
                "admin_email".to_string(),
                "token".to_string(),
                i as i64 + 1,
            )
            .unwrap();
    }
    service
}

#[test]
fn add_group_twice_conflicts_until_removed() {
    let mut service = group_service_with(&["ops"]);

    let second = service.add_group(
        "ops".to_string(),
        "other_email".to_string(),
        "other_token".to_string(),
        2,
    );
    assert!(matches!(second, Err(NotificationError::ObjectConflict(_))));
    assert_eq!(second.unwrap_err().message(), "group name is taken");

    service
        .remove_group("ops".to_string(), "admin_email".to_string())
        .unwrap();

    let third = service.add_group(
        "ops".to_string(),
        "admin_email".to_string(),
        "token".to_string(),
        3,
    );
    assert!(third.is_ok());
}

#[test]
fn verify_token_matches_exactly() {
    let mut store = GroupStore::new();
    store.add_group(
        &"ops".to_string(),
        &"admin_email".to_string(),
        &"tok1".to_string(),
        1,
    );
    let service = GroupService::new(store);

    assert!(service
        .verify_token("ops".to_string(), "tok1".to_string())
        .unwrap());
    assert!(!service
        .verify_token("ops".to_string(), "tok2".to_string())
        .unwrap());
    assert!(!service
        .verify_token("ops".to_string(), "".to_string())
        .unwrap());

    let missing = service.verify_token("nope".to_string(), "tok1".to_string());
    assert!(matches!(missing, Err(NotificationError::NotFound(_))));
    assert_eq!(missing.unwrap_err().message(), "group not found");
}

#[test]
fn remove_group_wrong_email_looks_like_missing_group() {
    let mut service = group_service_with(&["ops"]);

    let wrong_email = service.remove_group("ops".to_string(), "intruder".to_string());
    let missing_name = service.remove_group("nope".to_string(), "admin_email".to_string());

    let wrong_email_err = wrong_email.unwrap_err();
    let missing_name_err = missing_name.unwrap_err();
    assert!(matches!(
        wrong_email_err,
        NotificationError::ObjectConflict(_)
    ));
    assert!(matches!(
        missing_name_err,
        NotificationError::ObjectConflict(_)
    ));
    assert_eq!(wrong_email_err.message(), missing_name_err.message());
    assert_eq!(wrong_email_err.message(), "group does not exist");

    // The row is still there, and the right credential still removes it.
    assert!(service.store.get_group(&"ops".to_string()).is_some());
    let removed = service
        .remove_group("ops".to_string(), "admin_email".to_string())
        .unwrap();
    assert_eq!(removed.unwrap().name, "ops");
    assert!(service.store.get_group(&"ops".to_string()).is_none());
}

#[test]
fn add_subscriber_to_missing_group_creates_nothing() {
    let groups = GroupStore::new();
    let mut subscriber_service = SubscriberService::new(SubscriberStore::new());

    let result = subscriber_service.add_subscriber(7, "ghost".to_string(), &groups, 1);
    assert!(matches!(result, Err(NotificationError::ObjectConflict(_))));
    assert_eq!(result.unwrap_err().message(), "group name does not exist");
    assert_eq!(subscriber_service.store.subs.len(), 0);
}

#[test]
fn duplicate_membership_is_allowed() {
    let mut groups = GroupStore::new();
    let group = groups.add_group(
        &"ops".to_string(),
        &"admin_email".to_string(),
        &"token".to_string(),
        1,
    );
    let mut subscriber_service = SubscriberService::new(SubscriberStore::new());

    subscriber_service
        .add_subscriber(7, "ops".to_string(), &groups, 2)
        .unwrap();
    subscriber_service
        .add_subscriber(7, "ops".to_string(), &groups, 3)
        .unwrap();

    assert_eq!(subscriber_service.store.list_subs_by_group(&group).len(), 2);

    // One removal drops every row of the membership.
    subscriber_service
        .remove_subscriber(7, "ops".to_string(), &groups)
        .unwrap();
    assert_eq!(subscriber_service.store.list_subs_by_group(&group).len(), 0);
}

#[test]
fn remove_subscriber_is_idempotent() {
    let mut groups = GroupStore::new();
    groups.add_group(
        &"ops".to_string(),
        &"admin_email".to_string(),
        &"token".to_string(),
        1,
    );
    let mut subscriber_service = SubscriberService::new(SubscriberStore::new());

    // Neither a missing membership nor a missing group is an error.
    assert!(subscriber_service
        .remove_subscriber(7, "ops".to_string(), &groups)
        .is_ok());
    assert!(subscriber_service
        .remove_subscriber(7, "ghost".to_string(), &groups)
        .is_ok());
}

#[test]
fn example_scenario_groups_and_subscribers() {
    let mut group_service = GroupService::new(GroupStore::new());
    group_service
        .add_group(
            "ops".to_string(),
            "admin_email".to_string(),
            "tok1".to_string(),
            1,
        )
        .unwrap();

    let mut subscriber_service = SubscriberService::new(SubscriberStore::new());
    subscriber_service
        .add_subscriber(1, "ops".to_string(), &group_service.store, 2)
        .unwrap();
    subscriber_service
        .add_subscriber(2, "ops".to_string(), &group_service.store, 3)
        .unwrap();

    let subs: Vec<i64> = subscriber_service
        .list_subs_by_group("ops".to_string(), &group_service.store)
        .unwrap()
        .iter()
        .map(|s| s.user_id)
        .collect();
    assert_eq!(subs, vec![1, 2]);

    subscriber_service
        .remove_subscriber(1, "ops".to_string(), &group_service.store)
        .unwrap();
    let subs: Vec<i64> = subscriber_service
        .list_subs_by_group("ops".to_string(), &group_service.store)
        .unwrap()
        .iter()
        .map(|s| s.user_id)
        .collect();
    assert_eq!(subs, vec![2]);

    assert!(group_service
        .verify_token("ops".to_string(), "tok1".to_string())
        .unwrap());
    assert!(!group_service
        .verify_token("ops".to_string(), "bad".to_string())
        .unwrap());
}

#[test]
fn example_scenario_retention() {
    let mut message_service = MessageService::new(MessageStore::new());
    message_service
        .add_message(
            "c1".to_string(),
            "s1".to_string(),
            "first".to_string(),
            100,
        )
        .unwrap();
    message_service
        .add_message(
            "c1".to_string(),
            "s2".to_string(),
            "second".to_string(),
            200,
        )
        .unwrap();

    let removed = message_service.clear_messages(150).unwrap();
    assert_eq!(removed.len(), 1);
    assert_eq!(removed[0].created_at, 100);
    assert_eq!(removed[0].message, "first");

    let left = message_service
        .get_messages(vec!["c1".to_string()], 0, 10)
        .unwrap();
    assert_eq!(left.len(), 1);
    assert_eq!(left[0].created_at, 200);

    // Purging again with the same cutoff removes nothing.
    let removed_again = message_service.clear_messages(150).unwrap();
    assert_eq!(removed_again.len(), 0);
    assert_eq!(
        message_service
            .get_messages_count(vec!["c1".to_string()])
            .unwrap(),
        1
    );
}

#[test]
fn clear_messages_boundary_is_exclusive() {
    let mut message_service = MessageService::new(MessageStore::new());
    message_service
        .add_message("c".to_string(), "s".to_string(), "m".to_string(), 100)
        .unwrap();

    // A message created exactly at the cutoff is preserved.
    assert_eq!(message_service.clear_messages(100).unwrap().len(), 0);
    assert_eq!(
        message_service
            .get_messages_count(vec!["c".to_string()])
            .unwrap(),
        1
    );
    assert_eq!(message_service.clear_messages(101).unwrap().len(), 1);
}

#[test]
fn clear_messages_rejects_out_of_range_cutoffs() {
    let mut message_service = MessageService::new(MessageStore::new());
    message_service
        .add_message("c".to_string(), "s".to_string(), "m".to_string(), 100)
        .unwrap();

    for bad in [i64::MIN, MIN_UNIX_TIMESTAMP - 1, MAX_UNIX_TIMESTAMP + 1, i64::MAX] {
        let result = message_service.clear_messages(bad);
        let err = result.unwrap_err();
        assert!(matches!(err, NotificationError::InvalidArgument(_)));
        assert_eq!(err.message(), "cutoff timestamp is out of range");
    }
    // Nothing was removed by the rejected calls.
    assert_eq!(
        message_service
            .get_messages_count(vec!["c".to_string()])
            .unwrap(),
        1
    );

    // The extreme representable cutoffs are accepted.
    assert_eq!(
        message_service
            .clear_messages(MIN_UNIX_TIMESTAMP)
            .unwrap()
            .len(),
        0
    );
    assert_eq!(
        message_service
            .clear_messages(MAX_UNIX_TIMESTAMP)
            .unwrap()
            .len(),
        1
    );
}

#[test]
fn messages_come_back_newest_first() {
    let mut message_service = MessageService::new(MessageStore::new());
    for (body, ts) in [("a", 100), ("b", 300), ("c", 200)] {
        message_service
            .add_message("c1".to_string(), "s".to_string(), body.to_string(), ts)
            .unwrap();
    }

    let all = message_service
        .get_messages(vec!["c1".to_string()], 0, 10)
        .unwrap();
    let stamps: Vec<i64> = all.iter().map(|m| m.created_at).collect();
    assert_eq!(stamps, vec![300, 200, 100]);
}

#[test]
fn pagination_count_matches_full_window() {
    let mut message_service = MessageService::new(MessageStore::new());
    for i in 0..7i64 {
        let channel = if i % 2 == 0 { "even" } else { "odd" };
        message_service
            .add_message(
                channel.to_string(),
                "s".to_string(),
                format!("m{}", i),
                i + 1,
            )
            .unwrap();
    }

    let channels = vec!["even".to_string()];
    let count = message_service
        .get_messages_count(channels.clone())
        .unwrap();
    let full = message_service
        .get_messages(channels.clone(), 0, i64::MAX)
        .unwrap();
    assert_eq!(count, full.len() as i64);
    assert_eq!(count, 4);

    // Both-channel filter sees everything.
    let both = vec!["even".to_string(), "odd".to_string()];
    assert_eq!(message_service.get_messages_count(both).unwrap(), 7);
}

#[test]
fn pagination_window_edges() {
    let mut message_service = MessageService::new(MessageStore::new());
    for i in 0..5i64 {
        message_service
            .add_message("c".to_string(), "s".to_string(), format!("m{}", i), i + 1)
            .unwrap();
    }
    let channels = vec!["c".to_string()];

    // Offset inside, limit truncating: the middle of the newest-first list.
    let window = message_service
        .get_messages(channels.clone(), 1, 2)
        .unwrap();
    let stamps: Vec<i64> = window.iter().map(|m| m.created_at).collect();
    assert_eq!(stamps, vec![4, 3]);

    // Offset past the end, and a zero limit, both select nothing.
    assert!(message_service
        .get_messages(channels.clone(), 99, 10)
        .unwrap()
        .is_empty());
    assert!(message_service
        .get_messages(channels.clone(), 0, 0)
        .unwrap()
        .is_empty());

    // An empty channel list selects nothing.
    assert!(message_service.get_messages(vec![], 0, 10).unwrap().is_empty());
    assert_eq!(message_service.get_messages_count(vec![]).unwrap(), 0);
}

#[test]
fn group_names_are_case_sensitive() {
    let mut service = group_service_with(&["Ops"]);
    let second = service.add_group(
        "ops".to_string(),
        "admin_email".to_string(),
        "token".to_string(),
        2,
    );
    assert!(second.is_ok());
    assert!(service.store.get_group(&"Ops".to_string()).is_some());
    assert!(service.store.get_group(&"ops".to_string()).is_some());
}

#[test]
fn list_groups_by_sub_reports_each_group_once() {
    let mut groups = GroupStore::new();
    let group = groups.add_group(
        &"ops".to_string(),
        &"admin_email".to_string(),
        &"token".to_string(),
        1,
    );
    let mut subscribers = SubscriberStore::new();
    subscribers.add_subscriber(7, &group, 2);
    subscribers.add_subscriber(7, &group, 3);

    let listed = groups.list_groups_by_sub(7, &subscribers);
    assert_eq!(listed.len(), 1);
    assert_eq!(listed[0].name, "ops");
    assert!(groups.list_groups_by_sub(8, &subscribers).is_empty());
}
