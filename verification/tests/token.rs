use token_queue::token::{QueueError, Token, User};

#[test]
fn test_get() {
    let mut t = Token::new();
    let u = User::new("id".to_string(), "name".to_string());
    t.get(u.clone()).unwrap();

    assert!(t.is_holding(&u));
}

#[test]
fn test_drop() {
    let mut t = Token::new();
    let u = User::new("id".to_string(), "name".to_string());
    t.get(u.clone()).unwrap();
    assert!(t.is_holding(&u));
    t.drop(&u).unwrap();
    assert!(!t.is_holding(&u));
}

#[test]
fn test_len() {
    let mut t = Token::new();
    let u0 = User::new("id0".to_string(), "name0".to_string());
    let u1 = User::new("id1".to_string(), "name1".to_string());
    let u2 = User::new("id2".to_string(), "name2".to_string());
    let u3 = User::new("id3".to_string(), "name3".to_string());
    t.get(u0.clone()).unwrap();
    assert_eq!(t.len(), 1);
    t.get(u1.clone()).unwrap();
    assert_eq!(t.len(), 2);
    t.get(u2.clone()).unwrap();
    assert_eq!(t.len(), 3);
    t.get(u3.clone()).unwrap();
    assert_eq!(t.len(), 4);

    assert!(t.is_holding(&u0));
}

#[test]
fn test_list_user_name() {
    let mut t = Token::new();
    let u0 = User::new("id0".to_string(), "name0".to_string());
    let u1 = User::new("id1".to_string(), "name1".to_string());
    let u2 = User::new("id2".to_string(), "name2".to_string());
    let u3 = User::new("id3".to_string(), "name3".to_string());
    t.get(u0).unwrap();
    t.get(u1).unwrap();
    t.get(u2).unwrap();
    t.get(u3).unwrap();

    assert_eq!(t.list_user_name(), vec!["name0", "name1", "name2", "name3"]);
}

#[test]
fn test_step_back() {
    let mut t = Token::new();
    let u0 = User::new("id0".to_string(), "name0".to_string());
    let u1 = User::new("id1".to_string(), "name1".to_string());
    let u2 = User::new("id2".to_string(), "name2".to_string());
    let u3 = User::new("id3".to_string(), "name3".to_string());
    t.get(u0.clone()).unwrap();
    t.get(u1.clone()).unwrap();
    t.get(u2.clone()).unwrap();
    t.get(u3.clone()).unwrap();

    t.step_back(&u0).unwrap();
    assert_eq!(t.list_user_name(), vec!["name1", "name0", "name2", "name3"]);
    t.step_back(&u0).unwrap();
    assert_eq!(t.list_user_name(), vec!["name1", "name2", "name0", "name3"]);
    t.step_back(&u0).unwrap();
    assert_eq!(t.list_user_name(), vec!["name1", "name2", "name3", "name0"]);

    assert!(t.step_back(&u0).is_err());
}

#[test]
fn test_to_front() {
    let mut t = Token::new();
    let u0 = User::new("id0".to_string(), "name0".to_string());
    let u1 = User::new("id1".to_string(), "name1".to_string());
    let u2 = User::new("id2".to_string(), "name2".to_string());
    let u3 = User::new("id3".to_string(), "name3".to_string());
    t.get(u0.clone()).unwrap();
    t.get(u1.clone()).unwrap();
    t.get(u2.clone()).unwrap();
    t.get(u3.clone()).unwrap();

    t.to_front(&u2).unwrap();
    assert_eq!(t.list_user_name(), vec!["name0", "name2", "name1", "name3"]);

    assert!(t.to_front(&u2).is_err());
}

#[test]
fn test_steal() {
    let mut t = Token::new();
    let u0 = User::new("id0".to_string(), "name0".to_string());
    let u1 = User::new("id1".to_string(), "name1".to_string());
    let u2 = User::new("id2".to_string(), "name2".to_string());
    let u3 = User::new("id3".to_string(), "name3".to_string());
    t.get(u0.clone()).unwrap();
    t.get(u1.clone()).unwrap();
    t.get(u2.clone()).unwrap();
    t.get(u3.clone()).unwrap();

    t.steal(&u2).unwrap();
    assert_eq!(t.list_user_name(), vec!["name2", "name1", "name3"]);
    t.steal(&u3).unwrap();
    assert_eq!(t.list_user_name(), vec!["name3", "name1"]);

    assert!(t.steal(&u2).is_err());
}

#[test]
fn test_is_holding() {
    let mut t = Token::new();
    let u0 = User::new("id0".to_string(), "name0".to_string());
    let u1 = User::new("id1".to_string(), "name1".to_string());
    let u2 = User::new("id2".to_string(), "name2".to_string());
    let u3 = User::new("id3".to_string(), "name3".to_string());
    t.get(u0.clone()).unwrap();
    t.get(u1.clone()).unwrap();
    t.get(u2.clone()).unwrap();
    t.get(u3.clone()).unwrap();

    assert!(t.is_holding(&u0))
}

fn abc() -> (Token, User, User, User) {
    let mut t = Token::new();
    let a = User::new("a".to_string(), "A".to_string());
    let b = User::new("b".to_string(), "B".to_string());
    let c = User::new("c".to_string(), "C".to_string());
    t.get(a.clone()).unwrap();
    t.get(b.clone()).unwrap();
    t.get(c.clone()).unwrap();
    (t, a, b, c)
}

#[test]
fn fifo_join_order_and_holder() {
    let (t, a, b, c) = abc();
    assert_eq!(t.list_user_name(), vec!["A", "B", "C"]);
    assert!(t.is_holding(&a));
    assert!(!t.is_holding(&b));
    assert!(!t.is_holding(&c));
}

#[test]
fn get_rejects_duplicate_id_and_keeps_queue() {
    let (mut t, a, _b, _c) = abc();
    let a_renamed = User::new("a".to_string(), "Other".to_string());
    assert_eq!(t.get(a.clone()), Err(QueueError::AlreadyQueued));
    assert_eq!(t.get(a_renamed), Err(QueueError::AlreadyQueued));
    assert_eq!(t.list_user_name(), vec!["A", "B", "C"]);
}

#[test]
fn get_then_drop_restores_prior_order() {
    let (mut t, _a, _b, _c) = abc();
    let d = User::new("d".to_string(), "D".to_string());
    t.get(d.clone()).unwrap();
    t.drop(&d).unwrap();
    assert_eq!(t.list_user_name(), vec!["A", "B", "C"]);
}

#[test]
fn drop_absent_user_fails() {
    let (mut t, _a, _b, _c) = abc();
    let d = User::new("d".to_string(), "D".to_string());
    assert_eq!(t.drop(&d), Err(QueueError::NotQueued));
    assert_eq!(t.list_user_name(), vec!["A", "B", "C"]);
}

#[test]
fn step_back_boundary() {
    let (mut t, a, _b, c) = abc();
    assert_eq!(t.step_back(&c), Err(QueueError::AtEnd));
    t.step_back(&a).unwrap();
    assert_eq!(t.list_user_name(), vec!["B", "A", "C"]);
    let d = User::new("d".to_string(), "D".to_string());
    assert_eq!(t.step_back(&d), Err(QueueError::NotQueued));
}

#[test]
fn to_front_boundary() {
    let (mut t, a, b, _c) = abc();
    assert_eq!(t.to_front(&a), Err(QueueError::AlreadyHolding));
    assert_eq!(t.to_front(&b), Err(QueueError::AlreadyNext));
    let d = User::new("d".to_string(), "D".to_string());
    assert_eq!(t.to_front(&d), Err(QueueError::NotQueued));
    t.get(d.clone()).unwrap();
    t.to_front(&d).unwrap();
    assert_eq!(t.list_user_name(), vec!["A", "D", "C", "B"]);
}

#[test]
fn to_front_swaps_strictly_with_position_one() {
    let (mut t, _a, _b, c) = abc();
    t.to_front(&c).unwrap();
    assert_eq!(t.list_user_name(), vec!["A", "C", "B"]);
}

#[test]
fn steal_swaps_then_removes_the_displaced_holder() {
    let (mut t, a, _b, c) = abc();
    assert_eq!(t.steal(&a), Err(QueueError::AlreadyHolding));
    let displaced = t.steal(&c).unwrap();
    assert_eq!(displaced, a);
    assert_eq!(t.list_user_name(), vec!["C", "B"]);
    assert!(t.is_holding(&c));
    let d = User::new("d".to_string(), "D".to_string());
    assert_eq!(t.steal(&d), Err(QueueError::NotQueued));
}

#[test]
fn iter_returns_the_members_in_order() {
    let (t, a, b, c) = abc();
    let snapshot = t.iter();
    assert_eq!(snapshot.len(), 3);
    assert_eq!(snapshot[0], a);
    assert_eq!(snapshot[1], b);
    assert_eq!(snapshot[2], c);
}

#[test]
fn as_slack_str_renders_the_mention() {
    let u = User::new("id".to_string(), "name".to_string());
    assert_eq!(u.as_slack_str(), "<@id|name>");
}

#[test]
fn error_messages_are_the_fixed_texts() {
    assert_eq!(QueueError::AlreadyQueued.message(), "You are already in the queue!");
    assert_eq!(QueueError::NotQueued.message(), "You are not in the queue!");
    assert_eq!(QueueError::AtEnd.message(), "You are at the end of the queue!");
    assert_eq!(QueueError::AlreadyHolding.message(), "You are already holding the token!");
    assert_eq!(QueueError::AlreadyNext.message(), "You are already at the start of the queue!");
    assert_eq!(QueueError::LockFailure.message(), "unable to lock token");
}
