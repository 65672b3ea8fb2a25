//! Tests of the registry's coordination semantics, with plain integers as
//! the signal type: which entries a registration, deregistration or kill
//! leaves behind, and which entries a kill hands back.

use query_reaper::registry::{ActiveQuery, QueryCategory, Registry, UserId};

fn key(user: u128, conn_id: i32, category: QueryCategory) -> ActiveQuery {
    ActiveQuery { uuid: UserId { id: user }, conn_id, category }
}

#[test]
fn overwrite_keeps_one_entry_with_second_signal() {
    let mut registry: Registry<u32> = Registry::new();
    let q = key(1, 42, QueryCategory::Chart);
    registry.register(q, 10);
    registry.register(q, 20);
    assert!(registry.contains(&q));
    let removed = registry.kill_user(UserId { id: 1 });
    assert_eq!(removed.len(), 1);
    assert_eq!(removed[0].query, q);
    assert_eq!(removed[0].signal, 20);
    assert!(!registry.contains(&q));
}

#[test]
fn deregister_of_absent_key_is_noop() {
    let mut registry: Registry<u32> = Registry::new();
    let q = key(1, 42, QueryCategory::Chart);
    registry.deregister(&q);
    assert!(!registry.contains(&q));
    // the registry keeps working normally afterwards
    registry.register(q, 7);
    assert!(registry.contains(&q));
    registry.deregister(&q);
    assert!(!registry.contains(&q));
    // deregistering again, after a removal, is just as silent
    registry.deregister(&q);
    assert!(!registry.contains(&q));
}

#[test]
fn kill_returns_every_entry_of_the_user_once() {
    let mut registry: Registry<u32> = Registry::new();
    let user = UserId { id: 9 };
    let n = 5;
    for conn_id in 0..n {
        registry.register(key(9, conn_id, QueryCategory::Chart), conn_id as u32);
    }
    registry.register(key(8, 100, QueryCategory::Chart), 100);
    let removed = registry.kill_user(user);
    assert_eq!(removed.len(), n as usize);
    let mut conn_ids: Vec<i32> = removed.iter().map(|e| e.query.conn_id).collect();
    conn_ids.sort();
    assert_eq!(conn_ids, vec![0, 1, 2, 3, 4]);
    for conn_id in 0..n {
        assert!(!registry.contains(&key(9, conn_id, QueryCategory::Chart)));
    }
    // a second kill finds nothing: everything fired exactly once
    assert_eq!(registry.kill_user(user).len(), 0);
    // the other user's entry is untouched
    assert!(registry.contains(&key(8, 100, QueryCategory::Chart)));
}

#[test]
fn category_kill_leaves_other_category_intact() {
    let mut registry: Registry<u32> = Registry::new();
    let speech = key(1, 42, QueryCategory::Speech);
    let chart = key(1, 43, QueryCategory::Chart);
    registry.register(speech, 1);
    registry.register(chart, 2);
    let removed = registry.kill_category(UserId { id: 1 }, QueryCategory::Speech);
    assert_eq!(removed.len(), 1);
    assert_eq!(removed[0].query, speech);
    assert_eq!(removed[0].signal, 1);
    assert!(!registry.contains(&speech));
    assert!(registry.contains(&chart));
}

#[test]
fn same_connection_under_both_categories_is_two_entries() {
    let mut registry: Registry<u32> = Registry::new();
    let as_chart = key(1, 42, QueryCategory::Chart);
    let as_speech = key(1, 42, QueryCategory::Speech);
    registry.register(as_chart, 1);
    registry.register(as_speech, 2);
    assert!(registry.contains(&as_chart));
    assert!(registry.contains(&as_speech));
    let removed = registry.kill_category(UserId { id: 1 }, QueryCategory::Speech);
    assert_eq!(removed.len(), 1);
    assert_eq!(removed[0].signal, 2);
    assert!(registry.contains(&as_chart));
}

#[test]
fn deregistered_entry_is_not_killed() {
    // scenario: register, deregister, then kill the user
    let mut registry: Registry<u32> = Registry::new();
    let q = key(1, 42, QueryCategory::Chart);
    registry.register(q, 10);
    registry.deregister(&q);
    let removed = registry.kill_user(UserId { id: 1 });
    // the signal is never handed out, and no handle is returned to kill
    assert_eq!(removed.len(), 0);
}
