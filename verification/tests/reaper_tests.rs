//! Tests of the reaper's message step over real tokio cancellation tokens:
//! which signals a kill fires, in what order relative to the forceful-kill
//! handles, and that a failing forceful kill leaves no trace behind.

use query_reaper::error::AppError;
use query_reaper::reaper::{process_message, Message};
use query_reaper::registry::{ActiveQuery, QueryCategory, Registry, UserId};
use tokio_util::sync::CancellationToken;

fn key(user: u128, conn_id: i32, category: QueryCategory) -> ActiveQuery {
    ActiveQuery { uuid: UserId { id: user }, conn_id, category }
}

#[test]
fn kill_fires_every_token_of_the_user_exactly_once() {
    let mut registry: Registry<CancellationToken> = Registry::new();
    let user = UserId { id: 1 };
    let tokens: Vec<CancellationToken> = (0..4).map(|_| CancellationToken::new()).collect();
    for (conn_id, token) in tokens.iter().enumerate() {
        let handles = process_message(
            &mut registry,
            Message::Register(key(1, conn_id as i32, QueryCategory::Chart), token.clone()),
        );
        assert!(handles.is_empty());
    }
    let other = CancellationToken::new();
    process_message(&mut registry, Message::Register(key(2, 9, QueryCategory::Chart), other.clone()));

    let handles = process_message(&mut registry, Message::Kill(user));
    let mut sorted = handles.clone();
    sorted.sort();
    assert_eq!(sorted, vec![0, 1, 2, 3]);
    for token in &tokens {
        assert!(token.is_cancelled());
    }
    assert!(!other.is_cancelled());
    // nothing of the user is left: a second kill fires nothing
    assert_eq!(process_message(&mut registry, Message::Kill(user)).len(), 0);
}

#[test]
fn category_kill_fires_only_that_category() {
    let mut registry: Registry<CancellationToken> = Registry::new();
    let chart_token = CancellationToken::new();
    let speech_token = CancellationToken::new();
    let chart = key(1, 42, QueryCategory::Chart);
    let speech = key(1, 43, QueryCategory::Speech);
    process_message(&mut registry, Message::Register(chart, chart_token.clone()));
    process_message(&mut registry, Message::Register(speech, speech_token.clone()));

    let handles = process_message(&mut registry, Message::KillCategory(UserId { id: 1 }, QueryCategory::Speech));
    assert_eq!(handles, vec![43]);
    assert!(speech_token.is_cancelled());
    assert!(!chart_token.is_cancelled());
    assert!(registry.contains(&chart));
    assert!(!registry.contains(&speech));
}

#[test]
fn signals_fire_before_any_forceful_kill_can_run() {
    let mut registry: Registry<CancellationToken> = Registry::new();
    let token = CancellationToken::new();
    process_message(&mut registry, Message::Register(key(1, 42, QueryCategory::Chart), token.clone()));

    let handles = process_message(&mut registry, Message::Kill(UserId { id: 1 }));
    // the handles have not been acted on yet — a slow or failing forceful
    // kill would start here — and the signal has already resolved
    assert!(token.is_cancelled());
    let mut kill_attempts: Vec<i32> = Vec::new();
    for handle in handles {
        // stand-in for a forceful kill that fails: nothing happens
        kill_attempts.push(handle);
    }
    assert_eq!(kill_attempts, vec![42]);
}

#[test]
fn failed_forceful_kill_still_clears_and_fires() {
    let mut registry: Registry<CancellationToken> = Registry::new();
    let token = CancellationToken::new();
    let q = key(1, 42, QueryCategory::Chart);
    process_message(&mut registry, Message::Register(q, token.clone()));

    // the caller drops the handles without killing anything, as it would
    // when the connection pool is exhausted
    let _ = process_message(&mut registry, Message::Kill(UserId { id: 1 }));
    assert!(token.is_cancelled());
    assert!(!registry.contains(&q));

    // the registry keeps processing messages afterwards
    let next_token = CancellationToken::new();
    process_message(&mut registry, Message::Register(q, next_token.clone()));
    assert!(registry.contains(&q));
    let handles = process_message(&mut registry, Message::Kill(UserId { id: 1 }));
    assert_eq!(handles, vec![42]);
    assert!(next_token.is_cancelled());
}

#[test]
fn deregistered_query_is_neither_fired_nor_killed() {
    // scenario: register, deregister, kill
    let mut registry: Registry<CancellationToken> = Registry::new();
    let token = CancellationToken::new();
    let q = key(1, 42, QueryCategory::Chart);
    process_message(&mut registry, Message::Register(q, token.clone()));
    process_message(&mut registry, Message::Deregister(q));

    let handles = process_message(&mut registry, Message::Kill(UserId { id: 1 }));
    assert!(handles.is_empty());
    assert!(!token.is_cancelled());
}

#[test]
fn category_kill_scenario_keeps_chart_entry() {
    // scenario: two registrations, then a speech-scoped kill
    let mut registry: Registry<CancellationToken> = Registry::new();
    let s1 = CancellationToken::new();
    let s2 = CancellationToken::new();
    let chart = key(1, 42, QueryCategory::Chart);
    let speech = key(1, 43, QueryCategory::Speech);
    process_message(&mut registry, Message::Register(chart, s1.clone()));
    process_message(&mut registry, Message::Register(speech, s2.clone()));

    process_message(&mut registry, Message::KillCategory(UserId { id: 1 }, QueryCategory::Speech));
    assert!(s2.is_cancelled());
    assert!(!s1.is_cancelled());
    assert!(registry.contains(&chart));
}

#[test]
fn unreachable_reaper_surfaces_as_generic_failure() {
    let (sender, receiver) = tokio::sync::mpsc::channel::<Message>(1);
    drop(receiver);
    let send_error = sender.blocking_send(Message::Kill(UserId { id: 1 })).unwrap_err();
    assert_eq!(AppError::from(send_error), AppError::GenericError);
}

#[test]
fn overwritten_signal_is_abandoned_not_fired() {
    // scenario: register, register again at the same key, kill
    let mut registry: Registry<CancellationToken> = Registry::new();
    let s1 = CancellationToken::new();
    let s2 = CancellationToken::new();
    let q = key(1, 42, QueryCategory::Chart);
    process_message(&mut registry, Message::Register(q, s1.clone()));
    process_message(&mut registry, Message::Register(q, s2.clone()));

    let handles = process_message(&mut registry, Message::Kill(UserId { id: 1 }));
    assert_eq!(handles, vec![42]);
    assert!(s2.is_cancelled());
    assert!(!s1.is_cancelled());

    // firing the abandoned signal afterwards has no observable effect on
    // the registry or on the survivor's state
    s1.cancel();
    assert!(!registry.contains(&q));
    assert!(s2.is_cancelled());
    assert_eq!(process_message(&mut registry, Message::Kill(UserId { id: 1 })).len(), 0);
}
