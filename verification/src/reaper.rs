//! The reaper's message protocol and its serialized message step.
//!
//! Handlers send [`Message`]s over a channel; a single consuming loop applies
//! them, one at a time, to a [`Registry`] of in-flight queries whose signals
//! are tokio cancellation tokens. The step for a kill fires every targeted
//! signal first and only then hands the caller the connection handles for the
//! forceful server-side kill: a handler racing its database call against its
//! signal therefore observes a clean cancellation, never an ambiguous
//! driver error from a connection killed under it. The forceful kill itself
//! is the caller's best-effort duty; whether it succeeds or fails, the
//! registry state and the fired signals are already settled.

use vstd::prelude::*;

use crate::registry::{
    distinct_keys, seq_contains_key, targeted, targeted_keys, ActiveQuery, Entry, QueryCategory,
    Registry, UserId,
};
use tokio_util::sync::CancellationToken;

verus! {

/// tokio_util's one-shot, broadcastable cancellation trigger: pending until
/// cancelled, observed by the handler that registered it.
#[verifier::external_type_specification]
#[verifier::external_body]
pub struct ExCancellationToken(CancellationToken);

/// Relies on tokio_util::sync::CancellationToken::cancel: fires the one-shot
/// token, waking every task waiting on it; firing an already-cancelled token
/// is a no-op.
pub assume_specification[ tokio_util::sync::CancellationToken::cancel ](
    token: &CancellationToken,
);

/// One message of the reaper's inbound channel.
pub enum Message {
    /// The handler is starting a killable query: track it under its key,
    /// overwriting whatever entry was there.
    Register(ActiveQuery, CancellationToken),
    /// The handler is done with its query: drop the entry if it is still
    /// tracked.
    Deregister(ActiveQuery),
    /// Kill every query of the user, regardless of category.
    Kill(UserId),
    /// Kill only the user's queries of the one category, leaving the other
    /// category's queries running.
    KillCategory(UserId, QueryCategory),
}

/// What a processed kill accounts for: `removed` lists — each key exactly
/// once — the entries of `m` that a kill for `user`, scoped to `category`,
/// targets, and `handles` their connection handles in the same order.
pub open spec fn kill_receipt<S>(
    m: Map<ActiveQuery, S>,
    user: UserId,
    category: Option<QueryCategory>,
    removed: Seq<Entry<S>>,
    handles: Seq<i32>,
) -> bool {
    &&& distinct_keys(removed)
    &&& forall|i: int|
        0 <= i < removed.len() ==> targeted((#[trigger] removed[i]).query, user, category)
            && m.contains_key(removed[i].query) && m[removed[i].query] == removed[i].signal
    &&& forall|k: ActiveQuery|
        #[trigger] m.contains_key(k) && targeted(k, user, category) ==> seq_contains_key(
            removed,
            k,
        )
    &&& handles.len() == removed.len()
    &&& forall|i: int|
        0 <= i < removed.len() ==> handles[i] == (#[trigger] removed[i]).query.conn_id
}

/// Fires the signal of every entry — once per entry — and returns the
/// entries' connection handles, in order. Every signal is fired before the
/// function returns, hence before any caller can act on a handle.
pub fn fire_signals(removed: &Vec<Entry<CancellationToken>>) -> (handles: Vec<i32>)
    ensures
        handles@.len() == removed@.len(),
        forall|i: int|
            0 <= i < removed@.len() ==> handles@[i] == (#[trigger] removed@[i]).query.conn_id,
{
    let mut handles: Vec<i32> = Vec::new();
    let mut i: usize = 0;
    while i < removed.len()
        invariant
            i <= removed@.len(),
            handles@.len() == i,
            forall|j: int| 0 <= j < i ==> handles@[j] == (#[trigger] removed@[j]).query.conn_id,
        decreases removed@.len() - i,
    {
        removed[i].signal.cancel();
        handles.push(removed[i].query.conn_id);
        i += 1;
    }
    handles
}

/// Applies one message to the registry, exactly as the reaper's serialized
/// loop does, and returns the connection handles the caller must then — and
/// only then — try to kill server-side (empty except for kills).
///
/// For a kill, the signals of every targeted entry have already been fired,
/// each exactly once, by the time this returns, and the entries are removed
/// whatever becomes of the forceful kill: a failing or skipped kill (as under
/// pool exhaustion) leaves no trace in the registry, which simply processes
/// the next message.
pub fn process_message(registry: &mut Registry<CancellationToken>, message: Message) -> (handles:
    Vec<i32>)
    requires
        old(registry).inv(),
    ensures
        final(registry).inv(),
        match message {
            Message::Register(query, signal) => final(registry)@ == old(registry)@.insert(
                query,
                signal,
            ) && handles@.len() == 0,
            Message::Deregister(query) => final(registry)@ == old(registry)@.remove(query)
                && handles@.len() == 0,
            Message::Kill(user) => final(registry)@ == old(registry)@.remove_keys(
                targeted_keys(old(registry)@, user, None),
            ) && (exists|removed: Seq<Entry<CancellationToken>>|
                #[trigger] kill_receipt(old(registry)@, user, None, removed, handles@)),
            Message::KillCategory(user, category) => final(registry)@ == old(registry)@.remove_keys(
                targeted_keys(old(registry)@, user, Some(category)),
            ) && (exists|removed: Seq<Entry<CancellationToken>>|
                #[trigger] kill_receipt(old(registry)@, user, Some(category), removed, handles@)),
        },
{
    match message {
        Message::Register(query, signal) => {
            registry.register(query, signal);
            Vec::new()
        },
        Message::Deregister(query) => {
            registry.deregister(&query);
            Vec::new()
        },
        Message::Kill(user) => {
            let removed = registry.kill_user(user);
            let handles = fire_signals(&removed);
            proof {
                assert(kill_receipt(old(registry)@, user, None, removed@, handles@));
            }
            handles
        },
        Message::KillCategory(user, category) => {
            let removed = registry.kill_category(user, category);
            let handles = fire_signals(&removed);
            proof {
                assert(kill_receipt(old(registry)@, user, Some(category), removed@, handles@));
            }
            handles
        },
    }
}

} // verus!
