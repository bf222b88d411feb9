//! The notifier loop's decisions. The loop itself performs I/O — fetching a
//! snapshot over loopback and posting it to the webhook — so an outer layer
//! runs it: it hands each outcome in as an event and performs the action
//! decided here. Once enabled, the loop never stops on its own: every
//! failure is logged and the next cycle follows after the configured
//! interval, with no backoff.

use vstd::prelude::*;
use crate::config::Notification;

verus! {

/// What the running loop observed last.
pub enum NotifierEvent {
    /// The loop was just started.
    Started,
    /// The sleep between cycles elapsed.
    Slept,
    /// The snapshot self-query failed; the payload describes the failure.
    FetchFailed(String),
    /// The snapshot self-query succeeded; the payload is the snapshot body.
    FetchSucceeded(String),
    /// The webhook post failed; the payload describes the failure.
    PostFailed(String),
    /// The webhook post succeeded; the payload is the response body.
    PostSucceeded(String),
}

/// What the loop must do next.
pub enum NotifierAction {
    /// End the loop; decided only when the notifier is disabled.
    Stop,
    /// Query a fresh snapshot.
    Fetch,
    /// Post the carried snapshot body to the webhook.
    Post(String),
    /// Log the carried error to standard error, then sleep the carried
    /// number of milliseconds.
    LogErrorThenSleep(String, u64),
    /// Log the carried response body, then sleep the carried number of
    /// milliseconds.
    LogResponseThenSleep(String, u64),
}

/// The decision owed to each event: a disabled notifier stops at once;
/// otherwise a fresh or slept loop fetches, a fetched snapshot is posted,
/// and every outcome — success or failure — leads to a sleep of exactly
/// `interval` milliseconds before the next cycle.
pub open spec fn notifier_decision(enable: bool, interval: u64, ev: NotifierEvent) -> NotifierAction {
    if !enable {
        NotifierAction::Stop
    } else {
        match ev {
            NotifierEvent::Started => NotifierAction::Fetch,
            NotifierEvent::Slept => NotifierAction::Fetch,
            NotifierEvent::FetchFailed(e) => NotifierAction::LogErrorThenSleep(e, interval),
            NotifierEvent::FetchSucceeded(body) => NotifierAction::Post(body),
            NotifierEvent::PostFailed(e) => NotifierAction::LogErrorThenSleep(e, interval),
            NotifierEvent::PostSucceeded(body) => NotifierAction::LogResponseThenSleep(
                body,
                interval,
            ),
        }
    }
}

/// Decides the next action of the notifier loop.
pub fn notifier_step(config: &Notification, ev: NotifierEvent) -> (a: NotifierAction)
    ensures
        a == notifier_decision(config.enable, config.interval, ev),
{
    if !config.enable {
        return NotifierAction::Stop;
    }
    match ev {
        NotifierEvent::Started => NotifierAction::Fetch,
        NotifierEvent::Slept => NotifierAction::Fetch,
        NotifierEvent::FetchFailed(e) => NotifierAction::LogErrorThenSleep(e, config.interval),
        NotifierEvent::FetchSucceeded(body) => NotifierAction::Post(body),
        NotifierEvent::PostFailed(e) => NotifierAction::LogErrorThenSleep(e, config.interval),
        NotifierEvent::PostSucceeded(body) => NotifierAction::LogResponseThenSleep(
            body,
            config.interval,
        ),
    }
}

/// An enabled notifier never stops: a failed post or fetch is logged and the
/// loop tries again after exactly the configured interval.
pub proof fn lemma_notifier_never_stops(enable: bool, interval: u64, ev: NotifierEvent)
    requires
        enable,
    ensures
        notifier_decision(enable, interval, ev) != NotifierAction::Stop,
        ev matches NotifierEvent::FetchFailed(e) ==> notifier_decision(enable, interval, ev)
            == NotifierAction::LogErrorThenSleep(e, interval),
        ev matches NotifierEvent::PostFailed(e) ==> notifier_decision(enable, interval, ev)
            == NotifierAction::LogErrorThenSleep(e, interval),
{
}

} // verus!
