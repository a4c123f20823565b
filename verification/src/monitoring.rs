//! Timing commands, database queries and notifications for performance
//! monitoring.

use vstd::prelude::*;

verus! {

#[verifier::external_type_specification]
#[verifier::external_body]
pub struct ExInstant(std::time::Instant);

/// `std::time::Instant::now`.
///
/// Trusted only to return; nothing is claimed of the instant it reads.
#[verifier::external_body]
fn instant_now() -> std::time::Instant {
    std::time::Instant::now()
}

/// What a timer measures.
#[derive(Clone, Copy, Debug, PartialEq, Eq, Structural)]
pub enum TimerType {
    Command,
    Query,
    Notification,
}

/// Measures how long a command, query or notification takes, from the
/// moment it is created.
pub struct Timer {
    kind: TimerType,
    name: &'static str,
    start: std::time::Instant,
}

impl Timer {
    pub closed spec fn spec_kind(&self) -> TimerType {
        self.kind
    }

    pub closed spec fn spec_name(&self) -> Seq<char> {
        self.name@
    }

    /// The instant at which the timer was created.
    pub closed spec fn spec_start(&self) -> std::time::Instant {
        self.start
    }

    /// A timer for running the command called `name`.
    pub fn command(name: &'static str) -> (r: Timer)
        ensures
            r.spec_kind() == TimerType::Command,
            r.spec_name() == name@,
    {
        Timer { kind: TimerType::Command, name, start: instant_now() }
    }

    /// A timer for a database query, `name` describing it briefly.
    pub fn query(name: &'static str) -> (r: Timer)
        ensures
            r.spec_kind() == TimerType::Query,
            r.spec_name() == name@,
    {
        Timer { kind: TimerType::Query, name, start: instant_now() }
    }

    /// A timer for a step of notifying a keyword (`find`, `create`, `send`,
    /// `edit` or `delete`).
    pub fn notification(name: &'static str) -> (r: Timer)
        ensures
            r.spec_kind() == TimerType::Notification,
            r.spec_name() == name@,
    {
        Timer { kind: TimerType::Notification, name, start: instant_now() }
    }

    pub fn kind(&self) -> (r: TimerType)
        ensures
            r == self.spec_kind(),
    {
        self.kind
    }

    pub fn name(&self) -> (r: &'static str)
        ensures
            r@ == self.spec_name(),
    {
        self.name
    }

    /// When the timer was created.
    pub fn start(&self) -> (r: std::time::Instant)
        ensures
            r == self.spec_start(),
    {
        self.start
    }
}

/// Whether performance monitoring runs: exactly when an address for the
/// metrics server is configured.
pub fn init(prometheus_address: Option<&str>) -> (enabled: bool)
    ensures
        enabled == prometheus_address is Some,
{
    prometheus_address.is_some()
}

} // verus!
