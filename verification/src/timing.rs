//! Timing of operations.

use std::time::Instant;
use vstd::prelude::*;

verus! {

/// `std::time::Instant`: a moment of a clock that never runs backwards.
#[verifier::external_type_specification]
#[verifier::external_body]
pub struct ExInstant(Instant);

/// A timer that knows when it was started and what it times.
pub struct Timer {
    label: String,
    start: Instant,
}

/// `Instant::now`: the current instant. Nothing is said of it.
#[verifier::external_body]
fn now() -> Instant {
    Instant::now()
}

/// `Instant::elapsed`, printed behind the label: the label, a colon and a
/// space, then the time since `start` in some form.
#[verifier::external_body]
fn elapsed_line(label: &String, start: &Instant) -> (line: String)
    ensures
        line@.len() >= label@.len() + 2,
        line@.subrange(0, (label@.len() + 2) as int) == label@ + ": "@,
{
    format!("{}: {:?}", label, start.elapsed())
}

impl Timer {
    /// The label of the timer.
    pub closed spec fn spec_label(&self) -> String {
        self.label
    }

    /// Creates a new Timer with the given label, started now.
    pub fn new<L: Into<String>>(label: L) -> (timer: Self)
        ensures
            call_ensures(L::into, (label,), timer.spec_label()),
    {
        let label = label.into();
        let start = now();
        Self { label, start }
    }

    /// The label.
    pub fn label(&self) -> (label: &str)
        ensures
            label@ == self.spec_label()@,
    {
        self.label.as_str()
    }

    /// The line that reports the time since the timer was started: the
    /// label, a colon and a space, then the time.
    pub fn report(&self) -> (line: String)
        ensures
            line@.len() >= self.spec_label()@.len() + 2,
            line@.subrange(0, (self.spec_label()@.len() + 2) as int) == self.spec_label()@ + ": "@,
    {
        elapsed_line(&self.label, &self.start)
    }
}

} // verus!
