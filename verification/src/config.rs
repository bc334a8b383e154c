//! Run configuration and the explicit logging context.
//!
//! Log records must be attributable to the run that produced them, so the
//! target is carried explicitly in a [`LogContext`] value instead of living
//! in process-wide state.  The context is written once at the start of a run
//! and read thereafter.

use vstd::prelude::*;

verus! {

/// Configuration for one reconciliation run: where the declarative state
/// lives and how to authenticate against it.
pub struct KeyhouseConf {
    pub base_url: String,
    pub token: String,
}

/// The logging context of a run: a target string set exactly once.
pub struct LogContext {
    target: Option<String>,
}

impl LogContext {
    pub closed spec fn target_set(&self) -> bool {
        self.target is Some
    }

    pub closed spec fn spec_target(&self) -> Seq<char> {
        self.target->Some_0@
    }

    /// A fresh context with no target yet.
    pub fn new() -> (r: LogContext)
        ensures
            !r.target_set(),
    {
        LogContext { target: None }
    }

    /// Whether a target has been set.
    pub fn target_is_set(&self) -> (r: bool)
        ensures
            r == self.target_set(),
    {
        self.target.is_some()
    }

    /// Sets the log target.  The target can be set only once per run.
    pub fn set_log_target(&mut self, log_target: String)
        requires
            !old(self).target_set(),
        ensures
            final(self).target_set(),
            final(self).spec_target() == log_target@,
    {
        self.target = Some(log_target);
    }

    /// Reads the log target set earlier in the run.
    pub fn get_log_target(&self) -> (r: &str)
        requires
            self.target_set(),
        ensures
            r@ == self.spec_target(),
    {
        match &self.target {
            Some(t) => t.as_str(),
            None => "",
        }
    }
}

} // verus!
