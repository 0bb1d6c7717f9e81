//! The supervision of the aria2 process: when a health check may restart
//! it, and what the health loop reports.

use crate::aria2::error::Error;
use crate::text::owned;
use vstd::prelude::*;

verus! {

/// Restarts that are tried before the cooldown must pass.
pub const MAX_RESTART_ATTEMPTS: u32 = 3;

/// Seconds between two health checks.
pub const HEALTH_CHECK_INTERVAL_SECS: u64 = 5;

/// Milliseconds after the last restart that reset the count of restarts.
pub const RESTART_COOLDOWN_MS: u64 = 30_000;

/// Attempts to connect to a process that was started.
pub const CONNECT_ATTEMPTS: u32 = 5;

/// What the supervisor tells the front end.
#[derive(Debug)]
pub enum SupervisorEvent {
    HealthCheckPassed,
    HealthCheckFailed { error: String, restart_count: u32 },
    Restarting { attempt: u32 },
    MaxRestartsReached,
    Stopped,
}

/// The books of the supervisor.
#[derive(Clone, Copy, Debug, PartialEq, Eq, Structural)]
pub struct RestartPolicy {
    pub restart_count: u32,
    /// When the process was last restarted, in milliseconds.
    pub last_restart_ms: Option<u64>,
    pub is_shutting_down: bool,
}

/// Milliseconds from `earlier` to `now`, zero if the clock went back.
pub open spec fn elapsed(now: u64, earlier: u64) -> u64 {
    if now >= earlier {
        (now - earlier) as u64
    } else {
        0
    }
}

impl RestartPolicy {
    pub fn new() -> (p: RestartPolicy)
        ensures
            p == (RestartPolicy {
                restart_count: 0,
                last_restart_ms: None,
                is_shutting_down: false,
            }),
    {
        RestartPolicy { restart_count: 0, last_restart_ms: None, is_shutting_down: false }
    }

    /// Why the process may not be looked after at `now`, if it may not: the
    /// supervisor is shutting down, or the restarts are used up and the
    /// cooldown has not passed.
    pub open spec fn refusal(&self, now_ms: u64) -> Option<Seq<char>> {
        if self.is_shutting_down {
            Some("Supervisor is shutting down"@)
        } else if self.last_restart_ms matches Some(last) && elapsed(now_ms, last)
            < RESTART_COOLDOWN_MS && self.restart_count >= MAX_RESTART_ATTEMPTS {
            Some("Too many restart attempts, waiting for cooldown"@)
        } else {
            None
        }
    }

    /// Decides at `now` whether the process may be looked after. Once the
    /// cooldown has passed since the last restart the count of restarts
    /// begins anew.
    pub fn begin_check(&mut self, now_ms: u64) -> (r: Result<(), Error>)
        ensures
            match r {
                Ok(_) => old(self).refusal(now_ms) is None,
                Err(e) => old(self).refusal(now_ms) == Some(e@->Aria2_0) && e@ is Aria2 && *final(self) == *old(self),
            },
            r is Ok ==> *final(self) == (RestartPolicy {
                restart_count: if old(self).last_restart_ms matches Some(last) && elapsed(
                    now_ms,
                    last,
                ) >= RESTART_COOLDOWN_MS {
                    0
                } else {
                    old(self).restart_count
                },
                ..*old(self)
            }),
    {
        if self.is_shutting_down {
            return Err(Error::Aria2(owned("Supervisor is shutting down")));
        }
        match self.last_restart_ms {
            Some(last) => {
                let gone: u64 = if now_ms >= last {
                    now_ms - last
                } else {
                    0
                };
                if gone < RESTART_COOLDOWN_MS && self.restart_count >= MAX_RESTART_ATTEMPTS {
                    return Err(
                        Error::Aria2(owned("Too many restart attempts, waiting for cooldown")),
                    );
                }
                if gone >= RESTART_COOLDOWN_MS {
                    self.restart_count = 0;
                }
            },
            None => {},
        }
        Ok(())
    }

    /// Notes at `now` that the health check failed and the process is
    /// restarted; answers with the number of the attempt.
    pub fn begin_restart(&mut self, now_ms: u64) -> (attempt: u32)
        ensures
            attempt == final(self).restart_count,
            *final(self) == (RestartPolicy {
                restart_count: if old(self).restart_count < u32::MAX {
                    (old(self).restart_count + 1) as u32
                } else {
                    u32::MAX
                },
                last_restart_ms: Some(now_ms),
                ..*old(self)
            }),
    {
        if self.restart_count < u32::MAX {
            self.restart_count = self.restart_count + 1;
        }
        self.last_restart_ms = Some(now_ms);
        self.restart_count
    }

    /// Begins the shutdown: from now on nothing is restarted.
    pub fn begin_shutdown(&mut self)
        ensures
            *final(self) == (RestartPolicy { is_shutting_down: true, ..*old(self) }),
    {
        self.is_shutting_down = true;
    }

    /// The count of restarts since the last cooldown.
    pub fn get_restart_count(&self) -> (r: u32)
        ensures
            r == self.restart_count,
    {
        self.restart_count
    }
}

/// Milliseconds to wait after connection attempt `attempt` (from 1) has
/// failed.
pub fn connect_retry_delay_ms(attempt: u32) -> (r: u64)
    ensures
        r == 200 * attempt,
{
    200 * (attempt as u64)
}

/// What the health loop reports after one round: that the check passed, or
/// that it failed with the error and the count of restarts, and then that
/// the restarts are used up if they are.
pub fn health_events(failure: Option<String>, restart_count: u32) -> (r: Vec<SupervisorEvent>)
    ensures
        match failure {
            None => r@.len() == 1 && r@[0] is HealthCheckPassed,
            Some(text) => {
                &&& r@.len() == if restart_count >= MAX_RESTART_ATTEMPTS {
                    2int
                } else {
                    1int
                }
                &&& r@[0] matches SupervisorEvent::HealthCheckFailed { error, restart_count: n }
                &&& error == text
                &&& n == restart_count
                &&& restart_count >= MAX_RESTART_ATTEMPTS ==> r@[1] is MaxRestartsReached
            },
        },
{
    let mut out: Vec<SupervisorEvent> = Vec::new();
    match failure {
        None => {
            out.push(SupervisorEvent::HealthCheckPassed);
        },
        Some(error) => {
            out.push(SupervisorEvent::HealthCheckFailed { error, restart_count });
            if restart_count >= MAX_RESTART_ATTEMPTS {
                out.push(SupervisorEvent::MaxRestartsReached);
            }
        },
    }
    out
}

} // verus!
