//! The decision logic of the disposable-database health probe: a bounded
//! retry policy with a fixed interval and a periodic progress notice. The
//! caller performs the probe itself (a subprocess) and feeds each result
//! back; this module only decides what to do next.
use vstd::prelude::*;

verus! {

/// How many times the health probe is retried before giving up.
pub const MAX_HEALTHCHECK_RETRIES: u64 = 120;

/// How long the caller waits between two probes, in milliseconds.
pub const MS_PER_RETRY: u64 = 1000;

/// How often a progress notice is due: after every this many retries.
pub const RETRIES_PER_NOTICE: u64 = 10;

/// What the caller must do after one health probe.
#[derive(Debug, PartialEq, Eq, Structural)]
pub enum HealthcheckStep {
    /// The database answered: setup is done.
    Ready,
    /// The retry budget is exhausted: give up.
    GiveUp,
    /// Wait for the fixed interval and probe again, with the new retry
    /// count; `notify` asks for a progress notice first.
    Retry { nb_retries: u64, notify: bool },
}

/// Decides what follows one health probe: an answering database ends the
/// wait; otherwise the probe is retried until `max_retries` probes have
/// failed, with a progress notice after every `RETRIES_PER_NOTICE`th
/// retry.
pub fn healthcheck_step(healthy: bool, nb_retries: u64, max_retries: u64) -> (r: HealthcheckStep)
    ensures
        healthy ==> r == HealthcheckStep::Ready,
        (!healthy && nb_retries >= max_retries) ==> r == HealthcheckStep::GiveUp,
        (!healthy && nb_retries < max_retries) ==> r == (HealthcheckStep::Retry {
            nb_retries: (nb_retries + 1) as u64,
            notify: ((nb_retries + 1) as u64) % RETRIES_PER_NOTICE == 0,
        }),
{
    if healthy {
        HealthcheckStep::Ready
    } else if nb_retries >= max_retries {
        HealthcheckStep::GiveUp
    } else {
        let next = nb_retries + 1;
        HealthcheckStep::Retry { nb_retries: next, notify: next % RETRIES_PER_NOTICE == 0 }
    }
}

} // verus!
