//! Which provider a request goes to, and what its outcome means for the
//! provider.

use vstd::prelude::*;

use crate::config::{target_views, TargetView, VirtualModelTarget};
use crate::state::{
    find_provider, lemma_find_provider, pool, position, set_health, with_health, CircuitState,
    Health, ProviderState, ProviderView,
};

verus! {

/// The nanoseconds of a second.
pub const SECOND: u64 = 1_000_000_000;

/// As many failures in a row open the circuit.
pub const FAILURES_TO_OPEN: u32 = 3;

/// For how many seconds they open it.
pub const COOLDOWN_SECS: u64 = 60;

/// For how many seconds a failed probe opens it again.
pub const PROBE_COOLDOWN_SECS: u64 = 120;

/// The clock reading `seconds` after `now`.
pub open spec fn later(now: u64, seconds: u64) -> u128 {
    (now + seconds * SECOND) as u128
}

/// Computes the clock reading `seconds` after `now`.
pub fn deadline(now: u64, seconds: u64) -> (t: u128)
    ensures
        t == later(now, seconds),
        t == now + seconds * SECOND,
{
    assert(seconds * SECOND <= u64::MAX * 1_000_000_000) by (nonlinear_arith)
        requires
            seconds <= u64::MAX,
            SECOND == 1_000_000_000,
    ;
    now as u128 + seconds as u128 * SECOND as u128
}

impl Health {
    /// Whether the provider asked to be left alone at `now`.
    pub open spec fn limited(self, now: u64) -> bool {
        match self.rate_limited_until {
            Some(until) => now < until,
            None => false,
        }
    }

    /// Whether the circuit is open at `now`, its cooldown not over.
    pub open spec fn tripped(self, now: u64) -> bool {
        match self.circuit {
            CircuitState::Open { until } => now < until,
            _ => false,
        }
    }

    /// Whether the provider may be chosen at `now`. While its circuit is not
    /// closed, only one request at a time may try it.
    pub open spec fn available(self, now: u64) -> bool {
        &&& !self.manual_disabled
        &&& !self.limited(now)
        &&& !self.tripped(now)
        &&& self.circuit is Closed || !self.probe_in_flight
    }

    /// The provider once it was chosen at `now`.
    pub open spec fn chosen(self, now: u64) -> Health {
        if self.circuit is Closed {
            Health { last_attempt_time: Some(now), ..self }
        } else {
            Health {
                circuit: CircuitState::HalfOpen,
                probe_in_flight: true,
                last_attempt_time: Some(now),
                ..self
            }
        }
    }

    /// Says whether the provider asked to be left alone at `now`.
    pub fn is_limited(&self, now: u64) -> (yes: bool)
        ensures
            yes == self.limited(now),
    {
        match self.rate_limited_until {
            Some(until) => (now as u128) < until,
            None => false,
        }
    }

    /// Says whether the circuit is open at `now`.
    pub fn is_tripped(&self, now: u64) -> (yes: bool)
        ensures
            yes == self.tripped(now),
    {
        match self.circuit {
            CircuitState::Open { until } => (now as u128) < until,
            CircuitState::Closed => false,
            CircuitState::HalfOpen => false,
        }
    }

    fn is_closed(&self) -> (yes: bool)
        ensures
            yes == (self.circuit is Closed),
    {
        match self.circuit {
            CircuitState::Closed => true,
            CircuitState::Open { .. } => false,
            CircuitState::HalfOpen => false,
        }
    }

    /// Says whether the provider may be chosen at `now`.
    pub fn is_available(&self, now: u64) -> (yes: bool)
        ensures
            yes == self.available(now),
    {
        !self.manual_disabled && !self.is_limited(now) && !self.is_tripped(now) && (self.is_closed()
            || !self.probe_in_flight)
    }

    /// The provider once it was chosen at `now`.
    fn choose_at(&self, now: u64) -> (h: Health)
        ensures
            h == self.chosen(now),
    {
        let mut h = *self;
        h.last_attempt_time = Some(now);
        if !self.is_closed() {
            h.circuit = CircuitState::HalfOpen;
            h.probe_in_flight = true;
        }
        h
    }
}

/// What became of an attempt.
#[derive(Debug, Clone, Copy, PartialEq, Eq, Structural)]
pub struct Report {
    pub success: bool,
    /// Whether the attempt was the one that probed the provider.
    pub is_probe: bool,
    /// The status that the provider answered with, if it answered.
    pub status: Option<u16>,
    /// For how many seconds the provider asked to be left alone, if it did.
    pub retry_after: Option<u64>,
}

/// Whether a status says that a provider has too much to do, or that it is out
/// of order.
pub open spec fn is_overload(status: u16) -> bool {
    status == 429 || 500 <= status <= 599
}

/// Prefers the first candidate that may be chosen, and learns from what
/// becomes of the attempts.
#[derive(Debug, Clone, Copy)]
pub struct AdaptivePriorityStrategy;

/// What was chosen.
#[derive(Debug, Clone, Copy, PartialEq, Eq, Structural)]
pub struct Selected {
    /// Its position among the candidates.
    pub candidate: usize,
    /// The position of its provider in the pool.
    pub provider: usize,
    /// Whether the attempt probes the provider.
    pub is_probe: bool,
}

/// Whether the candidate may be chosen at `now`.
pub open spec fn is_open_to(providers: Seq<ProviderView>, candidate: TargetView, now: u64) -> bool {
    match find_provider(providers, candidate.provider, 0) {
        Some(p) => providers[p].health.available(now),
        None => false,
    }
}

/// The position, from `from` on, of the first candidate that may be chosen.
pub open spec fn first_available(
    providers: Seq<ProviderView>,
    candidates: Seq<TargetView>,
    from: int,
    now: u64,
) -> Option<int>
    decreases candidates.len() - from,
{
    if from < 0 || from >= candidates.len() {
        None
    } else if is_open_to(providers, candidates[from], now) {
        Some(from)
    } else {
        first_available(providers, candidates, from + 1, now)
    }
}

/// The pool once the provider of a candidate was chosen at `now`.
pub open spec fn pool_chosen(
    providers: Seq<ProviderView>,
    candidate: TargetView,
    now: u64,
) -> Seq<ProviderView> {
    match find_provider(providers, candidate.provider, 0) {
        Some(p) => with_health(providers, p, providers[p].health.chosen(now)),
        None => providers,
    }
}

impl AdaptivePriorityStrategy {
    /// Chooses the first candidate, from `from` on, that may be chosen. Where
    /// its circuit is not closed, the attempt probes the provider, and nobody
    /// else may choose it until the outcome is reported.
    pub fn select(
        &self,
        providers: &mut Vec<ProviderState>,
        candidates: &Vec<VirtualModelTarget>,
        from: usize,
        now: u64,
    ) -> (r: Option<Selected>)
        ensures
            match first_available(pool(old(providers)@), target_views(candidates@), from as int, now) {
                Some(i) => {
                    let c = target_views(candidates@)[i];
                    let p = find_provider(pool(old(providers)@), c.provider, 0)->0;
                    &&& r is Some
                    &&& r->0.candidate == i
                    &&& from <= i < candidates@.len()
                    &&& find_provider(pool(old(providers)@), c.provider, 0) == Some(p)
                    &&& r->0.provider == p
                    &&& 0 <= p < old(providers)@.len() == final(providers)@.len()
                    &&& r->0.is_probe == !(pool(old(providers)@)[p].health.circuit is Closed)
                    &&& pool(final(providers)@) == pool_chosen(pool(old(providers)@), c, now)
                },
                None => r is None && *final(providers) == *old(providers),
            },
    {
        let ghost start = pool(providers@);
        let ghost targets = target_views(candidates@);
        let mut i: usize = from;
        while i < candidates.len()
            invariant
                from <= i,
                *providers == *old(providers),
                start == pool(providers@),
                targets == target_views(candidates@),
                start == pool(old(providers)@),
                first_available(start, targets, from as int, now) == first_available(
                    start,
                    targets,
                    i as int,
                    now,
                ),
            decreases candidates@.len() - i,
        {
            assert(targets[i as int] == candidates@[i as int]@);
            match position(providers, candidates[i].provider.as_str()) {
                Some(p) => {
                    assert(start[p as int] == providers@[p as int]@);
                    let h = providers[p].health;
                    if h.is_available(now) {
                        let is_probe = !h.is_closed();
                        let next = h.choose_at(now);
                        set_health(providers, p, next);
                        assert(pool(providers@).len() == start.len());
                        return Some(Selected { candidate: i, provider: p, is_probe });
                    }
                },
                None => {},
            }
            i += 1;
        }
        None
    }

    /// How a provider is doing after an attempt that was reported at `now`.
    pub open spec fn learned(self, h: Health, report: Report, now: u64) -> Health {
        if report.success {
            if report.is_probe {
                Health {
                    circuit: CircuitState::Closed,
                    consecutive_failures: 0,
                    probe_in_flight: false,
                    ..h
                }
            } else {
                Health { consecutive_failures: 0, ..h }
            }
        } else {
            let failures: u32 = if h.consecutive_failures == u32::MAX {
                u32::MAX
            } else {
                (h.consecutive_failures + 1) as u32
            };
            let limited = match (report.status, report.retry_after) {
                (Some(status), Some(seconds)) => if is_overload(status) {
                    Some(later(now, seconds))
                } else {
                    h.rate_limited_until
                },
                _ => h.rate_limited_until,
            };
            let h = Health { consecutive_failures: failures, rate_limited_until: limited, ..h };
            if report.is_probe {
                Health {
                    circuit: CircuitState::Open { until: later(now, PROBE_COOLDOWN_SECS) },
                    probe_in_flight: false,
                    ..h
                }
            } else if failures >= FAILURES_TO_OPEN {
                Health { circuit: CircuitState::Open { until: later(now, COOLDOWN_SECS) }, ..h }
            } else {
                h
            }
        }
    }

    /// Learns what became of an attempt.
    ///
    /// A success ends the run of failures, and closes the circuit if the
    /// attempt probed the provider. A failure lengthens the run; a probe that
    /// fails, or three failures in a row, open the circuit. Where an overloaded
    /// provider asked to be left alone, it is.
    pub fn feedback(&self, health: Health, report: Report, now: u64) -> (h: Health)
        ensures
            h == self.learned(health, report, now),
    {
        let mut h = health;
        if report.success {
            h.consecutive_failures = 0;
            if report.is_probe {
                h.circuit = CircuitState::Closed;
                h.probe_in_flight = false;
            }
            return h;
        }
        if h.consecutive_failures < u32::MAX {
            h.consecutive_failures += 1;
        }
        match (report.status, report.retry_after) {
            (Some(status), Some(seconds)) => {
                if status == 429 || (500 <= status && status <= 599) {
                    h.rate_limited_until = Some(deadline(now, seconds));
                }
            },
            _ => {},
        }
        if report.is_probe {
            h.circuit = CircuitState::Open { until: deadline(now, PROBE_COOLDOWN_SECS) };
            h.probe_in_flight = false;
        } else if h.consecutive_failures >= FAILURES_TO_OPEN {
            h.circuit = CircuitState::Open { until: deadline(now, COOLDOWN_SECS) };
        }
        h
    }
}

/// What is chosen may be chosen, and nothing that is preferred to it may be.
pub proof fn law_first_available_is_preferred(
    providers: Seq<ProviderView>,
    candidates: Seq<TargetView>,
    from: int,
    now: u64,
)
    requires
        0 <= from,
    ensures
        match first_available(providers, candidates, from, now) {
            Some(i) => {
                &&& from <= i < candidates.len()
                &&& is_open_to(providers, candidates[i], now)
                &&& forall|j: int|
                    from <= j < i ==> !is_open_to(providers, #[trigger] candidates[j], now)
            },
            None => forall|j: int|
                from <= j < candidates.len() ==> !is_open_to(
                    providers,
                    #[trigger] candidates[j],
                    now,
                ),
        },
    decreases candidates.len() - from,
{
    if from < candidates.len() && !is_open_to(providers, candidates[from], now) {
        law_first_available_is_preferred(providers, candidates, from + 1, now);
    }
}

/// A provider that is taken offline, rate limited or in its cooldown is
/// bypassed.
pub proof fn law_unhealthy_is_bypassed(h: Health, now: u64)
    ensures
        h.manual_disabled || h.limited(now) || h.tripped(now) ==> !h.available(now),
{
}

/// While a provider is probed nobody else may choose it, however long the probe
/// takes and whatever other attempts report meanwhile; once the probe is
/// reported, it is not being probed any more.
pub proof fn law_one_probe_at_a_time(
    strategy: AdaptivePriorityStrategy,
    h: Health,
    report: Report,
    now: u64,
    t: u64,
)
    ensures
        !(h.circuit is Closed) ==> h.chosen(now).probe_in_flight && !(h.chosen(now).circuit is Closed),
        h.probe_in_flight && !(h.circuit is Closed) ==> !h.available(t),
        h.probe_in_flight && !(h.circuit is Closed) && !report.is_probe ==> {
            let after = strategy.learned(h, report, now);
            after.probe_in_flight && !(after.circuit is Closed) && !after.available(t)
        },
        report.is_probe ==> !strategy.learned(h, report, now).probe_in_flight,
{
}

/// A probe that succeeds makes the provider healthy.
pub proof fn law_probe_success_closes(
    strategy: AdaptivePriorityStrategy,
    h: Health,
    report: Report,
    now: u64,
)
    requires
        report.success,
        report.is_probe,
    ensures
        strategy.learned(h, report, now).circuit is Closed,
        strategy.learned(h, report, now).consecutive_failures == 0,
        !strategy.learned(h, report, now).probe_in_flight,
{
}

/// A probe that fails keeps the provider from being chosen for longer than three
/// failures do.
pub proof fn law_probe_failure_reopens(
    strategy: AdaptivePriorityStrategy,
    h: Health,
    report: Report,
    now: u64,
    t: u64,
)
    requires
        !report.success,
        report.is_probe,
        t < now + 120_000_000_000,
    ensures
        strategy.learned(h, report, now).circuit is Open,
        strategy.learned(h, report, now).circuit->until == now + 120_000_000_000,
        strategy.learned(h, report, now).circuit->until > now + 60_000_000_000,
        !strategy.learned(h, report, now).available(t),
        !strategy.learned(h, report, now).probe_in_flight,
        h.consecutive_failures < u32::MAX ==> strategy.learned(h, report, now).consecutive_failures
            == h.consecutive_failures + 1,
{
    lemma_later(now, PROBE_COOLDOWN_SECS);
    lemma_later(now, COOLDOWN_SECS);
}

proof fn lemma_later(now: u64, seconds: u64)
    ensures
        later(now, seconds) == now + seconds * SECOND,
{
    assert(seconds * SECOND <= u64::MAX * 1_000_000_000) by (nonlinear_arith)
        requires
            seconds <= u64::MAX,
            SECOND == 1_000_000_000,
    ;
}

/// Three failures in a row, none of them a probe, keep a provider from being
/// chosen for sixty seconds after the last.
pub proof fn law_three_failures_open(
    strategy: AdaptivePriorityStrategy,
    h: Health,
    first: Report,
    second: Report,
    third: Report,
    t1: u64,
    t2: u64,
    t3: u64,
    t: u64,
)
    requires
        !first.success && !first.is_probe,
        !second.success && !second.is_probe,
        !third.success && !third.is_probe,
        t < t3 + 60_000_000_000,
    ensures
        ({
            let h1 = strategy.learned(h, first, t1);
            let h2 = strategy.learned(h1, second, t2);
            let h3 = strategy.learned(h2, third, t3);
            &&& h3.circuit is Open
            &&& h3.circuit->until == t3 + 60_000_000_000
            &&& !h3.available(t)
        }),
{
    lemma_later(t3, 60);
}

/// Once the cooldown is over, a provider that is neither offline nor rate
/// limited nor being probed may be chosen again, and is then probed.
pub proof fn law_cooldown_ends_in_probe(h: Health, until: u128, now: u64)
    requires
        h.circuit == (CircuitState::Open { until }),
        until <= now,
        !h.manual_disabled,
        !h.limited(now),
        !h.probe_in_flight,
    ensures
        h.available(now),
        h.chosen(now).circuit is HalfOpen,
        h.chosen(now).probe_in_flight,
{
}

/// A provider that is overloaded and asks to be left alone for some seconds is
/// limited for exactly as many.
pub proof fn law_retry_after_is_exact(
    strategy: AdaptivePriorityStrategy,
    h: Health,
    report: Report,
    now: u64,
)
    requires
        !report.success,
        report.status is Some,
        report.status->0 == 429 || 500 <= report.status->0 <= 599,
        report.retry_after is Some,
    ensures
        strategy.learned(h, report, now).rate_limited_until is Some,
        strategy.learned(h, report, now).rate_limited_until->0 == now + report.retry_after->0
            * 1_000_000_000,
{
    lemma_later(now, report.retry_after->0);
}

/// A provider that is overloaded and asks to be left alone for some seconds is
/// not chosen for as long.
pub proof fn law_retry_after_is_kept(
    strategy: AdaptivePriorityStrategy,
    h: Health,
    report: Report,
    now: u64,
    t: u64,
)
    requires
        !report.success,
        report.status is Some,
        report.status->0 == 429 || 500 <= report.status->0 <= 599,
        report.retry_after is Some,
        t < now + report.retry_after->0 * 1_000_000_000,
    ensures
        strategy.learned(h, report, now).rate_limited_until is Some,
        strategy.learned(h, report, now).rate_limited_until->0 == now + report.retry_after->0
            * 1_000_000_000,
        strategy.learned(h, report, now).limited(t),
        !strategy.learned(h, report, now).available(t),
{
    lemma_later(now, report.retry_after->0);
}

/// A success ends the run of failures.
pub proof fn law_success_forgives(
    strategy: AdaptivePriorityStrategy,
    h: Health,
    report: Report,
    now: u64,
)
    requires
        report.success,
    ensures
        strategy.learned(h, report, now).consecutive_failures == 0,
{
}

/// Neither a choice nor a report brings a provider back that was taken offline.
pub proof fn law_offline_lasts(
    strategy: AdaptivePriorityStrategy,
    h: Health,
    report: Report,
    now: u64,
    t: u64,
)
    requires
        h.manual_disabled,
    ensures
        !h.available(t),
        h.chosen(now).manual_disabled,
        strategy.learned(h, report, now).manual_disabled,
{
}

/// A provider may be chosen exactly while nobody took it offline, the time for
/// which it asked to be left alone is over, and its circuit is closed, or else
/// its cooldown is over and nobody probes it.
pub proof fn law_who_may_be_chosen(h: Health, now: u64)
    ensures
        h.available(now) <==> {
            &&& !h.manual_disabled
            &&& h.rate_limited_until is None || h.rate_limited_until->0 <= now
            &&& match h.circuit {
                CircuitState::Closed => true,
                CircuitState::HalfOpen => !h.probe_in_flight,
                CircuitState::Open { until } => until <= now && !h.probe_in_flight,
            }
        },
        h.limited(now) <==> h.rate_limited_until is Some && now < h.rate_limited_until->0,
        h.tripped(now) <==> h.circuit is Open && now < h.circuit->until,
{
}

/// Nothing but a choice, a report or an administrator takes a provider away: one
/// that may be chosen may be chosen at every later time.
pub proof fn law_waiting_does_not_hurt(h: Health, now: u64, t: u64)
    requires
        h.available(now),
        now <= t,
    ensures
        h.available(t),
{
}

/// To be chosen changes nothing of a provider whose circuit is closed but when it
/// was last chosen: others may choose it, too. Of any other it changes the
/// circuit, which is half open then, and that it is probed.
pub proof fn law_choice_changes_little(h: Health, now: u64, t: u64)
    ensures
        ({
            let c = h.chosen(now);
            &&& c.last_attempt_time == Some(now)
            &&& c.rate_limited_until == h.rate_limited_until
            &&& c.consecutive_failures == h.consecutive_failures
            &&& c.manual_disabled == h.manual_disabled
            &&& h.circuit is Closed ==> c.circuit is Closed && c.probe_in_flight
                == h.probe_in_flight && (c.available(t) <==> h.available(t))
            &&& !(h.circuit is Closed) ==> c.circuit is HalfOpen && c.probe_in_flight
        }),
{
}

/// A success takes nothing away: a provider that could be chosen with a closed
/// circuit can be chosen after it at the same times, and neither a rate limit nor
/// an administrator's decision is touched. The circuit changes only if the
/// attempt was the probe.
pub proof fn law_success_takes_nothing_away(
    strategy: AdaptivePriorityStrategy,
    h: Health,
    report: Report,
    now: u64,
    t: u64,
)
    requires
        report.success,
    ensures
        ({
            let after = strategy.learned(h, report, now);
            &&& after.rate_limited_until == h.rate_limited_until
            &&& after.manual_disabled == h.manual_disabled
            &&& after.last_attempt_time == h.last_attempt_time
            &&& after.consecutive_failures == 0
            &&& report.is_probe ==> after.circuit is Closed && !after.probe_in_flight
            &&& !report.is_probe ==> after.circuit == h.circuit && after.probe_in_flight
                == h.probe_in_flight
            &&& h.circuit is Closed ==> (after.available(t) <==> h.available(t))
            &&& h.available(t) ==> after.available(t)
        }),
{
}

/// A failure adds one to the run of failures and decides nothing else on its own:
/// without a delay that an overloaded provider asked for, the rate limit stays,
/// and short of three failures in a row, an attempt that is no probe leaves the
/// circuit as it was.
pub proof fn law_failure_changes_little(
    strategy: AdaptivePriorityStrategy,
    h: Health,
    report: Report,
    now: u64,
    t: u64,
)
    requires
        !report.success,
    ensures
        ({
            let after = strategy.learned(h, report, now);
            &&& h.consecutive_failures < u32::MAX ==> after.consecutive_failures
                == h.consecutive_failures + 1
            &&& h.consecutive_failures == u32::MAX ==> after.consecutive_failures == u32::MAX
            &&& after.manual_disabled == h.manual_disabled
            &&& after.last_attempt_time == h.last_attempt_time
            &&& report.retry_after is None || report.status is None || !(report.status->0 == 429
                || 500 <= report.status->0 <= 599) ==> after.rate_limited_until
                == h.rate_limited_until
            &&& !report.is_probe ==> after.probe_in_flight == h.probe_in_flight
            &&& !report.is_probe && h.consecutive_failures < 2 ==> after.circuit == h.circuit
            &&& !report.is_probe && h.consecutive_failures < 2 && report.retry_after is None
                && h.available(t) ==> after.available(t)
        }),
{
}

/// Two failures do not open a circuit that was closed by a success.
pub proof fn law_two_failures_do_not_open(
    strategy: AdaptivePriorityStrategy,
    h: Health,
    success: Report,
    first: Report,
    second: Report,
    t0: u64,
    t1: u64,
    t2: u64,
)
    requires
        success.success,
        h.circuit is Closed,
        !first.success && !first.is_probe,
        !second.success && !second.is_probe,
    ensures
        ({
            let h0 = strategy.learned(h, success, t0);
            let h1 = strategy.learned(h0, first, t1);
            let h2 = strategy.learned(h1, second, t2);
            h2.circuit is Closed && h2.consecutive_failures == 2
        }),
{
}

/// A candidate may be chosen exactly where the first provider of that name may
/// be; a candidate at an unknown provider may not.
pub proof fn law_open_by_provider(
    providers: Seq<ProviderView>,
    candidate: TargetView,
    now: u64,
    p: int,
)
    requires
        0 <= p < providers.len(),
        providers[p].name == candidate.provider,
        forall|q: int| 0 <= q < p ==> (#[trigger] providers[q]).name != candidate.provider,
    ensures
        is_open_to(providers, candidate, now) <==> providers[p].health.available(now),
{
    lemma_find_provider(providers, candidate.provider, 0);
    let f = find_provider(providers, candidate.provider, 0);
    assert(f is Some);
    if f->0 < p {
        assert(providers[f->0].name != candidate.provider);
    }
    if p < f->0 {
        assert(providers[p].name != candidate.provider);
    }
}

/// A candidate at a provider that is not in the pool may not be chosen.
pub proof fn law_unknown_is_not_open(providers: Seq<ProviderView>, candidate: TargetView, now: u64)
    requires
        forall|q: int|
            0 <= q < providers.len() ==> (#[trigger] providers[q]).name != candidate.provider,
    ensures
        !is_open_to(providers, candidate, now),
{
    lemma_find_provider(providers, candidate.provider, 0);
}

/// To choose a candidate changes the health of its provider, and no other
/// provider.
pub proof fn law_choice_touches_one(
    providers: Seq<ProviderView>,
    candidate: TargetView,
    now: u64,
    i: int,
)
    requires
        0 <= i < providers.len(),
    ensures
        ({
            let after = pool_chosen(providers, candidate, now);
            &&& after.len() == providers.len()
            &&& providers[i].name != candidate.provider ==> after[i] == providers[i]
            &&& after[i] == (ProviderView { health: after[i].health, ..providers[i] })
            &&& providers[i].name == candidate.provider && (forall|q: int|
                0 <= q < i ==> (#[trigger] providers[q]).name != candidate.provider)
                ==> after[i].health == providers[i].health.chosen(now)
        }),
{
    lemma_find_provider(providers, candidate.provider, 0);
}

} // verus!
