//! A chain of model providers tried in order, with a circuit breaker per
//! provider and a health status per provider.
//!
//! The chain's state and every decision live here; the calls to the
//! providers are made by the caller, which reports each outcome back.
use vstd::prelude::*;
use crate::text::{dec, owned, push_all, u64_to_string, views};

verus! {

/// The clock, in whole seconds since the Unix epoch.
///
/// Calls `chrono::Utc::now().timestamp()`; nothing is claimed of the value.
#[verifier::external_body]
fn unix_now() -> (r: i64) {
    chrono::Utc::now().timestamp()
}

/// Seconds an open circuit stays open before a provider is tried again.
pub const COOLDOWN_SECS: u64 = 60u64;

/// Circuit breaker of one provider.
#[derive(Debug, Clone, Copy, PartialEq, Eq)]
pub struct CircuitBreakerState {
    /// Consecutive failures.
    pub failure_count: u32,
    /// When the last failure happened (seconds since the epoch).
    pub last_failure_time: i64,
    /// Whether the provider is being skipped.
    pub circuit_open: bool,
    /// Consecutive failures that open the circuit (0: never).
    pub threshold: u32,
    /// Seconds an open circuit is kept open.
    pub cooldown_secs: u64,
}

/// The breaker after a failure at `now`: one more failure, and the
/// circuit opens once the count reaches a non-zero threshold.
pub open spec fn failed(s: CircuitBreakerState, now: i64) -> CircuitBreakerState {
    CircuitBreakerState {
        failure_count: (s.failure_count + 1) as u32,
        last_failure_time: now,
        circuit_open: s.circuit_open || (s.threshold > 0 && s.failure_count + 1 >= s.threshold),
        ..s
    }
}

/// The breaker after a success: no failures and closed.
pub open spec fn succeeded(s: CircuitBreakerState) -> CircuitBreakerState {
    CircuitBreakerState { failure_count: 0, circuit_open: false, ..s }
}

/// Whether the provider is skipped at `now`: its circuit is open and the
/// cooldown since the last failure has not passed.
pub open spec fn skippable(s: CircuitBreakerState, now: int) -> bool {
    s.circuit_open && s.threshold != 0 && now - s.last_failure_time < (s.cooldown_secs as i64)
}

/// Whether an open circuit's cooldown has passed, so that the provider may
/// be tried again.
pub open spec fn retryable(s: CircuitBreakerState, now: int) -> bool {
    s.circuit_open && s.threshold != 0 && now - s.last_failure_time >= (s.cooldown_secs as i64)
}

impl CircuitBreakerState {
    /// A closed breaker with no failures.
    pub fn new(threshold: u32, cooldown_secs: u64) -> (r: CircuitBreakerState)
        ensures
            r == (CircuitBreakerState {
                failure_count: 0,
                last_failure_time: 0,
                circuit_open: false,
                threshold,
                cooldown_secs,
            }),
    {
        CircuitBreakerState {
            failure_count: 0,
            last_failure_time: 0,
            circuit_open: false,
            threshold,
            cooldown_secs,
        }
    }

    /// Records a success, which closes the circuit.
    pub fn record_success(&mut self)
        ensures
            *final(self) == succeeded(*old(self)),
    {
        self.failure_count = 0;
        self.circuit_open = false;
    }

    /// Records a failure at `now`.
    pub fn record_failure_at(&mut self, now: i64)
        requires
            old(self).failure_count < u32::MAX,
        ensures
            *final(self) == failed(*old(self), now),
    {
        self.failure_count = self.failure_count + 1;
        self.last_failure_time = now;
        if self.threshold > 0 && self.failure_count >= self.threshold {
            self.circuit_open = true;
        }
    }

    /// Records a failure now, by the clock.
    pub fn record_failure(&mut self)
        requires
            old(self).failure_count < u32::MAX,
        ensures
            *final(self) == failed(*old(self), final(self).last_failure_time),
    {
        let now = unix_now();
        self.record_failure_at(now);
    }

    /// Whether the provider is skipped at `now`.
    pub fn is_skippable_at(&self, now: i64) -> (r: bool)
        ensures
            r == skippable(*self, now as int),
    {
        if !self.circuit_open || self.threshold == 0 {
            return false;
        }
        let elapsed: i128 = now as i128 - self.last_failure_time as i128;
        let cooldown: i64 = #[verifier::truncate] (self.cooldown_secs as i64);
        elapsed < cooldown as i128
    }

    /// Whether the provider is skipped now, by the clock. A closed circuit,
    /// or one with a zero threshold, is never skipped.
    pub fn is_skippable(&self) -> (r: bool)
        ensures
            !self.circuit_open || self.threshold == 0 ==> !r,
            r ==> self.circuit_open && self.threshold != 0,
            exists|now: i64| #[trigger] skippable(*self, now as int) == r,
    {
        let now = unix_now();
        let r = self.is_skippable_at(now);
        assert(skippable(*self, now as int) == r);
        r
    }

    /// Whether an open circuit may be tried again at `now`.
    pub fn should_retry_at(&self, now: i64) -> (r: bool)
        ensures
            r == retryable(*self, now as int),
    {
        if !self.circuit_open || self.threshold == 0 {
            return false;
        }
        let elapsed: i128 = now as i128 - self.last_failure_time as i128;
        let cooldown: i64 = #[verifier::truncate] (self.cooldown_secs as i64);
        elapsed >= cooldown as i128
    }

    /// Whether an open circuit may be tried again now, by the clock.
    pub fn should_retry(&self) -> (r: bool)
        ensures
            r ==> self.circuit_open && self.threshold != 0,
            exists|now: i64| #[trigger] retryable(*self, now as int) == r,
    {
        let now = unix_now();
        let r = self.should_retry_at(now);
        assert(retryable(*self, now as int) == r);
        r
    }
}

/// The breaker after `n` failures, all at `now`.
pub open spec fn failed_times(s: CircuitBreakerState, n: nat, now: i64) -> CircuitBreakerState
    decreases n,
{
    if n == 0 {
        s
    } else {
        failed(failed_times(s, (n - 1) as nat, now), now)
    }
}

/// From a closed breaker with no failures, `n` consecutive failures open
/// the circuit exactly when `n` reaches a non-zero threshold.
pub proof fn lemma_threshold_opens(s: CircuitBreakerState, n: nat, now: i64)
    requires
        s.failure_count == 0,
        !s.circuit_open,
        n < u32::MAX,
    ensures
        failed_times(s, n, now).failure_count == n,
        failed_times(s, n, now).threshold == s.threshold,
        failed_times(s, n, now).circuit_open <==> (s.threshold > 0 && n >= s.threshold && n > 0),
    decreases n,
{
    if n > 0 {
        lemma_threshold_opens(s, (n - 1) as nat, now);
    }
}

/// An open circuit is, at any moment, either still skipped or ready to be
/// retried; a closed one is neither.
pub proof fn lemma_skip_or_retry(s: CircuitBreakerState, now: int)
    ensures
        s.circuit_open && s.threshold != 0 ==> (skippable(s, now) <==> !retryable(s, now)),
        !(s.circuit_open && s.threshold != 0) ==> !skippable(s, now) && !retryable(s, now),
{
}

/// A success after any failures closes the circuit and clears the count.
pub proof fn lemma_success_resets(s: CircuitBreakerState, now: int)
    ensures
        !skippable(succeeded(s), now),
        succeeded(s).failure_count == 0,
{
}

// ── the chain ────────────────────────────────────────────────────────

/// Health of a provider in the chain.
#[derive(Debug, Clone, PartialEq, Eq)]
pub enum HealthStatus {
    Healthy,
    Degraded,
    Unhealthy { reason: String },
    Unknown,
}

fn copy_health(h: &HealthStatus) -> (r: HealthStatus)
    ensures
        r == *h,
{
    match h {
        HealthStatus::Healthy => HealthStatus::Healthy,
        HealthStatus::Degraded => HealthStatus::Degraded,
        HealthStatus::Unhealthy { reason } => HealthStatus::Unhealthy { reason: reason.clone() },
        HealthStatus::Unknown => HealthStatus::Unknown,
    }
}

/// What a caller may show of a provider in the chain.
#[derive(Debug, Clone)]
pub struct ProviderInfo {
    pub name: String,
    pub provider_type: String,
    pub health: HealthStatus,
    pub base_url: String,
}

/// The index of `name` in `keys`, if it is there.
pub open spec fn find(keys: Seq<Seq<char>>, name: Seq<char>) -> Option<int> {
    if exists|i: int| 0 <= i < keys.len() && keys[i] == name {
        Some(choose|i: int| 0 <= i < keys.len() && keys[i] == name)
    } else {
        None
    }
}

/// No name occurs twice.
pub open spec fn distinct(keys: Seq<Seq<char>>) -> bool {
    forall|i: int, k: int| 0 <= i < keys.len() && 0 <= k < keys.len() && i != k ==> keys[i] != keys[k]
}

/// The names joined with `", "`.
pub open spec fn join_comma(s: Seq<Seq<char>>) -> Seq<char>
    decreases s.len(),
{
    if s.len() == 0 {
        seq![]
    } else if s.len() == 1 {
        s[0]
    } else {
        join_comma(s.drop_last()) + ", "@ + s.last()
    }
}

/// The error text when no provider answered.
pub open spec fn exhausted_msg(tried: Seq<Seq<char>>, last_error: Option<Seq<char>>) -> Seq<char> {
    "All providers in fallback chain failed. Tried: ["@ + join_comma(tried) + "]. Last error: "@
        + match last_error {
        Some(e) => e,
        None => "none"@,
    }
}

/// The health text of a circuit that opened after `n` failures.
pub open spec fn opened_msg(n: nat) -> Seq<char> {
    "Circuit breaker opened after "@ + dec(n) + " failures"@
}


/// Where a request is in the chain.
#[derive(Debug)]
pub struct ChainAttempt {
    /// The position of the next provider to consider.
    pub next: usize,
    /// What was tried or skipped so far, in order.
    pub tried: Vec<String>,
    /// The error of the last provider that failed.
    pub last_error: Option<String>,
}

/// What to do next with a request.
#[derive(Debug, Clone, PartialEq, Eq)]
pub enum ChainStep {
    /// Call the provider at this position of the chain.
    Try(usize),
    /// Every provider failed or was skipped: fail with this text.
    Exhausted(String),
}

/// Whether the caller streams the answer: a failed stream leaves the
/// health status as it was.
#[derive(Debug, Clone, Copy, PartialEq, Eq)]
pub enum CallKind {
    Chat,
    Stream,
}

/// A primary provider and its fallbacks, with their breakers and health.
pub struct FallbackProvider {
    name: String,
    chain: Vec<String>,
    keys: Vec<String>,
    breakers: Vec<CircuitBreakerState>,
    health: Vec<HealthStatus>,
    threshold: u32,
    health_check_interval: u64,
    health_check_started: bool,
}

impl FallbackProvider {
    /// The chain's own name.
    pub closed spec fn name_spec(&self) -> Seq<char> {
        self.name@
    }

    /// The providers' names: the primary first, then the fallbacks in order.
    pub closed spec fn chain_spec(&self) -> Seq<Seq<char>> {
        views(self.chain@)
    }

    /// The breaker of the provider named `name`.
    pub closed spec fn breaker(&self, name: Seq<char>) -> CircuitBreakerState {
        match find(views(self.keys@), name) {
            Some(k) => self.breakers@[k],
            None => CircuitBreakerState::new_spec(0, 0),
        }
    }

    /// The health of the provider named `name`.
    pub closed spec fn health_of(&self, name: Seq<char>) -> HealthStatus {
        match find(views(self.keys@), name) {
            Some(k) => self.health@[k],
            None => HealthStatus::Unknown,
        }
    }

    /// The breakers' threshold.
    pub closed spec fn threshold_spec(&self) -> u32 {
        self.threshold
    }

    /// Whether the health checks have been started.
    pub closed spec fn health_checks_started(&self) -> bool {
        self.health_check_started
    }

    /// Seconds between two health checks (0: none).
    pub closed spec fn health_check_interval_spec(&self) -> u64 {
        self.health_check_interval
    }

    /// Every provider of the chain has one breaker and one health status,
    /// shared by providers of the same name.
    pub closed spec fn wf(&self) -> bool {
        &&& self.keys@.len() == self.breakers@.len()
        &&& self.keys@.len() == self.health@.len()
        &&& distinct(views(self.keys@))
        &&& forall|i: int|
            0 <= i < self.chain@.len() ==> find(views(self.keys@), #[trigger] self.chain@[i]@) is Some
        &&& self.chain@.len() >= 1
    }

    proof fn lemma_find_in_chain(&self, i: int)
        requires
            self.wf(),
            0 <= i < self.chain_spec().len(),
        ensures
            find(views(self.keys@), self.chain_spec()[i]) is Some,
    {
        assert(self.chain_spec()[i] == self.chain@[i]@);
    }

    fn key_index(&self, name: &str) -> (r: Option<usize>)
        requires
            self.keys@.len() == self.breakers@.len(),
            self.keys@.len() == self.health@.len(),
            distinct(views(self.keys@)),
        ensures
            match r {
                Some(k) => find(views(self.keys@), name@) == Some(k as int) && k < self.keys@.len(),
                None => find(views(self.keys@), name@) is None,
            },
    {
        let mut k: usize = 0;
        while k < self.keys.len()
            invariant
                k <= self.keys@.len(),
                distinct(views(self.keys@)),
                forall|j: int| 0 <= j < k ==> views(self.keys@)[j] != name@,
            decreases self.keys@.len() - k,
        {
            if crate::text::str_eq(self.keys[k].as_str(), name) {
                proof {
                    let ks = views(self.keys@);
                    assert(ks[k as int] == name@);
                    let c = choose|j: int| 0 <= j < ks.len() && ks[j] == name@;
                    if c != k as int {
                        assert(ks[c] != ks[k as int]);
                    }
                }
                return Some(k);
            }
            k = k + 1;
        }
        None
    }

    /// A chain named `name` of the primary and the fallbacks, each with a
    /// closed breaker (cooldown of a minute) and unknown health.
    pub fn new(
        name: &str,
        primary_name: &str,
        fallback_names: &Vec<String>,
        circuit_breaker_threshold: u32,
        health_check_interval_secs: u64,
    ) -> (r: FallbackProvider)
        ensures
            r.wf(),
            r.name_spec() == name@,
            r.chain_spec() == seq![primary_name@] + views(fallback_names@),
            r.threshold_spec() == circuit_breaker_threshold,
            r.health_check_interval_spec() == health_check_interval_secs,
            !r.health_checks_started(),
            forall|i: int|
                0 <= i < r.chain_spec().len() ==> r.breaker(#[trigger] r.chain_spec()[i])
                    == CircuitBreakerState::new_spec(circuit_breaker_threshold, COOLDOWN_SECS)
                    && r.health_of(r.chain_spec()[i]) == HealthStatus::Unknown,
    {
        let mut p = FallbackProvider {
            name: owned(name),
            chain: Vec::new(),
            keys: Vec::new(),
            breakers: Vec::new(),
            health: Vec::new(),
            threshold: circuit_breaker_threshold,
            health_check_interval: health_check_interval_secs,
            health_check_started: false,
        };
        let fresh = CircuitBreakerState::new(circuit_breaker_threshold, COOLDOWN_SECS);
        p.add_provider(primary_name, fresh);
        let mut i: usize = 0;
        while i < fallback_names.len()
            invariant
                i <= fallback_names@.len(),
                p.keys@.len() == p.breakers@.len(),
                p.keys@.len() == p.health@.len(),
                distinct(views(p.keys@)),
                p.chain@.len() == i + 1,
                forall|j: int|
                    0 <= j < p.chain@.len() ==> find(views(p.keys@), #[trigger] p.chain@[j]@) is Some,
                views(p.chain@) == seq![primary_name@] + views(fallback_names@).take(i as int),
                forall|k: int| 0 <= k < p.keys@.len() ==> #[trigger] p.breakers@[k] == fresh,
                forall|k: int| 0 <= k < p.keys@.len() ==> #[trigger] p.health@[k] == HealthStatus::Unknown,
                p.name@ == name@,
                p.threshold == circuit_breaker_threshold,
                p.health_check_interval == health_check_interval_secs,
                !p.health_check_started,
                fresh == CircuitBreakerState::new_spec(circuit_breaker_threshold, COOLDOWN_SECS),
            decreases fallback_names@.len() - i,
        {
            p.add_provider(fallback_names[i].as_str(), fresh);
            i = i + 1;
            assert(views(p.chain@) =~= seq![primary_name@] + views(fallback_names@).take(i as int));
        }
        assert(views(fallback_names@).take(i as int) =~= views(fallback_names@));
        assert forall|j: int| 0 <= j < p.chain_spec().len() implies p.breaker(
            #[trigger] p.chain_spec()[j],
        ) == CircuitBreakerState::new_spec(circuit_breaker_threshold, COOLDOWN_SECS) && p.health_of(
            p.chain_spec()[j],
        ) == HealthStatus::Unknown by {
            assert(p.chain_spec()[j] == p.chain@[j]@);
        }
        p
    }

    fn add_provider(&mut self, name: &str, fresh: CircuitBreakerState)
        requires
            old(self).keys@.len() == old(self).breakers@.len(),
            old(self).keys@.len() == old(self).health@.len(),
            distinct(views(old(self).keys@)),
            forall|j: int|
                0 <= j < old(self).chain@.len() ==> find(views(old(self).keys@), #[trigger] old(self).chain@[j]@) is Some,
            forall|k: int| 0 <= k < old(self).keys@.len() ==> #[trigger] old(self).breakers@[k] == fresh,
            forall|k: int|
                0 <= k < old(self).keys@.len() ==> #[trigger] old(self).health@[k]
                    == HealthStatus::Unknown,
        ensures
            final(self).keys@.len() == final(self).breakers@.len(),
            final(self).keys@.len() == final(self).health@.len(),
            distinct(views(final(self).keys@)),
            views(final(self).chain@) == views(old(self).chain@).push(name@),
            final(self).chain@.len() == old(self).chain@.len() + 1,
            forall|j: int|
                0 <= j < final(self).chain@.len() ==> find(
                    views(final(self).keys@),
                    #[trigger] final(self).chain@[j]@,
                ) is Some,
            forall|k: int| 0 <= k < final(self).keys@.len() ==> #[trigger] final(self).breakers@[k] == fresh,
            forall|k: int|
                0 <= k < final(self).keys@.len() ==> #[trigger] final(self).health@[k]
                    == HealthStatus::Unknown,
            final(self).name == old(self).name,
            final(self).threshold == old(self).threshold,
            final(self).health_check_interval == old(self).health_check_interval,
            final(self).health_check_started == old(self).health_check_started,
    {
        let ghost old_keys = views(self.keys@);
        if self.key_index(name).is_none() {
            self.keys.push(owned(name));
            self.breakers.push(fresh);
            self.health.push(HealthStatus::Unknown);
            proof {
                let ks = views(self.keys@);
                assert(ks =~= old_keys.push(name@));
                assert forall|a: int, b: int|
                    0 <= a < ks.len() && 0 <= b < ks.len() && a != b implies ks[a] != ks[b] by {
                    if a == ks.len() - 1 {
                        assert(old_keys[b] != name@);
                    } else if b == ks.len() - 1 {
                        assert(old_keys[a] != name@);
                    } else {
                        assert(old_keys[a] != old_keys[b]);
                    }
                }
            }
        }
        self.chain.push(owned(name));
        proof {
            let ks = views(self.keys@);
            assert(views(self.chain@) =~= views(old(self).chain@).push(name@));
            assert forall|j: int| 0 <= j < self.chain@.len() implies find(
                ks,
                #[trigger] self.chain@[j]@,
            ) is Some by {
                if j < old(self).chain@.len() {
                    assert(self.chain@[j] == old(self).chain@[j]);
                    let x = choose|i: int| 0 <= i < old_keys.len() && old_keys[i] == self.chain@[j]@;
                    assert(ks[x] == old_keys[x]);
                } else {
                    if exists|i: int| 0 <= i < old_keys.len() && old_keys[i] == name@ {
                        let x = choose|i: int| 0 <= i < old_keys.len() && old_keys[i] == name@;
                        assert(ks[x] == old_keys[x]);
                    } else {
                        assert(ks[old_keys.len() as int] == name@);
                    }
                }
            }
        }
    }

    /// Providers in the chain.
    pub fn len(&self) -> (r: usize)
        ensures
            r == self.chain_spec().len(),
    {
        self.chain.len()
    }

    /// The chain's own name, under which it reports its failures.
    pub fn name(&self) -> (r: &str)
        ensures
            r@ == self.name_spec(),
    {
        self.name.as_str()
    }

    /// The name of the provider at position `i`.
    pub fn provider_name(&self, i: usize) -> (r: &String)
        requires
            i < self.chain_spec().len(),
        ensures
            r@ == self.chain_spec()[i as int],
    {
        &self.chain[i]
    }

    /// A new request: nothing tried yet.
    pub fn begin(&self) -> (r: ChainAttempt)
        ensures
            r.next == 0,
            r.tried@.len() == 0,
            r.last_error is None,
    {
        ChainAttempt { next: 0, tried: Vec::new(), last_error: None }
    }

    /// Moves past every provider whose circuit is open and still cooling
    /// down at `now`, noting each as skipped, and names the next provider
    /// to call; or, when none is left, the error the request fails with.
    pub fn next_step(&self, attempt: &mut ChainAttempt, now: i64) -> (r: ChainStep)
        requires
            self.wf(),
            old(attempt).next <= self.chain_spec().len(),
        ensures
            old(attempt).next <= final(attempt).next <= self.chain_spec().len(),
            final(attempt).last_error == old(attempt).last_error,
            forall|k: int|
                old(attempt).next <= k < final(attempt).next ==> skippable(
                    self.breaker(#[trigger] self.chain_spec()[k]),
                    now as int,
                ),
            views(final(attempt).tried@) == views(old(attempt).tried@) + Seq::new(
                (final(attempt).next - old(attempt).next) as nat,
                |k: int| self.chain_spec()[old(attempt).next + k] + " (circuit open)"@,
            ),
            match r {
                ChainStep::Try(i) => {
                    &&& i == final(attempt).next
                    &&& i < self.chain_spec().len()
                    &&& !skippable(self.breaker(self.chain_spec()[i as int]), now as int)
                },
                ChainStep::Exhausted(m) => {
                    &&& final(attempt).next == self.chain_spec().len()
                    &&& m@ == exhausted_msg(
                        views(final(attempt).tried@),
                        match final(attempt).last_error {
                            Some(e) => Some(e@),
                            None => None,
                        },
                    )
                },
            },
    {
        let ghost start = attempt.next;
        let ghost tried0 = views(attempt.tried@);
        while attempt.next < self.chain.len()
            invariant
                self.wf(),
                start == old(attempt).next,
                tried0 == views(old(attempt).tried@),
                start <= attempt.next <= self.chain@.len(),
                attempt.last_error == old(attempt).last_error,
                forall|k: int|
                    start <= k < attempt.next ==> skippable(
                        self.breaker(#[trigger] self.chain_spec()[k]),
                        now as int,
                    ),
                views(attempt.tried@) == tried0 + Seq::new(
                    (attempt.next - start) as nat,
                    |k: int| self.chain_spec()[start + k] + " (circuit open)"@,
                ),
            decreases self.chain@.len() - attempt.next,
        {
            let i = attempt.next;
            proof {
                self.lemma_find_in_chain(i as int);
                assert(self.chain_spec()[i as int] == self.chain@[i as int]@);
            }
            let k = self.key_index(self.chain[i].as_str()).unwrap();
            if !self.breakers[k].is_skippable_at(now) {
                return ChainStep::Try(i);
            }
            let mut label = self.chain[i].clone();
            push_all(&mut label, " (circuit open)");
            let ghost before = views(attempt.tried@);
            attempt.tried.push(label);
            attempt.next = i + 1;
            assert(views(attempt.tried@) =~= before.push(self.chain_spec()[i as int] + " (circuit open)"@));
            assert(views(attempt.tried@) =~= tried0 + Seq::new(
                (attempt.next - start) as nat,
                |k: int| self.chain_spec()[start + k] + " (circuit open)"@,
            ));
        }
        ChainStep::Exhausted(exhausted_text(&attempt.tried, &attempt.last_error))
    }

    /// Records that the provider at position `i` answered: its breaker
    /// closes and it is healthy. Returns its name.
    pub fn record_success(&mut self, i: usize) -> (r: String)
        requires
            old(self).wf(),
            i < old(self).chain_spec().len(),
        ensures
            final(self).wf(),
            r@ == old(self).chain_spec()[i as int],
            final(self).chain_spec() == old(self).chain_spec(),
            final(self).name_spec() == old(self).name_spec(),
            final(self).breaker(r@) == succeeded(old(self).breaker(r@)),
            final(self).health_of(r@) == HealthStatus::Healthy,
            forall|n: Seq<char>|
                n != r@ ==> final(self).breaker(n) == old(self).breaker(n) && final(self).health_of(n)
                    == old(self).health_of(n),
    {
        proof {
            self.lemma_find_in_chain(i as int);
            assert(self.chain_spec()[i as int] == self.chain@[i as int]@);
        }
        let name = self.chain[i].clone();
        let k = self.key_index(name.as_str()).unwrap();
        let mut b = self.breakers[k];
        b.record_success();
        self.breakers.set(k, b);
        self.health.set(k, HealthStatus::Healthy);
        proof {
            self.lemma_keys_unchanged(old(self), k as int, name@);
        }
        name
    }

    proof fn lemma_keys_unchanged(&self, before: &FallbackProvider, k: int, name: Seq<char>)
        requires
            self.keys@ == before.keys@,
            self.chain@ == before.chain@,
            before.wf(),
            self.breakers@.len() == before.breakers@.len(),
            self.health@.len() == before.health@.len(),
            find(views(before.keys@), name) == Some(k),
            forall|j: int| 0 <= j < self.breakers@.len() && j != k ==> self.breakers@[j] == before.breakers@[j],
            forall|j: int| 0 <= j < self.health@.len() && j != k ==> self.health@[j] == before.health@[j],
        ensures
            self.wf(),
            forall|n: Seq<char>|
                n != name ==> self.breaker(n) == before.breaker(n) && self.health_of(n)
                    == before.health_of(n),
    {
        assert forall|n: Seq<char>| n != name implies self.breaker(n) == before.breaker(n)
            && self.health_of(n) == before.health_of(n) by {
            let ks = views(self.keys@);
            if exists|i: int| 0 <= i < ks.len() && ks[i] == n {
                let x = choose|i: int| 0 <= i < ks.len() && ks[i] == n;
                assert(x != k);
            }
        }
    }

    /// Records that the provider at position `i` failed at `now` with
    /// `error`: its breaker counts the failure, the attempt moves on, and
    /// for a chat (not a stream) an open circuit marks it unhealthy.
    pub fn record_failure(
        &mut self,
        attempt: &mut ChainAttempt,
        i: usize,
        error: String,
        now: i64,
        kind: CallKind,
    )
        requires
            old(self).wf(),
            i == old(attempt).next,
            i < old(self).chain_spec().len(),
            old(self).breaker(old(self).chain_spec()[i as int]).failure_count < u32::MAX,
        ensures
            final(self).wf(),
            final(self).chain_spec() == old(self).chain_spec(),
            final(self).name_spec() == old(self).name_spec(),
            ({
                let n = old(self).chain_spec()[i as int];
                let b = failed(old(self).breaker(n), now);
                &&& final(self).breaker(n) == b
                &&& if kind == CallKind::Chat && b.circuit_open {
                    (final(self).health_of(n) matches HealthStatus::Unhealthy { reason } && reason@
                        == opened_msg(b.failure_count as nat))
                } else {
                    final(self).health_of(n) == old(self).health_of(n)
                }
                &&& forall|m: Seq<char>|
                    m != n ==> final(self).breaker(m) == old(self).breaker(m) && final(self).health_of(m) == old(self).health_of(m)
                &&& views(final(attempt).tried@) == views(old(attempt).tried@).push(n)
            }),
            final(attempt).next == old(attempt).next + 1,
            final(attempt).last_error == Some(error),
    {
        proof {
            self.lemma_find_in_chain(i as int);
            assert(self.chain_spec()[i as int] == self.chain@[i as int]@);
        }
        let len = self.chain.len();
        let name = self.chain[i].clone();
        let next = i + 1;
        let k = self.key_index(name.as_str()).unwrap();
        let mut b = self.breakers[k];
        b.record_failure_at(now);
        self.breakers.set(k, b);
        if matches!(kind, CallKind::Chat) && b.circuit_open {
            let mut reason = owned("Circuit breaker opened after ");
            let count = u64_to_string(b.failure_count as u64);
            push_all(&mut reason, count.as_str());
            push_all(&mut reason, " failures");
            self.health.set(k, HealthStatus::Unhealthy { reason });
        }
        proof {
            self.lemma_keys_unchanged(old(self), k as int, name@);
        }
        let ghost t0 = views(attempt.tried@);
        attempt.tried.push(name);
        assert(views(attempt.tried@) =~= t0.push(old(self).chain_spec()[i as int]));
        attempt.next = next;
        attempt.last_error = Some(error);
    }

    /// Records a health check of the provider at position `i`.
    pub fn apply_health_check(&mut self, i: usize, healthy: bool)
        requires
            old(self).wf(),
            i < old(self).chain_spec().len(),
        ensures
            final(self).wf(),
            final(self).chain_spec() == old(self).chain_spec(),
            final(self).name_spec() == old(self).name_spec(),
            ({
                let n = old(self).chain_spec()[i as int];
                &&& healthy ==> final(self).health_of(n) == HealthStatus::Healthy
                &&& !healthy ==> (final(self).health_of(n) matches HealthStatus::Unhealthy { reason }
                    && reason@ == "Health check failed"@)
                &&& forall|m: Seq<char>|
                    m != n ==> final(self).breaker(m) == old(self).breaker(m) && final(self).health_of(m) == old(self).health_of(m)
                &&& final(self).breaker(n) == old(self).breaker(n)
            }),
    {
        proof {
            self.lemma_find_in_chain(i as int);
            assert(self.chain_spec()[i as int] == self.chain@[i as int]@);
        }
        let k = self.key_index(self.chain[i].as_str()).unwrap();
        let ghost name = self.chain@[i as int]@;
        if healthy {
            self.health.set(k, HealthStatus::Healthy);
        } else {
            self.health.set(k, HealthStatus::Unhealthy { reason: owned("Health check failed") });
        }
        proof {
            self.lemma_keys_unchanged(old(self), k as int, name);
        }
    }

    /// Whether the periodic health checks should be started now: only once,
    /// and only with a non-zero interval.
    pub fn ensure_health_checks(&mut self) -> (r: bool)
        requires
            old(self).wf(),
        ensures
            final(self).wf(),
            r == (old(self).health_check_interval_spec() != 0 && !old(self).health_checks_started()),
            final(self).health_checks_started() == (old(self).health_checks_started() || r),
            final(self).chain_spec() == old(self).chain_spec(),
            final(self).health_check_interval_spec() == old(self).health_check_interval_spec(),
            forall|m: Seq<char>|
                final(self).breaker(m) == old(self).breaker(m) && final(self).health_of(m) == old(self).health_of(m),
    {
        if self.health_check_interval == 0 || self.health_check_started {
            return false;
        }
        self.health_check_started = true;
        true
    }

    /// Name, role and health of every provider, in chain order.
    pub fn provider_info(&self) -> (r: Vec<ProviderInfo>)
        requires
            self.wf(),
        ensures
            r@.len() == self.chain_spec().len(),
            forall|i: int|
                0 <= i < r@.len() ==> {
                    &&& (#[trigger] r@[i]).name@ == self.chain_spec()[i]
                    &&& r@[i].provider_type@ == (if i == 0 {
                        "primary"@
                    } else {
                        "fallback"@
                    })
                    &&& r@[i].health == self.health_of(self.chain_spec()[i])
                    &&& r@[i].base_url@.len() == 0
                },
    {
        let mut out: Vec<ProviderInfo> = Vec::new();
        let mut i: usize = 0;
        while i < self.chain.len()
            invariant
                self.wf(),
                i <= self.chain@.len(),
                out@.len() == i,
                forall|j: int|
                    0 <= j < i ==> {
                        &&& (#[trigger] out@[j]).name@ == self.chain_spec()[j]
                        &&& out@[j].provider_type@ == (if j == 0 {
                            "primary"@
                        } else {
                            "fallback"@
                        })
                        &&& out@[j].health == self.health_of(self.chain_spec()[j])
                        &&& out@[j].base_url@.len() == 0
                    },
            decreases self.chain@.len() - i,
        {
            proof {
                self.lemma_find_in_chain(i as int);
                assert(self.chain_spec()[i as int] == self.chain@[i as int]@);
            }
            let k = self.key_index(self.chain[i].as_str()).unwrap();
            let kind = if i == 0 {
                owned("primary")
            } else {
                owned("fallback")
            };
            out.push(
                ProviderInfo {
                    name: self.chain[i].clone(),
                    provider_type: kind,
                    health: copy_health(&self.health[k]),
                    base_url: String::new(),
                },
            );
            i = i + 1;
        }
        out
    }

    /// Failure count and open flag of each distinct provider name.
    pub fn circuit_breaker_states(&self) -> (r: Vec<(String, u32, bool)>)
        requires
            self.wf(),
        ensures
            forall|i: int|
                0 <= i < self.chain_spec().len() ==> Seq::new(r@.len(), |j: int| r@[j].0@).contains(
                    #[trigger] self.chain_spec()[i],
                ),
            forall|j: int|
                0 <= j < r@.len() ==> (#[trigger] r@[j]).1 == self.breaker(r@[j].0@).failure_count
                    && r@[j].2 == self.breaker(r@[j].0@).circuit_open,
            distinct(Seq::new(r@.len(), |j: int| r@[j].0@)),
    {
        let mut out: Vec<(String, u32, bool)> = Vec::new();
        let mut k: usize = 0;
        while k < self.keys.len()
            invariant
                self.wf(),
                k <= self.keys@.len(),
                out@.len() == k,
                forall|j: int|
                    0 <= j < k ==> (#[trigger] out@[j]).0@ == self.keys@[j]@ && out@[j].1
                        == self.breakers@[j].failure_count && out@[j].2 == self.breakers@[j].circuit_open,
            decreases self.keys@.len() - k,
        {
            let b = self.breakers[k];
            out.push((self.keys[k].clone(), b.failure_count, b.circuit_open));
            k = k + 1;
        }
        proof {
            let ks = views(self.keys@);
            assert forall|j: int| 0 <= j < out@.len() implies (#[trigger] out@[j]).1 == self.breaker(
                out@[j].0@,
            ).failure_count && out@[j].2 == self.breaker(out@[j].0@).circuit_open by {
                assert(ks[j] == out@[j].0@);
                let c = choose|x: int| 0 <= x < ks.len() && ks[x] == out@[j].0@;
                if c != j {
                    assert(ks[c] != ks[j]);
                }
            }
            let names = Seq::new(out@.len(), |j: int| out@[j].0@);
            assert forall|i: int|
                0 <= i < self.chain_spec().len() implies names.contains(
                    #[trigger] self.chain_spec()[i],
                ) by {
                self.lemma_find_in_chain(i);
                let c = choose|x: int| 0 <= x < ks.len() && ks[x] == self.chain_spec()[i];
                assert(names[c] == ks[c]);
            }
            assert forall|a: int, b: int|
                0 <= a < names.len() && 0 <= b < names.len() && a != b implies names[a] != names[b] by {
                assert(names[a] == ks[a]);
                assert(names[b] == ks[b]);
            }
        }
        out
    }
}

impl CircuitBreakerState {
    /// The state `new` builds.
    pub open spec fn new_spec(threshold: u32, cooldown_secs: u64) -> CircuitBreakerState {
        CircuitBreakerState {
            failure_count: 0,
            last_failure_time: 0,
            circuit_open: false,
            threshold,
            cooldown_secs,
        }
    }
}

fn exhausted_text(tried: &Vec<String>, last_error: &Option<String>) -> (r: String)
    ensures
        r@ == exhausted_msg(
            views(tried@),
            match *last_error {
                Some(e) => Some(e@),
                None => None,
            },
        ),
{
    let mut m = owned("All providers in fallback chain failed. Tried: [");
    let ghost head = m@;
    let mut j: usize = 0;
    while j < tried.len()
        invariant
            j <= tried@.len(),
            m@ == head + join_comma(views(tried@).take(j as int)),
        decreases tried@.len() - j,
    {
        let ghost prev = views(tried@).take(j as int);
        if j > 0 {
            push_all(&mut m, ", ");
        }
        push_all(&mut m, tried[j].as_str());
        j = j + 1;
        proof {
            let cur = views(tried@).take(j as int);
            assert(cur.drop_last() =~= prev);
            assert(cur.last() == tried@[j - 1]@);
            if j == 1 {
                assert(join_comma(prev) =~= seq![]);
            }
        }
    }
    assert(views(tried@).take(j as int) =~= views(tried@));
    push_all(&mut m, "]. Last error: ");
    match last_error {
        Some(e) => push_all(&mut m, e.as_str()),
        None => push_all(&mut m, "none"),
    }
    m
}

} // verus!
