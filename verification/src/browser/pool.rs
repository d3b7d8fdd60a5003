//! The pool of browsers and the circuit breaker that guards it.
//!
//! Both operations of the pool need outside work, to ping a browser, to launch one, to wait. Each
//! is a step function: it takes what happened last and answers what to do next.

use vstd::prelude::*;

use crate::browser::instance::{elapsed, BrowserInstance, NANOS_PER_SEC};
#[allow(unused_imports)]
use crate::browser::instance::elapsed_nanos;

verus! {

/// Launch failures in a row after which the circuit breaker opens.
pub const MAX_CONSECUTIVE_FAILURES: usize = 10;

/// How long an open circuit breaker waits before a recovery is tried.
pub const CIRCUIT_BREAKER_RECOVERY_SECS: u64 = 120;

/// How often a browser is looked for before an acquisition fails.
pub const MAX_ACQUIRE_ATTEMPTS: usize = 3;

/// Circuit breaker: counts the launch failures in a row and keeps the time at which it tripped.
#[derive(Clone, Copy, Debug, PartialEq, Eq, Structural)]
pub struct CircuitBreakerState {
    pub consecutive_failures: usize,
    pub tripped_at: Option<u128>,
}

impl CircuitBreakerState {
    pub open spec fn closed() -> CircuitBreakerState {
        CircuitBreakerState { consecutive_failures: 0, tripped_at: None }
    }

    pub open spec fn opened(self, max_failures: usize) -> bool {
        self.consecutive_failures >= max_failures
    }

    /// The breaker after one more failure at `now`.
    pub open spec fn failed(self, max_failures: usize, now: u128) -> CircuitBreakerState {
        let failures = (self.consecutive_failures + 1) as usize;
        CircuitBreakerState {
            consecutive_failures: failures,
            tripped_at: if failures >= max_failures && self.tripped_at is None {
                Some(now)
            } else {
                self.tripped_at
            },
        }
    }

    /// The cooldown is over at `now`; it never is while the breaker has not tripped.
    pub open spec fn cooled_down(self, cooldown_secs: u64, now: u128) -> bool {
        match self.tripped_at {
            Some(at) => elapsed_nanos(at, now) >= cooldown_secs * NANOS_PER_SEC,
            None => false,
        }
    }

    /// The breaker with its cooldown started anew at `now`.
    pub open spec fn cooling_from(self, now: u128) -> CircuitBreakerState {
        CircuitBreakerState { tripped_at: Some(now), ..self }
    }

    pub fn new() -> (r: Self)
        ensures
            r == Self::closed(),
    {
        CircuitBreakerState { consecutive_failures: 0, tripped_at: None }
    }

    pub fn record_failure(&mut self, max_failures: usize, now: u128)
        requires
            old(self).consecutive_failures < usize::MAX,
        ensures
            *final(self) == old(self).failed(max_failures, now),
    {
        self.consecutive_failures = self.consecutive_failures + 1;
        if self.consecutive_failures >= max_failures && self.tripped_at.is_none() {
            self.tripped_at = Some(now);
        }
    }

    pub fn reset(&mut self)
        ensures
            *final(self) == Self::closed(),
    {
        self.consecutive_failures = 0;
        self.tripped_at = None;
    }

    pub fn is_open(&self, max_failures: usize) -> (r: bool)
        ensures
            r == self.opened(max_failures),
    {
        self.consecutive_failures >= max_failures
    }

    pub fn should_attempt_recovery(&self, cooldown_secs: u64, now: u128) -> (r: bool)
        ensures
            r == self.cooled_down(cooldown_secs, now),
    {
        if let Some(at) = self.tripped_at {
            elapsed(at, now) >= cooldown_secs as u128 * NANOS_PER_SEC
        } else {
            false
        }
    }

    pub fn reset_cooldown(&mut self, now: u128)
        ensures
            *final(self) == old(self).cooling_from(now),
    {
        self.tripped_at = Some(now);
    }
}

/// Connection pool for browser instances.
#[derive(Debug)]
pub struct BrowserPool {
    pub instances: Vec<BrowserInstance>,
    pub chrome_path: String,
    pub max_instances: usize,
    pub min_instances: usize,
    pub circuit_breaker: CircuitBreakerState,
}

/// What a pool holds, the oldest browser first.
#[verifier::ext_equal]
pub struct PoolState {
    pub instances: Seq<BrowserInstance>,
    pub max_instances: usize,
    pub min_instances: usize,
    pub breaker: CircuitBreakerState,
}

/// What happened last in an acquisition; the attempt and the place are those of the action that
/// it answers.
#[derive(Clone, Copy, Debug, PartialEq, Eq, Structural)]
pub enum AcquireInput {
    Begin,
    PingAnswered { index: usize },
    PingFailed { attempt: usize, index: usize },
    Launched { id: u64 },
    LaunchFailed { attempt: usize },
    Waited { attempt: usize },
}

/// What to do next in an acquisition. The pool stays locked until the answer, except while
/// waiting.
#[derive(Clone, Copy, Debug, PartialEq, Eq, Structural)]
pub enum AcquireAction {
    Ping { attempt: usize, index: usize, id: u64 },
    Launch { attempt: usize },
    Wait { attempt: usize, millis: u64 },
    Ready { id: u64 },
    AllInstancesFailed,
}

/// What happened last in a maintenance run.
#[derive(Clone, Copy, Debug, PartialEq, Eq, Structural)]
pub enum MaintainInput {
    Begin,
    RecoveryLaunched { id: u64 },
    RecoveryFailed,
    RefillLaunched { id: u64 },
    RefillFailed,
}

/// What to do next in a maintenance run.
#[derive(Clone, Copy, Debug, PartialEq, Eq, Structural)]
pub enum MaintainAction {
    /// The breaker is open: leave the pool alone for the seconds that are left.
    CoolDown { remaining_secs: u64 },
    LaunchRecovery,
    LaunchRefill,
    Done,
    /// The pool could not be recovered: end the process, so that it is started anew.
    Exit { code: i32 },
}

// ---------------------------------------------------------------------------
// Model
// ---------------------------------------------------------------------------

/// The first place from `from` on whose browser may be handed out.
pub open spec fn first_usable(s: Seq<BrowserInstance>, from: int, now: u128) -> Option<int>
    decreases s.len() - from,
{
    if from < 0 || from >= s.len() {
        None
    } else if s[from].usable(now) {
        Some(from)
    } else {
        first_usable(s, from + 1, now)
    }
}

impl PoolState {
    pub open spec fn with_instances(self, instances: Seq<BrowserInstance>) -> PoolState {
        PoolState { instances, ..self }
    }

    pub open spec fn with_breaker(self, breaker: CircuitBreakerState) -> PoolState {
        PoolState { breaker, ..self }
    }

    /// A browser joins at the end, and the breaker closes.
    pub open spec fn joined_by(self, instance: BrowserInstance) -> PoolState {
        PoolState {
            instances: self.instances.push(instance),
            breaker: CircuitBreakerState::closed(),
            ..self
        }
    }

    pub open spec fn after_failure(self, now: u128) -> PoolState {
        self.with_breaker(self.breaker.failed(MAX_CONSECUTIVE_FAILURES, now))
    }

    /// The pool without any browser.
    pub open spec fn cleared(self) -> PoolState {
        self.with_instances(Seq::empty())
    }

    /// The pool without the browsers that are known to be unhealthy.
    pub open spec fn without_unhealthy(self) -> PoolState {
        self.with_instances(self.instances.filter(|i: BrowserInstance| i.is_healthy))
    }

    /// A maintenance run at `now` keeps this browser: it is healthy and not due to retire, and
    /// not idle while the pool is above its minimum.
    pub open spec fn keeps(self, i: BrowserInstance, now: u128) -> bool {
        i.usable(now) && !(self.instances.len() > self.min_instances && i.idles(now))
    }

    pub open spec fn swept(self, now: u128) -> PoolState {
        self.with_instances(self.instances.filter(|i: BrowserInstance| self.keeps(i, now)))
    }

    /// An attempt goes on at place `from`: ping the next browser that may be handed out. If there
    /// is none, launch one where there is room; give up on a pool that is empty and may not grow;
    /// else try again.
    pub open spec fn seek(self, attempt: int, from: int, now: u128) -> (PoolState, AcquireAction)
        decreases MAX_ACQUIRE_ATTEMPTS - attempt, 0int,
    {
        match first_usable(self.instances, from, now) {
            Some(i) => (
                self,
                AcquireAction::Ping {
                    attempt: attempt as usize,
                    index: i as usize,
                    id: self.instances[i].id,
                },
            ),
            None => if self.instances.len() < self.max_instances {
                (self, AcquireAction::Launch { attempt: attempt as usize })
            } else if self.instances.len() == 0 {
                (self, AcquireAction::AllInstancesFailed)
            } else if attempt + 1 < MAX_ACQUIRE_ATTEMPTS {
                self.without_unhealthy().seek(attempt + 1, 0, now)
            } else {
                (self, AcquireAction::AllInstancesFailed)
            },
        }
    }

    /// An attempt begins by dropping the unhealthy browsers.
    pub open spec fn attempt(self, attempt: int, now: u128) -> (PoolState, AcquireAction) {
        if attempt < MAX_ACQUIRE_ATTEMPTS {
            self.without_unhealthy().seek(attempt, 0, now)
        } else {
            (self, AcquireAction::AllInstancesFailed)
        }
    }

    /// The pool and the next action of an acquisition.
    pub open spec fn acquire_step(self, input: AcquireInput, now: u128) -> (
        PoolState,
        AcquireAction,
    ) {
        match input {
            AcquireInput::Begin => self.attempt(0, now),
            AcquireInput::PingAnswered { index } => {
                let i = self.instances[index as int];
                (
                    self.with_instances(
                        self.instances.update(index as int, i.used(now)),
                    ).with_breaker(CircuitBreakerState::closed()),
                    AcquireAction::Ready { id: i.id },
                )
            },
            AcquireInput::PingFailed { attempt, index } => {
                let i = self.instances[index as int];
                self.with_instances(self.instances.update(index as int, i.unhealthy())).seek(
                    attempt as int,
                    index + 1,
                    now,
                )
            },
            AcquireInput::Launched { id } => (
                self.joined_by(BrowserInstance::fresh(id, now).used(now)),
                AcquireAction::Ready { id },
            ),
            AcquireInput::LaunchFailed { attempt } => (
                self.after_failure(now),
                if attempt + 1 < MAX_ACQUIRE_ATTEMPTS {
                    AcquireAction::Wait { attempt, millis: (500 * (attempt + 1)) as u64 }
                } else {
                    AcquireAction::AllInstancesFailed
                },
            ),
            AcquireInput::Waited { attempt } => self.attempt(attempt + 1, now),
        }
    }

    /// The input answers an action that this pool can have asked for.
    pub open spec fn answers(self, input: AcquireInput) -> bool {
        match input {
            AcquireInput::Begin => true,
            AcquireInput::PingAnswered { index } => {
                &&& index < self.instances.len()
                &&& self.instances[index as int].usage_count < usize::MAX
            },
            AcquireInput::PingFailed { attempt, index } => {
                &&& attempt < MAX_ACQUIRE_ATTEMPTS
                &&& index < self.instances.len()
            },
            AcquireInput::Launched { .. } => true,
            AcquireInput::LaunchFailed { attempt } => {
                &&& attempt < MAX_ACQUIRE_ATTEMPTS
                &&& self.breaker.consecutive_failures < usize::MAX
            },
            AcquireInput::Waited { attempt } => attempt < MAX_ACQUIRE_ATTEMPTS,
        }
    }

    /// Below its minimum a pool is refilled.
    pub open spec fn refill(self) -> (PoolState, MaintainAction) {
        (
            self,
            if self.instances.len() < self.min_instances {
                MaintainAction::LaunchRefill
            } else {
                MaintainAction::Done
            },
        )
    }

    /// The seconds of the cooldown that are left at `now`, counted in whole seconds elapsed.
    pub open spec fn remaining_cooldown(self, now: u128) -> int {
        match self.breaker.tripped_at {
            Some(at) => {
                let secs = elapsed_nanos(at, now) / NANOS_PER_SEC as int;
                if secs < CIRCUIT_BREAKER_RECOVERY_SECS {
                    CIRCUIT_BREAKER_RECOVERY_SECS - secs
                } else {
                    0
                }
            },
            None => CIRCUIT_BREAKER_RECOVERY_SECS as int,
        }
    }

    /// The pool and the next action of a maintenance run.
    pub open spec fn maintain_step(self, input: MaintainInput, now: u128) -> (
        PoolState,
        MaintainAction,
    ) {
        match input {
            MaintainInput::Begin => if !self.breaker.opened(MAX_CONSECUTIVE_FAILURES) {
                self.swept(now).refill()
            } else if self.breaker.cooled_down(CIRCUIT_BREAKER_RECOVERY_SECS, now) {
                (self, MaintainAction::LaunchRecovery)
            } else {
                (
                    if self.breaker.tripped_at is None {
                        self.with_breaker(self.breaker.cooling_from(now))
                    } else {
                        self
                    },
                    MaintainAction::CoolDown {
                        remaining_secs: self.remaining_cooldown(now) as u64,
                    },
                )
            },
            MaintainInput::RecoveryLaunched { id } => (
                self.joined_by(BrowserInstance::fresh(id, now)),
                MaintainAction::Done,
            ),
            MaintainInput::RecoveryFailed => (
                self.with_breaker(self.breaker.cooling_from(now)),
                MaintainAction::Exit { code: 1 },
            ),
            MaintainInput::RefillLaunched { id } => self.joined_by(
                BrowserInstance::fresh(id, now),
            ).refill(),
            MaintainInput::RefillFailed => (self.after_failure(now), MaintainAction::Done),
        }
    }
}

/// The browsers among the launches, in order.
pub open spec fn launched_instances(launches: Seq<Option<BrowserInstance>>) -> Seq<BrowserInstance>
    decreases launches.len(),
{
    if launches.len() == 0 {
        Seq::empty()
    } else {
        let before = launched_instances(launches.drop_last());
        match launches.last() {
            Some(i) => before.push(i),
            None => before,
        }
    }
}

proof fn lemma_launched_len(launches: Seq<Option<BrowserInstance>>)
    ensures
        launched_instances(launches).len() <= launches.len(),
    decreases launches.len(),
{
    if launches.len() > 0 {
        lemma_launched_len(launches.drop_last());
    }
}

// ---------------------------------------------------------------------------
// Operations
// ---------------------------------------------------------------------------

impl BrowserPool {
    pub open spec fn state(self) -> PoolState {
        PoolState {
            instances: self.instances@,
            max_instances: self.max_instances,
            min_instances: self.min_instances,
            breaker: self.circuit_breaker,
        }
    }

    /// One more browser is to be launched for a new pool: so far there were fewer launches,
    /// successful or not, than the pool keeps browsers.
    pub fn launch_due(min_instances: usize, launches: &Vec<Option<BrowserInstance>>) -> (r: bool)
        ensures
            r == (launches@.len() < min_instances),
            r <==> launches@.len() + 1 <= min_instances,
    {
        launches.len() < min_instances
    }

    /// A pool of the browsers that could be launched, after as many launches as it keeps browsers;
    /// an error where none could.
    pub fn new(
        chrome_path: String,
        min_instances: usize,
        max_instances: usize,
        launches: &Vec<Option<BrowserInstance>>,
    ) -> (r: Result<Self, String>)
        requires
            launches@.len() == min_instances,
        ensures
            match r {
                Ok(pool) => {
                    &&& 0 < launched_instances(launches@).len() <= min_instances
                    &&& pool.chrome_path@ == chrome_path@
                    &&& pool.state() == PoolState {
                        instances: launched_instances(launches@),
                        max_instances,
                        min_instances,
                        breaker: CircuitBreakerState::closed(),
                    }
                },
                Err(message) => {
                    &&& launched_instances(launches@).len() == 0
                    &&& message@ == "Failed to create any browser instances"@
                },
            },
    {
        let mut instances: Vec<BrowserInstance> = Vec::new();
        let mut i: usize = 0;
        while i < launches.len()
            invariant
                i <= launches@.len(),
                instances@ == launched_instances(launches@.take(i as int)),
            decreases launches@.len() - i,
        {
            proof {
                assert(launches@.take(i + 1).drop_last() == launches@.take(i as int));
            }
            if let Some(instance) = launches[i] {
                instances.push(instance);
            }
            i += 1;
        }
        proof {
            assert(launches@.take(launches@.len() as int) == launches@);
        }
        proof {
            lemma_launched_len(launches@);
        }
        if instances.len() == 0 {
            return Err("Failed to create any browser instances".to_owned());
        }
        Ok(
            BrowserPool {
                instances,
                chrome_path,
                max_instances,
                min_instances,
                circuit_breaker: CircuitBreakerState::new(),
            },
        )
    }

    /// Takes all browsers out of the pool and tells how many there were.
    pub fn clear(&mut self) -> (r: usize)
        ensures
            r == old(self).instances@.len(),
            final(self).state() == old(self).state().cleared(),
            final(self).chrome_path == old(self).chrome_path,
    {
        let count: usize = self.instances.len();
        self.instances.clear();
        count
    }

    /// Takes note that the browser `id` is unhealthy, if the pool still holds it.
    pub fn mark_unhealthy(&mut self, id: u64)
        ensures
            final(self).state() == old(self).state().with_instances(
                old(self).instances@.map_values(
                    |i: BrowserInstance|
                        if i.id == id {
                            i.unhealthy()
                        } else {
                            i
                        },
                ),
            ),
            final(self).chrome_path == old(self).chrome_path,
            final(self).instances@.len() == old(self).instances@.len(),
            forall|j: int|
                0 <= j < old(self).instances@.len() ==> {
                    let (was, now_is) = (old(self).instances@[j], #[trigger] final(self).instances@[j]);
                    &&& now_is.id == was.id && now_is.created_at == was.created_at
                    &&& now_is.last_used == was.last_used && now_is.usage_count == was.usage_count
                    &&& now_is.is_healthy <==> was.is_healthy && was.id != id
                },
    {
        let ghost before = self.instances@;
        let mut k: usize = 0;
        while k < self.instances.len()
            invariant
                k <= self.instances@.len(),
                self.instances@.len() == before.len(),
                self.state() == old(self).state().with_instances(self.instances@),
                self.chrome_path == old(self).chrome_path,
                forall|j: int|
                    0 <= j < before.len() ==> #[trigger] self.instances@[j] == (if j < k
                        && before[j].id == id {
                        before[j].unhealthy()
                    } else {
                        before[j]
                    }),
            decreases before.len() - k,
        {
            let mut instance = self.instances[k];
            if instance.id == id {
                instance.mark_unhealthy();
                self.instances.set(k, instance);
            }
            k += 1;
        }
        proof {
            assert(self.instances@ =~= before.map_values(
                |i: BrowserInstance|
                    if i.id == id {
                        i.unhealthy()
                    } else {
                        i
                    },
            ));
        }
    }

    fn remove_unhealthy(&mut self)
        ensures
            final(self).state() == old(self).state().without_unhealthy(),
            final(self).chrome_path == old(self).chrome_path,
    {
        let ghost keep = |i: BrowserInstance| i.is_healthy;
        let mut kept: Vec<BrowserInstance> = Vec::new();
        let mut k: usize = 0;
        proof {
            reveal(Seq::filter);
            assert(self.instances@.take(0).filter(keep) =~= Seq::empty());
        }
        while k < self.instances.len()
            invariant
                k <= self.instances@.len(),
                *self == *old(self),
                keep == |i: BrowserInstance| i.is_healthy,
                kept@ == self.instances@.take(k as int).filter(keep),
            decreases self.instances@.len() - k,
        {
            proof {
                reveal(Seq::filter);
                assert(self.instances@.take(k + 1).drop_last() == self.instances@.take(k as int));
            }
            let instance = self.instances[k];
            if instance.is_healthy() {
                kept.push(instance);
            }
            k += 1;
        }
        proof {
            assert(self.instances@.take(self.instances@.len() as int) == self.instances@);
        }
        self.instances = kept;
    }

    fn sweep(&mut self, now: u128)
        ensures
            final(self).state() == old(self).state().swept(now),
            final(self).chrome_path == old(self).chrome_path,
    {
        let ghost before = self.state();
        let ghost keep = |i: BrowserInstance| before.keeps(i, now);
        let above_minimum: bool = self.instances.len() > self.min_instances;
        let mut kept: Vec<BrowserInstance> = Vec::new();
        let mut k: usize = 0;
        proof {
            reveal(Seq::filter);
            assert(self.instances@.take(0).filter(keep) =~= Seq::empty());
        }
        while k < self.instances.len()
            invariant
                k <= self.instances@.len(),
                *self == *old(self),
                before == old(self).state(),
                above_minimum == (before.instances.len() > before.min_instances),
                keep == |i: BrowserInstance| before.keeps(i, now),
                kept@ == self.instances@.take(k as int).filter(keep),
            decreases self.instances@.len() - k,
        {
            proof {
                reveal(Seq::filter);
                assert(self.instances@.take(k + 1).drop_last() == self.instances@.take(k as int));
            }
            let instance = self.instances[k];
            let is_unhealthy = !instance.is_healthy();
            let should_retire = instance.should_retire(now);
            let is_idle = above_minimum && instance.is_idle_too_long(now);
            if !(is_unhealthy || should_retire || is_idle) {
                kept.push(instance);
            }
            k += 1;
        }
        proof {
            assert(self.instances@.take(self.instances@.len() as int) == self.instances@);
        }
        self.instances = kept;
    }

    /// Goes on with an attempt at place `from`.
    fn seek(&mut self, attempt: usize, from: usize, now: u128) -> (r: AcquireAction)
        requires
            attempt < MAX_ACQUIRE_ATTEMPTS,
            from <= old(self).instances@.len(),
        ensures
            (final(self).state(), r) == old(self).state().seek(attempt as int, from as int, now),
            final(self).chrome_path == old(self).chrome_path,
        decreases MAX_ACQUIRE_ATTEMPTS - attempt,
    {
        let mut k: usize = from;
        while k < self.instances.len()
            invariant
                k <= self.instances@.len(),
                *self == *old(self),
                attempt < MAX_ACQUIRE_ATTEMPTS,
                first_usable(self.instances@, from as int, now) == first_usable(
                    self.instances@,
                    k as int,
                    now,
                ),
            decreases self.instances@.len() - k,
        {
            let instance = self.instances[k];
            if instance.is_healthy() && !instance.should_retire(now) {
                return AcquireAction::Ping { attempt, index: k, id: instance.id };
            }
            k += 1;
        }
        if self.instances.len() < self.max_instances {
            AcquireAction::Launch { attempt }
        } else if self.instances.len() == 0 {
            AcquireAction::AllInstancesFailed
        } else if attempt + 1 < MAX_ACQUIRE_ATTEMPTS {
            self.remove_unhealthy();
            self.seek(attempt + 1, 0, now)
        } else {
            AcquireAction::AllInstancesFailed
        }
    }

    /// Begins an attempt.
    fn start_attempt(&mut self, attempt: usize, now: u128) -> (r: AcquireAction)
        ensures
            (final(self).state(), r) == old(self).state().attempt(attempt as int, now),
            final(self).chrome_path == old(self).chrome_path,
    {
        if attempt < MAX_ACQUIRE_ATTEMPTS {
            self.remove_unhealthy();
            self.seek(attempt, 0, now)
        } else {
            AcquireAction::AllInstancesFailed
        }
    }

    /// One step towards a healthy browser: drops the unhealthy ones, has each that may be handed
    /// out pinged in turn, and has a new one launched where none is left and the pool may grow.
    pub fn get_healthy_instance(&mut self, input: AcquireInput, now: u128) -> (r: AcquireAction)
        requires
            old(self).state().answers(input),
        ensures
            (final(self).state(), r) == old(self).state().acquire_step(input, now),
            final(self).chrome_path == old(self).chrome_path,
    {
        match input {
            AcquireInput::Begin => self.start_attempt(0, now),
            AcquireInput::PingAnswered { index } => {
                let mut instance = self.instances[index];
                instance.mark_used(now);
                self.instances.set(index, instance);
                self.circuit_breaker.reset();
                AcquireAction::Ready { id: instance.id }
            },
            AcquireInput::PingFailed { attempt, index } => {
                let size: usize = self.instances.len();
                let mut instance = self.instances[index];
                instance.mark_unhealthy();
                self.instances.set(index, instance);
                assert(index < size);
                self.seek(attempt, index + 1, now)
            },
            AcquireInput::Launched { id } => {
                let mut instance = BrowserInstance::new(id, now);
                instance.mark_used(now);
                self.instances.push(instance);
                self.circuit_breaker.reset();
                AcquireAction::Ready { id }
            },
            AcquireInput::LaunchFailed { attempt } => {
                self.circuit_breaker.record_failure(MAX_CONSECUTIVE_FAILURES, now);
                if attempt + 1 < MAX_ACQUIRE_ATTEMPTS {
                    AcquireAction::Wait { attempt, millis: 500 * (attempt as u64 + 1) }
                } else {
                    AcquireAction::AllInstancesFailed
                }
            },
            AcquireInput::Waited { attempt } => self.start_attempt(attempt + 1, now),
        }
    }

    fn refill(&self) -> (r: MaintainAction)
        ensures
            (self.state(), r) == self.state().refill(),
    {
        if self.instances.len() >= self.min_instances {
            MaintainAction::Done
        } else {
            MaintainAction::LaunchRefill
        }
    }

    /// One step of a maintenance run: sweeps the pool and refills it to its minimum, or, once the
    /// circuit breaker has opened, waits for its cooldown and tries one launch.
    pub fn maintain(&mut self, input: MaintainInput, now: u128) -> (r: MaintainAction)
        requires
            input == MaintainInput::RefillFailed
                ==> old(self).circuit_breaker.consecutive_failures < usize::MAX,
        ensures
            (final(self).state(), r) == old(self).state().maintain_step(input, now),
            final(self).chrome_path == old(self).chrome_path,
    {
        match input {
            MaintainInput::Begin => {
                if self.circuit_breaker.is_open(MAX_CONSECUTIVE_FAILURES) {
                    if self.circuit_breaker.should_attempt_recovery(
                        CIRCUIT_BREAKER_RECOVERY_SECS,
                        now,
                    ) {
                        return MaintainAction::LaunchRecovery;
                    }
                    let remaining_secs: u64 = if let Some(at) = self.circuit_breaker.tripped_at {
                        let secs: u128 = elapsed(at, now) / NANOS_PER_SEC;
                        if secs < CIRCUIT_BREAKER_RECOVERY_SECS as u128 {
                            CIRCUIT_BREAKER_RECOVERY_SECS - secs as u64
                        } else {
                            0
                        }
                    } else {
                        CIRCUIT_BREAKER_RECOVERY_SECS
                    };
                    if self.circuit_breaker.tripped_at.is_none() {
                        self.circuit_breaker.reset_cooldown(now);
                    }
                    return MaintainAction::CoolDown { remaining_secs };
                }
                self.sweep(now);
                self.refill()
            },
            MaintainInput::RecoveryLaunched { id } => {
                self.instances.push(BrowserInstance::new(id, now));
                self.circuit_breaker.reset();
                MaintainAction::Done
            },
            MaintainInput::RecoveryFailed => {
                self.circuit_breaker.reset_cooldown(now);
                MaintainAction::Exit { code: 1 }
            },
            MaintainInput::RefillLaunched { id } => {
                self.instances.push(BrowserInstance::new(id, now));
                self.circuit_breaker.reset();
                self.refill()
            },
            MaintainInput::RefillFailed => {
                self.circuit_breaker.record_failure(MAX_CONSECUTIVE_FAILURES, now);
                MaintainAction::Done
            },
        }
    }
}

// ---------------------------------------------------------------------------
// Laws
// ---------------------------------------------------------------------------

/// The search for a browser stops at the first one that may be handed out, and finds none only
/// where there is none.
pub proof fn law_first_usable(s: Seq<BrowserInstance>, from: int, now: u128)
    requires
        0 <= from,
    ensures
        match first_usable(s, from, now) {
            Some(i) => {
                &&& from <= i < s.len()
                &&& s[i].usable(now)
                &&& forall|j: int| from <= j < i ==> !(#[trigger] s[j]).usable(now)
            },
            None => forall|j: int| from <= j < s.len() ==> !(#[trigger] s[j]).usable(now),
        },
    decreases s.len() - from,
{
    if from < s.len() && !s[from].usable(now) {
        law_first_usable(s, from + 1, now);
    }
}

proof fn lemma_filter_len<A>(s: Seq<A>, keep: spec_fn(A) -> bool)
    ensures
        s.filter(keep).len() <= s.len(),
        forall|j: int| 0 <= j < s.filter(keep).len() ==> keep(#[trigger] s.filter(keep)[j]),
        forall|j: int|
            0 <= j < s.filter(keep).len() ==> s.contains(#[trigger] s.filter(keep)[j]),
    decreases s.len(),
{
    reveal(Seq::filter);
    if s.len() > 0 {
        let before = s.drop_last();
        lemma_filter_len(before, keep);
        assert forall|j: int| 0 <= j < s.filter(keep).len() implies s.contains(
            #[trigger] s.filter(keep)[j],
        ) by {
            if j < before.filter(keep).len() {
                let x = before.filter(keep)[j];
                assert(before.contains(x));
                let k = choose|k: int| 0 <= k < before.len() && before[k] == x;
                assert(s[k] == x);
            } else {
                assert(s[s.len() - 1] == s.last());
            }
        }
    }
}

proof fn lemma_filter_keeps<A>(s: Seq<A>, keep: spec_fn(A) -> bool)
    ensures
        forall|j: int|
            0 <= j < s.len() && keep(#[trigger] s[j]) ==> s.filter(keep).contains(s[j]),
    decreases s.len(),
{
    reveal(Seq::filter);
    if s.len() > 0 {
        let before = s.drop_last();
        let earlier = before.filter(keep);
        lemma_filter_keeps(before, keep);
        assert forall|j: int| 0 <= j < s.len() && keep(#[trigger] s[j]) implies s.filter(
            keep,
        ).contains(s[j]) by {
            if j < before.len() {
                assert(before[j] == s[j]);
                assert(earlier.contains(s[j]));
                let k = choose|k: int| 0 <= k < earlier.len() && earlier[k] == s[j];
                assert(s.filter(keep)[k] == s[j]);
            } else {
                assert(s.filter(keep)[earlier.len() as int] == s[j]);
            }
        }
    }
}

proof fn lemma_filter_all<A>(s: Seq<A>, keep: spec_fn(A) -> bool)
    requires
        forall|j: int| 0 <= j < s.len() ==> keep(#[trigger] s[j]),
    ensures
        s.filter(keep) == s,
    decreases s.len(),
{
    reveal(Seq::filter);
    if s.len() > 0 {
        assert forall|j: int| 0 <= j < s.len() - 1 implies keep(#[trigger] s.drop_last()[j]) by {
            assert(s.drop_last()[j] == s[j]);
        }
        lemma_filter_all(s.drop_last(), keep);
        assert(keep(s[s.len() - 1]));
        assert(s.drop_last().push(s.last()) =~= s);
    } else {
        assert(s.filter(keep) =~= s);
    }
}

/// No browser before this place may be handed out.
pub open spec fn none_usable_before(p: PoolState, place: int, now: u128) -> bool {
    forall|j: int| 0 <= j < place ==> !(#[trigger] p.instances[j]).usable(now)
}

/// What a search of the pool leaves alone, what it asks for, and that it goes forward.
proof fn lemma_seek(p: PoolState, attempt: int, from: int, now: u128)
    requires
        0 <= attempt < MAX_ACQUIRE_ATTEMPTS,
        0 <= from,
        p.instances.len() <= usize::MAX,
    ensures
        ({
            let (q, action) = p.seek(attempt, from, now);
            &&& q.instances.len() <= p.instances.len()
            &&& q == p.with_instances(q.instances)
            &&& match action {
                AcquireAction::Ping { attempt: a, index, id } => {
                    &&& attempt <= a < MAX_ACQUIRE_ATTEMPTS
                    &&& a > attempt || index >= from
                    &&& none_usable_before(p, from, now) ==> none_usable_before(
                        q,
                        index as int,
                        now,
                    )
                    &&& index < q.instances.len()
                    &&& q.instances[index as int].usable(now)
                    &&& q.instances[index as int].id == id
                },
                AcquireAction::Launch { attempt: a } => {
                    &&& attempt <= a < MAX_ACQUIRE_ATTEMPTS
                    &&& q.instances.len() < q.max_instances
                },
                AcquireAction::AllInstancesFailed => q.instances.len() >= q.max_instances,
                _ => false,
            }
        }),
    decreases MAX_ACQUIRE_ATTEMPTS - attempt,
{
    law_first_usable(p.instances, from, now);
    if first_usable(p.instances, from, now) is None && p.instances.len() >= p.max_instances
        && p.instances.len() > 0 && attempt + 1 < MAX_ACQUIRE_ATTEMPTS {
        lemma_filter_len(p.instances, |i: BrowserInstance| i.is_healthy);
        lemma_seek(p.without_unhealthy(), attempt + 1, 0, now);
    }
}

/// What a step that searches the pool leaves alone.
proof fn lemma_search(p: PoolState, input: AcquireInput, now: u128)
    requires
        p.answers(input),
        p.instances.len() <= usize::MAX,
        input is Begin || input is PingFailed || input is Waited,
    ensures
        ({
            let (q, action) = p.acquire_step(input, now);
            &&& q.instances.len() <= p.instances.len()
            &&& q == p.with_instances(q.instances)
            &&& match action {
                AcquireAction::Ping { attempt, index, id } => {
                    &&& attempt < MAX_ACQUIRE_ATTEMPTS
                    &&& index < q.instances.len()
                    &&& q.instances[index as int].usable(now)
                    &&& q.instances[index as int].id == id
                },
                AcquireAction::Launch { attempt } => {
                    &&& attempt < MAX_ACQUIRE_ATTEMPTS
                    &&& q.instances.len() < q.max_instances
                },
                AcquireAction::AllInstancesFailed => {
                    ||| q.instances.len() >= q.max_instances
                    ||| input == AcquireInput::Waited {
                        attempt: (MAX_ACQUIRE_ATTEMPTS - 1) as usize,
                    }
                },
                _ => false,
            }
        }),
{
    lemma_filter_len(p.instances, |i: BrowserInstance| i.is_healthy);
    match input {
        AcquireInput::Begin => {
            lemma_seek(p.without_unhealthy(), 0, 0, now);
        },
        AcquireInput::PingFailed { attempt, index } => {
            let i = p.instances[index as int];
            lemma_seek(
                p.with_instances(p.instances.update(index as int, i.unhealthy())),
                attempt as int,
                index + 1,
                now,
            );
        },
        AcquireInput::Waited { attempt } => {
            if attempt + 1 < MAX_ACQUIRE_ATTEMPTS {
                lemma_seek(p.without_unhealthy(), attempt + 1, 0, now);
            }
        },
        _ => {},
    }
}

/// A step of an acquisition asks only for what can be answered: the browser to ping is healthy
/// and not due to retire, a browser is launched only where the pool is below its maximum, the
/// acquisition fails only after a full pool held none or the last launch failed, and a browser
/// that is handed out has closed the circuit breaker.
pub proof fn law_acquire_actions(p: PoolState, input: AcquireInput, now: u128)
    requires
        p.answers(input),
        p.instances.len() <= usize::MAX,
    ensures
        ({
            let (q, action) = p.acquire_step(input, now);
            match action {
                AcquireAction::Ping { attempt, index, id } => {
                    &&& index < q.instances.len()
                    &&& q.instances[index as int].usable(now)
                    &&& q.instances[index as int].id == id
                    &&& q.answers(AcquireInput::PingAnswered { index })
                    &&& q.answers(AcquireInput::PingFailed { attempt, index })
                },
                AcquireAction::Launch { attempt } => {
                    &&& attempt < MAX_ACQUIRE_ATTEMPTS
                    &&& q.instances.len() < q.max_instances
                },
                AcquireAction::Wait { attempt, millis } => {
                    &&& attempt + 1 < MAX_ACQUIRE_ATTEMPTS
                    &&& millis == 500 * (attempt + 1)
                    &&& q.answers(AcquireInput::Waited { attempt })
                },
                AcquireAction::Ready { id } => {
                    &&& q.breaker == CircuitBreakerState::closed()
                    &&& exists|k: int|
                        0 <= k < q.instances.len() && (#[trigger] q.instances[k]).id == id
                },
                AcquireAction::AllInstancesFailed => {
                    ||| q.instances.len() >= q.max_instances
                    ||| input == AcquireInput::LaunchFailed {
                        attempt: (MAX_ACQUIRE_ATTEMPTS - 1) as usize,
                    }
                    ||| input == AcquireInput::Waited {
                        attempt: (MAX_ACQUIRE_ATTEMPTS - 1) as usize,
                    }
                },
            }
        }),
{
    let (q, action) = p.acquire_step(input, now);
    match input {
        AcquireInput::PingAnswered { index } => {
            assert(q.instances[index as int].id == p.instances[index as int].id);
        },
        AcquireInput::Launched { id } => {
            assert(q.instances[q.instances.len() - 1].id == id);
        },
        AcquireInput::LaunchFailed { attempt } => {},
        _ => {
            lemma_search(p, input, now);
        },
    }
}

/// An acquisition grows the pool by one browser where one was launched for it, and never
/// otherwise: with the launch asked for only below the maximum, the pool stays within it.
pub proof fn law_acquire_growth(p: PoolState, input: AcquireInput, now: u128)
    requires
        p.answers(input),
        p.instances.len() <= usize::MAX,
    ensures
        ({
            let (q, action) = p.acquire_step(input, now);
            &&& q.max_instances == p.max_instances
            &&& q.min_instances == p.min_instances
            &&& input is Launched ==> q.instances.len() == p.instances.len() + 1
            &&& !(input is Launched) ==> q.instances.len() <= p.instances.len()
            &&& p.instances.len() <= p.max_instances && (input is Launched ==> p.instances.len()
                < p.max_instances) ==> q.instances.len() <= q.max_instances
        }),
{
    if input is Begin || input is PingFailed || input is Waited {
        lemma_search(p, input, now);
    }
}

/// An acquisition makes progress: after a ping that failed, what is pinged next stands further on
/// in the pool or belongs to a later attempt, and a wait is followed by a later attempt. With the
/// attempts limited, an acquisition ends.
pub proof fn law_acquire_progress(p: PoolState, input: AcquireInput, now: u128)
    requires
        p.answers(input),
        p.instances.len() <= usize::MAX,
    ensures
        match (input, p.acquire_step(input, now).1) {
            (
                AcquireInput::PingFailed { attempt, index },
                AcquireAction::Ping { attempt: a, index: i, .. },
            ) => a > attempt || (a == attempt && i > index),
            (
                AcquireInput::PingFailed { attempt, .. },
                AcquireAction::Launch { attempt: a },
            ) => a >= attempt,
            (AcquireInput::Waited { attempt }, AcquireAction::Ping { attempt: a, .. }) => a
                > attempt,
            (AcquireInput::Waited { attempt }, AcquireAction::Launch { attempt: a }) => a > attempt,
            (AcquireInput::LaunchFailed { attempt }, AcquireAction::Wait { attempt: a, .. }) => a
                == attempt && attempt + 1 < MAX_ACQUIRE_ATTEMPTS,
            (AcquireInput::LaunchFailed { .. }, action) => action
                == AcquireAction::AllInstancesFailed,
            _ => true,
        },
{
    match input {
        AcquireInput::PingFailed { attempt, index } => {
            let i = p.instances[index as int];
            lemma_seek(
                p.with_instances(p.instances.update(index as int, i.unhealthy())),
                attempt as int,
                index + 1,
                now,
            );
        },
        AcquireInput::Waited { attempt } => {
            if attempt + 1 < MAX_ACQUIRE_ATTEMPTS {
                lemma_filter_len(p.instances, |i: BrowserInstance| i.is_healthy);
                lemma_seek(p.without_unhealthy(), attempt + 1, 0, now);
            }
        },
        _ => {},
    }
}

/// The first browser that may be handed out is the same with the unhealthy ones dropped.
proof fn lemma_first_healthy(
    s: Seq<BrowserInstance>,
    healthy: Seq<BrowserInstance>,
    i: int,
    now: u128,
)
    requires
        healthy == s.filter(|b: BrowserInstance| b.is_healthy),
        0 <= i < healthy.len(),
        healthy[i].usable(now),
        forall|j: int| 0 <= j < i ==> !(#[trigger] healthy[j]).usable(now),
    ensures
        exists|k: int|
            {
                &&& 0 <= k < s.len()
                &&& #[trigger] s[k] == healthy[i]
                &&& forall|j: int| 0 <= j < k ==> !(#[trigger] s[j]).usable(now)
            },
    decreases s.len(),
{
    reveal(Seq::filter);
    let keep = |b: BrowserInstance| b.is_healthy;
    let before = s.drop_last();
    let (all, earlier) = (s.filter(keep), before.filter(keep));
    if i < earlier.len() {
        assert(forall|j: int| 0 <= j < earlier.len() ==> all[j] == #[trigger] earlier[j]);
        lemma_first_healthy(before, earlier, i, now);
        let k = choose|k: int|
            {
                &&& 0 <= k < before.len()
                &&& #[trigger] before[k] == earlier[i]
                &&& forall|j: int| 0 <= j < k ==> !(#[trigger] before[j]).usable(now)
            };
        assert(s[k] == all[i]);
        assert forall|j: int| 0 <= j < k implies !(#[trigger] s[j]).usable(now) by {
            assert(before[j] == s[j]);
        }
    } else {
        let k = s.len() - 1;
        assert(s[k] == all[i]);
        lemma_filter_keeps(before, keep);
        assert forall|j: int| 0 <= j < k implies !(#[trigger] s[j]).usable(now) by {
            if s[j].usable(now) {
                assert(before[j] == s[j]);
                assert(keep(before[j]));
                assert(earlier.contains(before[j]));
                let m = choose|m: int| 0 <= m < earlier.len() && earlier[m] == before[j];
                assert(all[m] == earlier[m]);
            }
        }
    }
}

/// A full pool of healthy browsers none of which may be handed out is of no use at any attempt.
proof fn lemma_seek_in_vain(p: PoolState, attempt: int, now: u128)
    requires
        0 <= attempt < MAX_ACQUIRE_ATTEMPTS,
        p.without_unhealthy() == p,
        first_usable(p.instances, 0, now) is None,
        p.instances.len() >= p.max_instances,
    ensures
        p.seek(attempt, 0, now) == (p, AcquireAction::AllInstancesFailed),
    decreases MAX_ACQUIRE_ATTEMPTS - attempt,
{
    if p.instances.len() > 0 && attempt + 1 < MAX_ACQUIRE_ATTEMPTS {
        lemma_seek_in_vain(p, attempt + 1, now);
    }
}

/// What an attempt begins with, at the start and after a wait: the unhealthy browsers leave, and
/// of the rest the first that may be handed out is pinged. Only where there is none is one
/// launched, and only where there is room; where there is no room the acquisition fails.
pub proof fn law_acquire_attempt(p: PoolState, input: AcquireInput, now: u128)
    requires
        p.instances.len() <= usize::MAX,
        input is Begin || (input matches AcquireInput::Waited { attempt } && attempt < 2),
    ensures
        ({
            let (q, action) = p.acquire_step(input, now);
            let number: int = match input {
                AcquireInput::Waited { attempt } => attempt + 1,
                _ => 0,
            };
            let some_usable = exists|j: int|
                0 <= j < p.instances.len() && (#[trigger] p.instances[j]).usable(now);
            &&& q.instances == p.instances.filter(|i: BrowserInstance| i.is_healthy)
            &&& q.breaker == p.breaker && q.max_instances == p.max_instances && q.min_instances
                == p.min_instances
            &&& some_usable <==> action is Ping
            &&& action matches AcquireAction::Ping { attempt, index, id } ==> {
                &&& attempt == number
                &&& index < q.instances.len() && q.instances[index as int].usable(now)
                &&& forall|j: int| 0 <= j < index ==> !(#[trigger] q.instances[j]).usable(now)
                &&& exists|k: int|
                    {
                        &&& 0 <= k < p.instances.len()
                        &&& #[trigger] p.instances[k] == q.instances[index as int]
                        &&& p.instances[k].id == id
                        &&& forall|j: int| 0 <= j < k ==> !(#[trigger] p.instances[j]).usable(now)
                    }
            }
            &&& action is Launch <==> !some_usable && q.instances.len() < p.max_instances
            &&& action matches AcquireAction::Launch { attempt } ==> {
                &&& attempt == number
                &&& forall|j: int|
                    0 <= j < q.instances.len() ==> !(#[trigger] q.instances[j]).usable(now)
            }
            &&& action is AllInstancesFailed <==> !some_usable && q.instances.len()
                >= p.max_instances
        }),
{
    let keep = |i: BrowserInstance| i.is_healthy;
    let w = p.without_unhealthy();
    let number: int = match input {
        AcquireInput::Waited { attempt } => attempt + 1,
        _ => 0,
    };
    lemma_filter_len(p.instances, keep);
    lemma_filter_keeps(p.instances, keep);
    law_first_usable(w.instances, 0, now);
    assert(p.acquire_step(input, now) == w.seek(number, 0, now));
    match first_usable(w.instances, 0, now) {
        Some(i) => {
            lemma_first_healthy(p.instances, w.instances, i, now);
        },
        None => {
            assert forall|j: int| 0 <= j < p.instances.len() implies !(
            #[trigger] p.instances[j]).usable(now) by {
                if p.instances[j].usable(now) {
                    assert(keep(p.instances[j]));
                    assert(w.instances.contains(p.instances[j]));
                }
            }
            if w.instances.len() >= p.max_instances {
                lemma_filter_all(w.instances, keep);
                lemma_seek_in_vain(w, number, now);
            }
        },
    }
}

/// What follows a ping that was not answered: the browser is unhealthy from then on, and the first
/// that may be handed out behind it is pinged in the same attempt. Where there is none, one is
/// launched if there is room; else the attempt is over, and the next begins as after a wait, up to
/// the third.
pub proof fn law_acquire_ping_failed(p: PoolState, attempt: usize, index: usize, now: u128)
    requires
        p.instances.len() <= usize::MAX,
        attempt < 3,
        index < p.instances.len(),
    ensures
        ({
            let (q, action) = p.acquire_step(AcquireInput::PingFailed { attempt, index }, now);
            let lost = BrowserInstance { is_healthy: false, ..p.instances[index as int] };
            let marked = PoolState { instances: p.instances.update(index as int, lost), ..p };
            let some_behind = exists|j: int|
                index < j < p.instances.len() && (#[trigger] p.instances[j]).usable(now);
            &&& some_behind ==> {
                &&& q == marked
                &&& action matches AcquireAction::Ping { attempt: a, index: k, id }
                &&& a == attempt && index < k < p.instances.len()
                &&& p.instances[k as int].usable(now) && p.instances[k as int].id == id
                &&& forall|j: int| index < j < k ==> !(#[trigger] p.instances[j]).usable(now)
            }
            &&& !some_behind && p.instances.len() < p.max_instances ==> q == marked && action
                == AcquireAction::Launch { attempt }
            &&& !some_behind && p.instances.len() >= p.max_instances && attempt < 2 ==> (q, action)
                == marked.acquire_step(AcquireInput::Waited { attempt }, now)
            &&& !some_behind && p.instances.len() >= p.max_instances && attempt == 2 ==> q == marked
                && action == AcquireAction::AllInstancesFailed
        }),
{
    let lost = BrowserInstance { is_healthy: false, ..p.instances[index as int] };
    let marked = PoolState { instances: p.instances.update(index as int, lost), ..p };
    law_first_usable(marked.instances, index + 1, now);
    assert forall|j: int| index < j < p.instances.len() implies #[trigger] marked.instances[j]
        == p.instances[j] by {}
    if let Some(k) = first_usable(marked.instances, index + 1, now) {
        assert(p.instances[k].usable(now));
        assert forall|j: int| index < j < k implies !(#[trigger] p.instances[j]).usable(now) by {
            assert(marked.instances[j] == p.instances[j]);
        }
    } else {
        assert forall|j: int| index < j < p.instances.len() implies !(
        #[trigger] p.instances[j]).usable(now) by {
            assert(marked.instances[j] == p.instances[j]);
        }
    }
}

/// What follows the other answers. A browser that answered its ping is handed out, counted once
/// more and used now, and the others stay as they are. One that was launched joins behind them,
/// used once. Either way all failures are forgotten. A launch that failed counts, and is followed
/// by a wait of half a second, then of a whole one, then by the failure of the acquisition, as the
/// wait after the third attempt would be.
pub proof fn law_acquire_answers(
    p: PoolState,
    id: u64,
    attempt: usize,
    index: usize,
    now: u128,
)
    requires
        index < p.instances.len(),
        p.instances[index as int].usage_count < usize::MAX,
        p.breaker.consecutive_failures < usize::MAX,
        attempt < 3,
    ensures
        ({
            let (q, action) = p.acquire_step(AcquireInput::PingAnswered { index }, now);
            let (i, j) = (p.instances[index as int], q.instances[index as int]);
            &&& action == (AcquireAction::Ready { id: i.id })
            &&& q.instances.len() == p.instances.len()
            &&& forall|k: int|
                0 <= k < p.instances.len() && k != index ==> #[trigger] q.instances[k]
                    == p.instances[k]
            &&& j.id == i.id && j.created_at == i.created_at && j.is_healthy == i.is_healthy
            &&& j.last_used == now && j.usage_count == i.usage_count + 1
            &&& q.breaker.consecutive_failures == 0 && q.breaker.tripped_at is None
            &&& q.max_instances == p.max_instances && q.min_instances == p.min_instances
        }),
        ({
            let (q, action) = p.acquire_step(AcquireInput::Launched { id }, now);
            &&& action == (AcquireAction::Ready { id })
            &&& q.instances == p.instances.push(
                BrowserInstance {
                    id,
                    created_at: now,
                    last_used: now,
                    usage_count: 1,
                    is_healthy: true,
                },
            )
            &&& q.breaker.consecutive_failures == 0 && q.breaker.tripped_at is None
            &&& q.max_instances == p.max_instances && q.min_instances == p.min_instances
        }),
        ({
            let (q, action) = p.acquire_step(AcquireInput::LaunchFailed { attempt }, now);
            &&& q.instances == p.instances && q.max_instances == p.max_instances
            &&& q.min_instances == p.min_instances
            &&& one_more_failure(p.breaker, q.breaker, now)
            &&& attempt == 0 ==> action == (AcquireAction::Wait { attempt: 0, millis: 500 })
            &&& attempt == 1 ==> action == (AcquireAction::Wait { attempt: 1, millis: 1000 })
            &&& attempt == 2 ==> action == AcquireAction::AllInstancesFailed
        }),
        p.acquire_step(AcquireInput::Waited { attempt: 2 }, now) == (
            p,
            AcquireAction::AllInstancesFailed,
        ),
{
}

/// A step of an acquisition: the pool that it found, what happened before it, and its time.
pub struct AcquireEvent {
    pub pool: PoolState,
    pub input: AcquireInput,
    pub now: u128,
}

impl AcquireEvent {
    pub open spec fn pool_after(self) -> PoolState {
        self.pool.acquire_step(self.input, self.now).0
    }

    pub open spec fn action(self) -> AcquireAction {
        self.pool.acquire_step(self.input, self.now).1
    }
}

/// The input tells how the action went.
pub open spec fn is_reply(action: AcquireAction, input: AcquireInput) -> bool {
    match action {
        AcquireAction::Ping { attempt, index, .. } => {
            ||| input == AcquireInput::PingAnswered { index }
            ||| input == AcquireInput::PingFailed { attempt, index }
        },
        AcquireAction::Launch { attempt } => {
            ||| input is Launched
            ||| input == AcquireInput::LaunchFailed { attempt }
        },
        AcquireAction::Wait { attempt, .. } => input == AcquireInput::Waited { attempt },
        AcquireAction::Ready { .. } => false,
        AcquireAction::AllInstancesFailed => false,
    }
}

/// Nothing happened to the pool but that some of its browsers may have become unhealthy.
pub open spec fn only_health_lost(before: PoolState, after: PoolState) -> bool {
    &&& after.instances.len() == before.instances.len()
    &&& forall|j: int|
        0 <= j < before.instances.len() ==> {
            ||| (#[trigger] after.instances[j]) == before.instances[j]
            ||| after.instances[j] == before.instances[j].unhealthy()
        }
}

/// The second step can be the next after the first: it answers that one, no earlier than it. The
/// pool is locked meanwhile, so that browsers can only lose their health; during a wait anything
/// may happen to it.
pub open spec fn follows(first: AcquireEvent, second: AcquireEvent) -> bool {
    &&& is_reply(first.action(), second.input)
    &&& first.now <= second.now
    &&& !(first.action() is Wait) ==> only_health_lost(first.pool_after(), second.pool)
}

/// A run of an acquisition, complete or not, step by step.
pub open spec fn is_acquire_run(run: Seq<AcquireEvent>) -> bool {
    &&& run.len() > 0
    &&& run[0].input is Begin
    &&& forall|i: int|
        0 <= i < run.len() ==> (#[trigger] run[i]).pool.answers(run[i].input)
            && run[i].pool.instances.len() <= usize::MAX
    &&& forall|i: int, j: int|
        0 <= i && j == i + 1 && j < run.len() ==> follows(#[trigger] run[i], #[trigger] run[j])
}

/// How many launches a run asked for.
pub open spec fn launches_asked(run: Seq<AcquireEvent>) -> nat
    decreases run.len(),
{
    if run.len() == 0 {
        0
    } else {
        launches_asked(run.drop_last()) + if run.last().action() is Launch {
            1nat
        } else {
            0
        }
    }
}

proof fn lemma_run_prefix(run: Seq<AcquireEvent>)
    requires
        is_acquire_run(run),
        run.len() > 1,
    ensures
        is_acquire_run(run.drop_last()),
        run.drop_last().last() == run[run.len() - 2],
        follows(run[run.len() - 2], run.last()),
        run.last().pool.answers(run.last().input),
        run.last().pool.instances.len() <= usize::MAX,
{
    let before = run.drop_last();
    assert forall|i: int, j: int| 0 <= i && j == i + 1 && j < before.len() implies follows(
        #[trigger] before[i],
        #[trigger] before[j],
    ) by {
        assert(follows(run[i], run[j]));
    }
    assert(follows(run[run.len() - 2], run[run.len() - 1]));
}

/// The launches up to an action, by the attempt that it belongs to.
proof fn lemma_launches(run: Seq<AcquireEvent>)
    requires
        is_acquire_run(run),
    ensures
        match run.last().action() {
            AcquireAction::Ping { attempt, .. } => launches_asked(run) <= attempt && attempt
                < MAX_ACQUIRE_ATTEMPTS,
            AcquireAction::Launch { attempt } => launches_asked(run) <= attempt + 1 && attempt
                < MAX_ACQUIRE_ATTEMPTS,
            AcquireAction::Wait { attempt, .. } => launches_asked(run) <= attempt + 1 && attempt
                + 1 < MAX_ACQUIRE_ATTEMPTS,
            _ => launches_asked(run) <= MAX_ACQUIRE_ATTEMPTS,
        },
    decreases run.len(),
{
    let e = run.last();
    assert(run[run.len() - 1] == e);
    law_acquire_progress(e.pool, e.input, e.now);
    if e.input is Begin || e.input is PingFailed || e.input is Waited {
        lemma_search(e.pool, e.input, e.now);
    }
    if run.len() > 1 {
        lemma_run_prefix(run);
        lemma_launches(run.drop_last());
    } else {
        assert(launches_asked(run.drop_last()) == 0);
    }
}

/// A whole acquisition asks for at most as many launches as it has attempts.
pub proof fn law_acquire_launches(run: Seq<AcquireEvent>)
    requires
        is_acquire_run(run),
    ensures
        launches_asked(run) <= MAX_ACQUIRE_ATTEMPTS,
{
    lemma_launches(run);
}

/// What is not usable stays so while time goes on and browsers only lose their health.
proof fn lemma_still_unusable(p: PoolState, q: PoolState, place: int, before: u128, now: u128)
    requires
        none_usable_before(p, place, before),
        only_health_lost(p, q),
        place <= p.instances.len(),
        before <= now,
    ensures
        none_usable_before(q, place, now),
{
    assert forall|j: int| 0 <= j < place implies !(#[trigger] q.instances[j]).usable(now) by {
        assert(!p.instances[j].usable(before));
    }
}

/// Wherever a run pings a browser, no browser before it may be handed out.
proof fn lemma_ping_first(run: Seq<AcquireEvent>)
    requires
        is_acquire_run(run),
    ensures
        ({
            let e = run.last();
            e.action() matches AcquireAction::Ping { attempt, index, id } ==> {
                &&& index < e.pool_after().instances.len()
                &&& e.pool_after().instances[index as int].usable(e.now)
                &&& e.pool_after().instances[index as int].id == id
                &&& none_usable_before(e.pool_after(), index as int, e.now)
            }
        }),
    decreases run.len(),
{
    let e = run.last();
    assert(run[run.len() - 1] == e);
    if e.input is Begin || e.input is PingFailed || e.input is Waited {
        lemma_search(e.pool, e.input, e.now);
        lemma_filter_len(e.pool.instances, |i: BrowserInstance| i.is_healthy);
    }
    match e.input {
        AcquireInput::Begin => {
            lemma_seek(e.pool.without_unhealthy(), 0, 0, e.now);
        },
        AcquireInput::Waited { attempt } => {
            if attempt + 1 < MAX_ACQUIRE_ATTEMPTS {
                lemma_seek(e.pool.without_unhealthy(), attempt + 1, 0, e.now);
            }
        },
        AcquireInput::PingFailed { attempt, index } => {
            assert(run.len() > 1);
            lemma_run_prefix(run);
            lemma_ping_first(run.drop_last());
            let last = run.drop_last().last();
            lemma_still_unusable(last.pool_after(), e.pool, index as int, last.now, e.now);
            let i = e.pool.instances[index as int];
            let p = e.pool.with_instances(e.pool.instances.update(index as int, i.unhealthy()));
            assert(none_usable_before(p, index + 1, e.now));
            lemma_seek(p, attempt as int, index + 1, e.now);
        },
        _ => {},
    }
}

/// A whole acquisition that hands out a browser hands out one that was just launched for it, or
/// the one that answered the ping before, which might be handed out when it was pinged, and before
/// which the pool holds none that may be: each of those is due to retire, or unhealthy, as one
/// that did not answer is.
pub proof fn law_acquire_first(run: Seq<AcquireEvent>)
    requires
        is_acquire_run(run),
    ensures
        run.last().action() matches AcquireAction::Ready { id } ==> {
            ||| run.last().input == AcquireInput::Launched { id }
            ||| {
                let (e, pinged) = (run.last(), run[run.len() - 2]);
                &&& run.len() > 1
                &&& e.input matches AcquireInput::PingAnswered { index }
                &&& e.pool.instances[index as int].id == id
                &&& pinged.action() matches AcquireAction::Ping { index: place, id: asked, .. }
                &&& place == index && asked == id
                &&& pinged.pool_after().instances[index as int].usable(pinged.now)
                &&& none_usable_before(e.pool, index as int, e.now)
            }
        },
{
    let e = run.last();
    assert(run[run.len() - 1] == e);
    if e.input is Begin || e.input is PingFailed || e.input is Waited {
        lemma_search(e.pool, e.input, e.now);
    }
    if let AcquireInput::PingAnswered { index } = e.input {
        lemma_run_prefix(run);
        lemma_ping_first(run.drop_last());
        let pinged = run.drop_last().last();
        lemma_still_unusable(pinged.pool_after(), e.pool, index as int, pinged.now, e.now);
        assert(e.pool.instances[index as int].id
            == pinged.pool_after().instances[index as int].id);
    }
}

/// A circuit breaker that counts as open for the pool knows when it tripped.
pub open spec fn trip_recorded(breaker: CircuitBreakerState) -> bool {
    breaker.opened(MAX_CONSECUTIVE_FAILURES) ==> breaker.tripped_at is Some
}

/// The pool's breaker starts out, and stays through every step, such that it knows its trip time
/// whenever it is open.
pub proof fn law_trip_recorded(
    p: PoolState,
    acquire: AcquireInput,
    maintain: MaintainInput,
    now: u128,
)
    requires
        trip_recorded(p.breaker),
        p.answers(acquire),
        p.instances.len() <= usize::MAX,
        maintain is RefillFailed ==> p.breaker.consecutive_failures < usize::MAX,
    ensures
        trip_recorded(CircuitBreakerState::closed()),
        trip_recorded(p.acquire_step(acquire, now).0.breaker),
        trip_recorded(p.maintain_step(maintain, now).0.breaker),
{
    if acquire is Begin || acquire is PingFailed || acquire is Waited {
        lemma_search(p, acquire, now);
    }
}

/// The breaker after failures at the given times.
pub open spec fn after_failures(
    breaker: CircuitBreakerState,
    max_failures: usize,
    times: Seq<u128>,
) -> CircuitBreakerState
    decreases times.len(),
{
    if times.len() == 0 {
        breaker
    } else {
        after_failures(breaker, max_failures, times.drop_last()).failed(max_failures, times.last())
    }
}

/// Failures in a row, with no success between them, open the breaker exactly when there are as
/// many as it allows, and its trip time is that of the failure that opened it.
pub proof fn law_breaker_opens(max_failures: usize, times: Seq<u128>)
    requires
        max_failures > 0,
        times.len() <= usize::MAX,
    ensures
        ({
            let b = after_failures(CircuitBreakerState::closed(), max_failures, times);
            &&& b.consecutive_failures == times.len()
            &&& b.opened(max_failures) <==> times.len() >= max_failures
            &&& b.tripped_at == (if times.len() >= max_failures {
                Some(times[max_failures - 1])
            } else {
                None
            })
        }),
    decreases times.len(),
{
    if times.len() > 0 {
        law_breaker_opens(max_failures, times.drop_last());
    }
}

/// A maintenance run at a closed breaker leaves only browsers that are healthy and not due to
/// retire, each of which was in the pool before, and asks for a launch exactly where fewer than
/// the minimum are left. It drops a browser only for a reason: whatever may be handed out stays,
/// unless it idles in a pool above its minimum.
pub proof fn law_sweep(p: PoolState, now: u128)
    requires
        !p.breaker.opened(MAX_CONSECUTIVE_FAILURES),
    ensures
        ({
            let (q, action) = p.maintain_step(MaintainInput::Begin, now);
            &&& q == p.with_instances(q.instances)
            &&& q.instances.len() <= p.instances.len()
            &&& forall|j: int|
                0 <= j < q.instances.len() ==> {
                    &&& (#[trigger] q.instances[j]).usable(now)
                    &&& p.instances.contains(q.instances[j])
                    &&& p.instances.len() > p.min_instances ==> !q.instances[j].idles(now)
                }
            &&& forall|j: int|
                0 <= j < p.instances.len() && (#[trigger] p.instances[j]).usable(now) && (
                p.instances.len() <= p.min_instances || !p.instances[j].idles(now))
                    ==> q.instances.contains(p.instances[j])
            &&& action == (if q.instances.len() < q.min_instances {
                MaintainAction::LaunchRefill
            } else {
                MaintainAction::Done
            })
        }),
{
    let keep = |i: BrowserInstance| p.keeps(i, now);
    lemma_filter_len(p.instances, keep);
    lemma_filter_keeps(p.instances, keep);
}

/// Which browsers a maintenance run keeps, on their clocks and counters, and in what order: those
/// that are healthy, at most twenty minutes old and handed out at most thirty times, and, in a pool
/// above its minimum, handed out within the last five minutes; as often and in the order in which
/// they were there. So it stands while fewer than ten launches failed in a row.
pub proof fn law_swept_browsers(p: PoolState, now: u128)
    requires
        p.breaker.consecutive_failures < 10,
    ensures
        ({
            let (q, action) = p.maintain_step(MaintainInput::Begin, now);
            &&& q.instances == p.instances.filter(
                |i: BrowserInstance|
                    i.is_healthy && i.usage_count <= 30 && now <= i.created_at + 1_200_000_000_000
                        && (p.instances.len() <= p.min_instances || now <= i.last_used
                        + 300_000_000_000),
            )
            &&& q.breaker == p.breaker && q.max_instances == p.max_instances && q.min_instances
                == p.min_instances
            &&& q.instances.len() < q.min_instances ==> action == MaintainAction::LaunchRefill
            &&& q.instances.len() >= q.min_instances ==> action == MaintainAction::Done
        }),
{
    let keep = |i: BrowserInstance| p.keeps(i, now);
    let stated = |i: BrowserInstance|
        i.is_healthy && i.usage_count <= 30 && now <= i.created_at + 1_200_000_000_000 && (
        p.instances.len() <= p.min_instances || now <= i.last_used + 300_000_000_000);
    assert(keep =~= stated);
}

/// A pool in which every browser is fresh in use loses none to a maintenance run, and a second run
/// at the same time finds nothing more to drop.
pub proof fn law_sweep_settles(p: PoolState, now: u128)
    requires
        p.breaker.consecutive_failures < 10,
    ensures
        ({
            let q = p.maintain_step(MaintainInput::Begin, now).0;
            &&& (forall|j: int|
                0 <= j < p.instances.len() ==> (#[trigger] p.instances[j]).is_healthy && now
                    <= p.instances[j].created_at + 1_200_000_000_000 && p.instances[j].usage_count
                    <= 30 && now <= p.instances[j].last_used + 300_000_000_000) ==> q == p
            &&& q.maintain_step(MaintainInput::Begin, now).0 == q
        }),
{
    let keep = |i: BrowserInstance| p.keeps(i, now);
    let q = p.maintain_step(MaintainInput::Begin, now).0;
    let again = |i: BrowserInstance| q.keeps(i, now);
    lemma_filter_len(p.instances, keep);
    assert forall|j: int| 0 <= j < q.instances.len() implies again(#[trigger] q.instances[j]) by {
        assert(keep(q.instances[j]));
    }
    lemma_filter_all(q.instances, again);
    if forall|j: int|
        0 <= j < p.instances.len() ==> (#[trigger] p.instances[j]).is_healthy && now
            <= p.instances[j].created_at + 1_200_000_000_000 && p.instances[j].usage_count <= 30
            && now <= p.instances[j].last_used + 300_000_000_000 {
        lemma_filter_all(p.instances, keep);
    }
}

/// What a maintenance run does while ten or more launches have failed in a row: it touches no
/// browser. Two minutes after the breaker tripped it asks for one launch; before, it says how many
/// seconds are left, counting only whole seconds gone by, and where the time of the trip is not
/// known the two minutes begin now.
pub proof fn law_maintain_open(p: PoolState, now: u128)
    requires
        p.breaker.consecutive_failures >= 10,
    ensures
        ({
            let (q, action) = p.maintain_step(MaintainInput::Begin, now);
            &&& q.instances == p.instances && q.max_instances == p.max_instances
            &&& q.min_instances == p.min_instances
            &&& q.breaker.consecutive_failures == p.breaker.consecutive_failures
            &&& match p.breaker.tripped_at {
                None => {
                    &&& action == MaintainAction::CoolDown { remaining_secs: 120 }
                    &&& q.breaker.tripped_at == Some(now)
                },
                Some(at) => {
                    &&& q.breaker.tripped_at == Some(at)
                    &&& now >= at + 120_000_000_000 <==> action == MaintainAction::LaunchRecovery
                    &&& now < at ==> action == MaintainAction::CoolDown { remaining_secs: 120 }
                    &&& at <= now < at + 120_000_000_000 ==> {
                        &&& action matches MaintainAction::CoolDown { remaining_secs }
                        &&& 1 <= remaining_secs <= 120
                        &&& (120 - remaining_secs) * 1_000_000_000 <= now - at
                        &&& now - at < (121 - remaining_secs) * 1_000_000_000
                    }
                },
            }
        }),
{
}

/// What becomes of a launch of a maintenance run. One that succeeded puts a fresh browser behind
/// those that are there and forgets all failures; a recovery is done with it, a refill goes on
/// while the pool is below its minimum. A failed refill counts one more failure and ends the run;
/// a failed recovery starts the cooldown anew and ends the process.
pub proof fn law_maintain_launches(p: PoolState, id: u64, now: u128)
    ensures
        ({
            let (recovered, done) = p.maintain_step(MaintainInput::RecoveryLaunched { id }, now);
            let (refilled, next) = p.maintain_step(MaintainInput::RefillLaunched { id }, now);
            let fresh = p.instances.push(
                BrowserInstance {
                    id,
                    created_at: now,
                    last_used: now,
                    usage_count: 0,
                    is_healthy: true,
                },
            );
            &&& recovered == refilled
            &&& refilled.instances == fresh
            &&& refilled.breaker.consecutive_failures == 0 && refilled.breaker.tripped_at is None
            &&& refilled.max_instances == p.max_instances && refilled.min_instances
                == p.min_instances
            &&& done == MaintainAction::Done
            &&& p.instances.len() + 1 < p.min_instances ==> next == MaintainAction::LaunchRefill
            &&& p.instances.len() + 1 >= p.min_instances ==> next == MaintainAction::Done
        }),
        ({
            let (q, action) = p.maintain_step(MaintainInput::RefillFailed, now);
            &&& action == MaintainAction::Done
            &&& q.instances == p.instances && q.max_instances == p.max_instances
            &&& q.min_instances == p.min_instances
            &&& p.breaker.consecutive_failures < usize::MAX ==> one_more_failure(
                p.breaker,
                q.breaker,
                now,
            )
        }),
        ({
            let (q, action) = p.maintain_step(MaintainInput::RecoveryFailed, now);
            &&& action == (MaintainAction::Exit { code: 1 })
            &&& q.instances == p.instances && q.max_instances == p.max_instances
            &&& q.min_instances == p.min_instances
            &&& q.breaker.consecutive_failures == p.breaker.consecutive_failures
            &&& q.breaker.tripped_at == Some(now)
        }),
{
}

/// One launch more has failed: with the tenth in a row the breaker trips, unless it had before.
pub open spec fn one_more_failure(
    before: CircuitBreakerState,
    after: CircuitBreakerState,
    now: u128,
) -> bool {
    &&& after.consecutive_failures == before.consecutive_failures + 1
    &&& before.tripped_at is Some ==> after.tripped_at == before.tripped_at
    &&& before.tripped_at is None && before.consecutive_failures >= 9 ==> after.tripped_at == Some(
        now,
    )
    &&& before.tripped_at is None && before.consecutive_failures < 9 ==> after.tripped_at is None
}

/// The breaker by its two fields, whatever limit it is held to: a new one has no failure and no
/// trip; a failure counts one and trips it, once, where the limit is reached; it is open from the
/// limit on; its cooldown is over when that many seconds have gone by since the trip.
pub proof fn law_breaker(b: CircuitBreakerState, max: usize, secs: u64, now: u128)
    requires
        b.consecutive_failures < usize::MAX,
    ensures
        CircuitBreakerState::closed().consecutive_failures == 0,
        CircuitBreakerState::closed().tripped_at is None,
        b.opened(max) <==> b.consecutive_failures >= max,
        b.failed(max, now).consecutive_failures == b.consecutive_failures + 1,
        b.tripped_at is Some ==> b.failed(max, now).tripped_at == b.tripped_at,
        b.tripped_at is None && b.consecutive_failures + 1 >= max ==> b.failed(max, now).tripped_at
            == Some(now),
        b.tripped_at is None && b.consecutive_failures + 1 < max ==> b.failed(
            max,
            now,
        ).tripped_at is None,
        b.failed(10, now) == b.failed(MAX_CONSECUTIVE_FAILURES, now),
        b.tripped_at is None ==> !b.cooled_down(secs, now),
        b.tripped_at matches Some(at) ==> (b.cooled_down(secs, now) <==> secs == 0 || now >= at
            + secs * 1_000_000_000),
        b.cooling_from(now).consecutive_failures == b.consecutive_failures,
        b.cooling_from(now).tripped_at == Some(now),
{
}

/// What a pool starts out with: the launches in order, each of them that succeeded, and nothing
/// where it failed.
pub proof fn law_launched(
    a: Seq<Option<BrowserInstance>>,
    b: Seq<Option<BrowserInstance>>,
    i: BrowserInstance,
)
    ensures
        launched_instances(a + b) == launched_instances(a) + launched_instances(b),
        launched_instances(seq![Some(i)]) == seq![i],
        launched_instances(seq![None]) == Seq::<BrowserInstance>::empty(),
    decreases b.len(),
{
    reveal_with_fuel(launched_instances, 2);
    assert(seq![Some(i)].drop_last() =~= Seq::<Option<BrowserInstance>>::empty());
    assert(seq![None::<BrowserInstance>].drop_last() =~= Seq::<Option<BrowserInstance>>::empty());
    assert(launched_instances(seq![Some(i)]) =~= seq![i]);
    if b.len() > 0 {
        law_launched(a, b.drop_last(), i);
        assert((a + b).drop_last() =~= a + b.drop_last());
        assert(launched_instances(a + b) =~= launched_instances(a) + launched_instances(b));
    } else {
        assert(a + b =~= a);
        assert(launched_instances(a + b) =~= launched_instances(a) + launched_instances(b));
    }
}

/// What a pool is, seen from outside: its own browsers, limits and breaker; and clearing it leaves
/// the limits and the breaker as they are, and no browser.
pub proof fn law_pool_state(pool: BrowserPool)
    ensures
        pool.state().instances == pool.instances@,
        pool.state().max_instances == pool.max_instances,
        pool.state().min_instances == pool.min_instances,
        pool.state().breaker == pool.circuit_breaker,
        pool.state().cleared().instances.len() == 0,
        pool.state().cleared().max_instances == pool.max_instances,
        pool.state().cleared().min_instances == pool.min_instances,
        pool.state().cleared().breaker == pool.circuit_breaker,
{
}

/// A refill launch adds one browser, closes the breaker, and is followed by another exactly while
/// the pool is below its minimum: a refill that nothing else disturbs ends at the minimum.
pub proof fn law_refill(p: PoolState, id: u64, now: u128)
    requires
        p.instances.len() < p.min_instances,
    ensures
        ({
            let (q, action) = p.maintain_step(MaintainInput::RefillLaunched { id }, now);
            &&& q.instances == p.instances.push(BrowserInstance::fresh(id, now))
            &&& q.breaker == CircuitBreakerState::closed()
            &&& q.instances.len() <= q.min_instances
            &&& action == (if q.instances.len() < q.min_instances {
                MaintainAction::LaunchRefill
            } else {
                MaintainAction::Done
            })
        }),
{
}

/// How a refill launch ended: the browser, if there is one, and the time.
pub struct LaunchOutcome {
    pub launched: Option<u64>,
    pub at: u128,
}

impl LaunchOutcome {
    pub open spec fn input(self) -> MaintainInput {
        match self.launched {
            Some(id) => MaintainInput::RefillLaunched { id },
            None => MaintainInput::RefillFailed,
        }
    }
}

/// Where a maintenance run that nothing else disturbs ends, with these outcomes of its launches;
/// those that it does not ask for are not looked at.
pub open spec fn refill_run(
    p: PoolState,
    action: MaintainAction,
    outcomes: Seq<LaunchOutcome>,
) -> (PoolState, MaintainAction)
    decreases outcomes.len(),
{
    if action is LaunchRefill && outcomes.len() > 0 {
        let (q, next) = p.maintain_step(outcomes[0].input(), outcomes[0].at);
        refill_run(q, next, outcomes.skip(1))
    } else {
        (p, action)
    }
}

/// How many of the launches succeed before the first that fails, as far as they are due.
pub open spec fn launched_in_a_row(outcomes: Seq<LaunchOutcome>, due: int) -> nat
    decreases outcomes.len(),
{
    if due <= 0 || outcomes.len() == 0 || outcomes[0].launched is None {
        0
    } else {
        launched_in_a_row(outcomes.skip(1), due - 1) + 1
    }
}

/// The browsers of successful launches.
pub open spec fn fresh_browsers(outcomes: Seq<LaunchOutcome>) -> Seq<BrowserInstance> {
    outcomes.map_values(|o: LaunchOutcome| BrowserInstance::fresh(o.launched->0, o.at))
}

proof fn lemma_refill_run(p: PoolState, outcomes: Seq<LaunchOutcome>)
    requires
        outcomes.len() >= p.min_instances - p.instances.len(),
    ensures
        ({
            let due = p.min_instances - p.instances.len();
            let n = launched_in_a_row(outcomes, due) as int;
            let (q, action) = refill_run(p, p.refill().1, outcomes);
            let breaker = if n > 0 {
                CircuitBreakerState::closed()
            } else {
                p.breaker
            };
            &&& action == MaintainAction::Done
            &&& n <= outcomes.len()
            &&& due >= 0 ==> n <= due
            &&& forall|i: int| 0 <= i < n ==> (#[trigger] outcomes[i]).launched is Some
            &&& n >= due || outcomes[n].launched is None
            &&& q == (PoolState {
                instances: p.instances + fresh_browsers(outcomes.take(n)),
                breaker: if n >= due {
                    breaker
                } else {
                    breaker.failed(MAX_CONSECUTIVE_FAILURES, outcomes[n].at)
                },
                ..p
            })
        }),
    decreases outcomes.len(),
{
    let due = p.min_instances - p.instances.len();
    let n = launched_in_a_row(outcomes, due) as int;
    let (q, action) = refill_run(p, p.refill().1, outcomes);
    if due <= 0 {
        assert(q.instances =~= p.instances + fresh_browsers(outcomes.take(n)));
    } else {
        let first = outcomes[0];
        let rest = outcomes.skip(1);
        let (next, next_action) = p.maintain_step(first.input(), first.at);
        match first.launched {
            None => {
                assert(refill_run(next, next_action, rest) == (next, next_action));
                assert(q.instances =~= p.instances + fresh_browsers(outcomes.take(n)));
            },
            Some(id) => {
                lemma_refill_run(next, rest);
                assert forall|i: int| 0 <= i < n implies (
                #[trigger] outcomes[i]).launched is Some by {
                    if i > 0 {
                        assert(rest[i - 1] == outcomes[i]);
                    }
                }
                if n < due {
                    assert(rest[n - 1] == outcomes[n]);
                }
                assert(outcomes.take(n) =~= seq![first] + rest.take(n - 1));
                assert(q.instances =~= p.instances + fresh_browsers(outcomes.take(n)));
            },
        }
    }
}

/// A whole maintenance run at a closed breaker, which nothing else disturbs and with an outcome
/// for each launch that can be due: it ends with the browsers that it kept, followed by those that
/// it launched, in order. It launches until the pool has come to its minimum or a launch has
/// failed, and where one has, the breaker counts that failure.
pub proof fn law_maintenance_run(p: PoolState, now: u128, outcomes: Seq<LaunchOutcome>)
    requires
        !p.breaker.opened(MAX_CONSECUTIVE_FAILURES),
        outcomes.len() >= p.min_instances - p.swept(now).instances.len(),
    ensures
        ({
            let (swept, action) = p.maintain_step(MaintainInput::Begin, now);
            let kept = p.instances.filter(|i: BrowserInstance| p.keeps(i, now));
            let due = p.min_instances - kept.len();
            let n = launched_in_a_row(outcomes, due) as int;
            let (q, last) = refill_run(swept, action, outcomes);
            let breaker = if n > 0 {
                CircuitBreakerState::closed()
            } else {
                p.breaker
            };
            &&& last == MaintainAction::Done
            &&& n <= outcomes.len()
            &&& due >= 0 ==> n <= due
            &&& forall|i: int| 0 <= i < n ==> (#[trigger] outcomes[i]).launched is Some
            &&& n >= due || outcomes[n].launched is None
            &&& q == (PoolState {
                instances: kept + fresh_browsers(outcomes.take(n)),
                breaker: if n >= due {
                    breaker
                } else {
                    breaker.failed(MAX_CONSECUTIVE_FAILURES, outcomes[n].at)
                },
                ..p
            })
        }),
{
    lemma_refill_run(p.swept(now), outcomes);
}

/// While the breaker is open no browser leaves the pool and none is launched, until the cooldown
/// after its trip is over; then one launch decides between a closed breaker and the end of the
/// process.
pub proof fn law_recovery(p: PoolState, id: u64, now: u128)
    requires
        p.breaker.opened(MAX_CONSECUTIVE_FAILURES),
        trip_recorded(p.breaker),
    ensures
        ({
            let (q, action) = p.maintain_step(MaintainInput::Begin, now);
            let waited = elapsed_nanos(p.breaker.tripped_at->0, now);
            &&& q == p
            &&& waited >= CIRCUIT_BREAKER_RECOVERY_SECS * NANOS_PER_SEC <==> action
                == MaintainAction::LaunchRecovery
            &&& waited < CIRCUIT_BREAKER_RECOVERY_SECS * NANOS_PER_SEC <==> action
                == MaintainAction::CoolDown {
                remaining_secs: (CIRCUIT_BREAKER_RECOVERY_SECS - waited / NANOS_PER_SEC as int) as u64,
            }
        }),
        p.maintain_step(MaintainInput::RecoveryLaunched { id }, now).0.breaker
            == CircuitBreakerState::closed(),
        p.maintain_step(MaintainInput::RecoveryFailed, now).1 == (MaintainAction::Exit {
            code: 1,
        }),
        forall|input: MaintainInput|
            (#[trigger] p.maintain_step(input, now)).1 is Exit ==> input
                == MaintainInput::RecoveryFailed,
{
}

} // verus!
