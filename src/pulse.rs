//! Pulses: counters on one fixed clock that fire once every so many ticks,
//! so that several paced requests can share one timer.

use vstd::prelude::*;

verus! {

/// Fires on the first tick and then once every `pulse` ticks.
#[derive(Clone, Copy, Debug, PartialEq, Eq, Structural)]
pub struct Pulse {
    pub pulse: u64,
    pub counter: u64,
}

impl Pulse {
    pub open spec fn wf(&self) -> bool {
        0 < self.pulse && self.counter < self.pulse
    }

    pub fn new(pulse: u64) -> (r: Pulse)
        requires
            pulse > 0,
        ensures
            r.wf(),
            r.pulse == pulse,
            r.counter == 0,
    {
        Pulse { pulse, counter: 0 }
    }

    /// Advances one tick; true when this tick fires.
    pub fn tick(&mut self) -> (r: bool)
        requires
            old(self).wf(),
        ensures
            final(self).wf(),
            final(self).pulse == old(self).pulse,
            final(self).counter == (old(self).counter + 1) % (old(self).pulse as int),
            r == (old(self).counter == 0),
    {
        let r = self.counter == 0;
        self.counter = (self.counter + 1) % self.pulse;
        r
    }
}

/// After `k` ticks from a fresh pulse, the next one fires exactly when `k`
/// is a multiple of the period.
pub proof fn lemma_pulse_period(pulse: u64, k: nat, counter: u64)
    requires
        pulse > 0,
        counter == k % (pulse as nat),
    ensures
        (counter == 0) == (k % (pulse as nat) == 0),
        (counter + 1) % (pulse as int) == (k + 1) % (pulse as nat),
{
    vstd::arithmetic::div_mod::lemma_add_mod_noop(k as int, 1, pulse as int);
    vstd::arithmetic::div_mod::lemma_mod_bound(k as int, pulse as int);
    vstd::arithmetic::div_mod::lemma_small_mod(counter as nat, pulse as nat);
    if pulse > 1 {
        vstd::arithmetic::div_mod::lemma_small_mod(1, pulse as nat);
    } else {
        assert((counter + 1) % 1 == 0 && (k + 1) % 1 == 0) by (nonlinear_arith);
    }
}

/// Which requests one tick of the polling clock calls for.
#[derive(Clone, Copy, Debug, PartialEq, Eq, Structural)]
pub struct PollRequests {
    pub version: bool,
    pub connections: bool,
    pub proxies: bool,
}

/// Ticks between version requests.
pub const VERSION_TICKS: u64 = 200;

/// Ticks between connection requests.
pub const CONNECTION_TICKS: u64 = 10;

/// Ticks between proxy requests.
pub const PROXIES_TICKS: u64 = 40;

/// The three pulses of the polling requester, on one clock.
#[derive(Clone, Copy, Debug, PartialEq, Eq, Structural)]
pub struct Poller {
    pub version: Pulse,
    pub connections: Pulse,
    pub proxies: Pulse,
}

impl Poller {
    pub open spec fn wf(&self) -> bool {
        &&& self.version.wf() && self.version.pulse == VERSION_TICKS
        &&& self.connections.wf() && self.connections.pulse == CONNECTION_TICKS
        &&& self.proxies.wf() && self.proxies.pulse == PROXIES_TICKS
    }

    pub fn new() -> (r: Poller)
        ensures
            r.wf(),
            r.version.counter == 0,
            r.connections.counter == 0,
            r.proxies.counter == 0,
    {
        Poller {
            version: Pulse::new(VERSION_TICKS),
            connections: Pulse::new(CONNECTION_TICKS),
            proxies: Pulse::new(PROXIES_TICKS),
        }
    }

    /// Advances the clock one tick and says which requests to make now.
    pub fn tick(&mut self) -> (r: PollRequests)
        requires
            old(self).wf(),
        ensures
            final(self).wf(),
            r.version == (old(self).version.counter == 0),
            r.connections == (old(self).connections.counter == 0),
            r.proxies == (old(self).proxies.counter == 0),
            final(self).version.counter == (old(self).version.counter + 1) % (VERSION_TICKS as int),
            final(self).connections.counter == (old(self).connections.counter + 1) % (CONNECTION_TICKS as int),
            final(self).proxies.counter == (old(self).proxies.counter + 1) % (PROXIES_TICKS as int),
    {
        let version = self.version.tick();
        let connections = self.connections.tick();
        let proxies = self.proxies.tick();
        PollRequests { version, connections, proxies }
    }
}

} // verus!
