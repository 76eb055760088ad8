//! The input tick system: the per-tick orchestrator of the bridge.
//!
//! One cycle per fixed tick: drain the inbound bridge without blocking and
//! pass the remote events through the handler's remote path; run every raw
//! occurrence buffered since the last tick through the handler; publish to
//! the simulation event log — remote events first, then local events, the
//! fixed ordering policy of this system; forward each transmittable local
//! event to the outbound bridge; and advance the tick clock by its fixed
//! simulated delta.
//!
//! The simulated delta is a configured constant, deliberately decoupled from
//! wall-clock time; `DEFAULT_DELTA_MS` is the single authoritative default.

use vstd::prelude::*;
use crate::events::PhysicalInput;
use crate::events::SemanticInputEvent;
use crate::bindings::BindingTable;
use crate::handler::InputHandler;
use crate::handler::process_all_spec;
use crate::codec::is_transmittable;
use crate::codec::transmittable;
use crate::bridge::drain_inbound;
use crate::bridge::send_outbound;
use crate::log::EventLog;

verus! {

/// The default fixed simulated time step of one tick, in milliseconds.
pub const DEFAULT_DELTA_MS: u64 = 20;

/// The default bound on how many inbound batches one tick will drain, so a
/// tick's work is bounded by configuration, not by network activity.
pub const DEFAULT_DRAIN_LIMIT: usize = 64;

/// The fixed simulated time of the tick domain: a configured delta per tick
/// and the simulated time elapsed so far. Not wall-clock time.
#[derive(Clone, Copy, PartialEq, Eq, Structural, Debug)]
pub struct TickClock {
    /// The fixed simulated delta of one tick, in milliseconds.
    pub delta_ms: u64,
    /// Simulated milliseconds elapsed since startup.
    pub elapsed_ms: u64,
}

/// The elapsed time after one tick: advanced by the fixed delta, saturating
/// at the top of the counter.
pub open spec fn advanced_ms(clock: TickClock) -> u64 {
    if clock.elapsed_ms + clock.delta_ms <= u64::MAX {
        (clock.elapsed_ms + clock.delta_ms) as u64
    } else {
        u64::MAX
    }
}

impl TickClock {
    /// Advances simulated time by the fixed delta.
    pub fn advance(&mut self)
        ensures
            final(self).delta_ms == old(self).delta_ms,
            final(self).elapsed_ms == advanced_ms(*old(self)),
    {
        if self.elapsed_ms <= u64::MAX - self.delta_ms {
            self.elapsed_ms = self.elapsed_ms + self.delta_ms;
        } else {
            self.elapsed_ms = u64::MAX;
        }
    }
}

/// The structural failures of the tick. Per-event anomalies (unbound input,
/// untransmittable or unrecognized events) are absorbed and never surface
/// here.
#[derive(Clone, Copy, PartialEq, Eq, Structural, Debug)]
pub enum TickError {
    /// The system is configured to require a network backend and no inbound
    /// channel handle is installed: a configuration error, failed fast.
    MissingNetworkBackend,
    /// The inbound channel is closed and the system is configured to require
    /// a network backend. Without that flag a closed channel is a valid
    /// degraded mode, not an error.
    ChannelClosed,
}

/// What one successful tick did.
pub struct TickOutcome {
    /// The remote events drained from the inbound bridge and published this
    /// tick, in arrival order.
    pub remote_events: Vec<SemanticInputEvent>,
    /// How many local events the outbound bridge accepted this tick.
    pub sent: usize,
    /// Whether the inbound channel turned out closed (degraded mode).
    pub inbound_closed: bool,
}

/// The per-tick orchestrator: owns the input handler and the tick clock.
pub struct InputSystem {
    /// The input handler holding the binding table and the live input state.
    pub handler: InputHandler,
    /// The simulated tick clock.
    pub clock: TickClock,
    /// Whether a missing or closed inbound channel is fatal rather than a
    /// valid degraded mode.
    pub require_network: bool,
    /// The most inbound batches one tick will drain.
    pub drain_limit: usize,
}

impl InputSystem {
    /// Creates a new input system, with the given binding table installed
    /// (or none of the codes bound), the clock at zero with the default
    /// delta, and the network backend optional.
    pub fn new(bindings: Option<BindingTable>) -> (s: InputSystem)
        ensures
            s.handler@.bindings == (match bindings {
                Some(b) => b@,
                None => Seq::<(u32, crate::events::Binding)>::empty(),
            }),
            s.handler@.pressed =~= Set::<u32>::empty(),
            s.handler@.axes =~= Map::<u32, i64>::empty(),
            s.clock == (TickClock { delta_ms: DEFAULT_DELTA_MS, elapsed_ms: 0 }),
            s.require_network == false,
            s.drain_limit == DEFAULT_DRAIN_LIMIT,
    {
        let table = match bindings {
            Some(b) => b,
            None => BindingTable::new(),
        };
        InputSystem {
            handler: InputHandler::new(table),
            clock: TickClock { delta_ms: DEFAULT_DELTA_MS, elapsed_ms: 0 },
            require_network: false,
            drain_limit: DEFAULT_DRAIN_LIMIT,
        }
    }

    /// Startup validation and (re)configuration: installs a binding table
    /// wholesale when one is given, and fails fast with
    /// `MissingNetworkBackend` exactly when the system requires a network
    /// backend and no inbound channel handle is installed.
    pub fn setup(&mut self, bindings: Option<BindingTable>, has_inbound: bool) -> (r: Result<
        (),
        TickError,
    >)
        ensures
            final(self).handler@.bindings == (match bindings {
                Some(b) => b@,
                None => old(self).handler@.bindings,
            }),
            final(self).handler@.pressed == old(self).handler@.pressed,
            final(self).handler@.axes == old(self).handler@.axes,
            final(self).clock == old(self).clock,
            final(self).require_network == old(self).require_network,
            final(self).drain_limit == old(self).drain_limit,
            r is Ok <==> (has_inbound || !old(self).require_network),
            r is Err ==> r == Err::<(), TickError>(TickError::MissingNetworkBackend),
    {
        match bindings {
            Some(b) => self.handler.set_bindings(b),
            None => {},
        }
        if self.require_network && !has_inbound {
            Err(TickError::MissingNetworkBackend)
        } else {
            Ok(())
        }
    }

    /// Runs one full tick cycle.
    ///
    /// `local` holds every raw occurrence buffered since the previous tick,
    /// in order. `inbound` and `outbound` are the bridge endpoints, either of
    /// which may be absent (degraded, network-less mode) unless
    /// `require_network` is set. The published order is: remote events
    /// first, then local events, each in their own arrival order; this is
    /// the fixed ordering policy. The tick never blocks on the network: the
    /// inbound drain polls what is buffered, at most `drain_limit` batches,
    /// and proceeds with zero remote events when nothing is there.
    pub fn run_tick(
        &mut self,
        local: &Vec<PhysicalInput>,
        inbound: Option<&std::sync::mpsc::Receiver<Vec<SemanticInputEvent>>>,
        outbound: Option<&futures::channel::mpsc::UnboundedSender<SemanticInputEvent>>,
        log: &mut EventLog,
    ) -> (r: Result<TickOutcome, TickError>)
        ensures
            !old(self).require_network ==> r is Ok,
            old(self).require_network && inbound is None ==> r == Err::<TickOutcome, TickError>(
                TickError::MissingNetworkBackend,
            ),
            r is Err ==> old(self).require_network && final(self).handler@ == old(self).handler@
                && final(self).clock == old(self).clock && final(log)@ == old(log)@,
            r is Ok ==> ({
                let out = r->Ok_0;
                let processed = process_all_spec(old(self).handler@, local@);
                &&& final(self).handler@ == processed.0
                &&& final(log)@ == old(log)@ + out.remote_events@ + processed.1
                &&& (inbound is None ==> out.remote_events@ =~= Seq::<SemanticInputEvent>::empty())
                &&& out.sent <= transmittable(processed.1).len()
                &&& (outbound is None ==> out.sent == 0)
                &&& final(self).clock == (TickClock {
                    delta_ms: old(self).clock.delta_ms,
                    elapsed_ms: advanced_ms(old(self).clock),
                })
            }),
            final(self).require_network == old(self).require_network,
            final(self).drain_limit == old(self).drain_limit,
    {
        let ghost l0 = log@;

        // Draining-Remote: poll the inbound bridge, never blocking. The
        // remote events pass through the handler's remote path unchanged.
        let mut remote_events: Vec<SemanticInputEvent> = Vec::new();
        let mut inbound_closed = false;
        match inbound {
            None => {
                if self.require_network {
                    return Err(TickError::MissingNetworkBackend);
                }
            },
            Some(rx) => {
                let (batches, closed) = drain_inbound(rx, self.drain_limit);
                inbound_closed = closed;
                if closed && self.require_network {
                    return Err(TickError::ChannelClosed);
                }
                remote_events = self.handler.process_remote_all(&batches);
            },
        }

        // Draining-Local: every occurrence buffered since the previous tick.
        let local_events = self.handler.process_all(local);

        // Publishing: remote first, then local — the fixed ordering policy.
        log.publish_all(&remote_events);
        log.publish_all(&local_events);

        // Forward each transmittable local event to the outbound bridge; the
        // rest were applied locally and are silently not transmitted.
        let mut sent: usize = 0;
        match outbound {
            None => {},
            Some(tx) => {
                let ghost le = local_events@;
                let mut i: usize = 0;
                proof {
                    assert(le.take(0) =~= Seq::<SemanticInputEvent>::empty());
                }
                while i < local_events.len()
                    invariant
                        i <= local_events.len(),
                        local_events@ == le,
                        sent <= transmittable(le.take(i as int)).len(),
                        transmittable(le.take(i as int)).len() <= i,
                    decreases local_events.len() - i,
                {
                    proof {
                        assert(le.take(i + 1 as int).drop_last() =~= le.take(i as int));
                        assert(le.take(i + 1 as int).last() == le[i as int]);
                    }
                    if is_transmittable(&local_events[i]) {
                        if send_outbound(tx, local_events[i]) {
                            sent = sent + 1;
                        }
                    }
                    i = i + 1;
                }
                proof {
                    assert(le.take(le.len() as int) =~= le);
                }
            },
        }

        // Back to Idle: advance simulated time by the fixed delta.
        self.clock.advance();

        Ok(TickOutcome { remote_events, sent, inbound_closed })
    }
}

} // verus!
