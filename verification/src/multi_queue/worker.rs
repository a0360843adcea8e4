//! What a worker does on each event, and on what came of the work that it asked for.
//!
//! Each call says in effects what is to be done, in order. The last effect is either a request,
//! whose reply goes to the method that belongs to it, or the end of the worker.
use crate::abi;
use crate::abi::TapRead;
use crate::multi_queue::flow;
use crate::multi_queue::flow::{
    Effect, Event, Fault, Flow, Phase, Placing, Wait, WORKER_VRINGS,
};
use crate::rx::{RxNext, RxState};
use vstd::prelude::*;

verus! {

/// How a wait for events ended.
pub enum WaitOutcome {
    /// With what the event loop reported, in order.
    Events(Vec<u64>),
    /// With an interruption, after which it is to be repeated.
    Interrupted,
    /// With an error.
    Failed,
}

impl WaitOutcome {
    /// How the wait ended.
    pub open spec fn view(self) -> Wait {
        match self {
            WaitOutcome::Events(events) => Wait::Events(events@),
            WaitOutcome::Interrupted => Wait::Interrupted,
            WaitOutcome::Failed => Wait::Failed,
        }
    }
}

/// The sixteen low bits of `n`.
fn low_bits(n: u64) -> (x: u16)
    ensures
        x == flow::code(n as int),
{
    assert((n as u16) == n % 0x1_0000) by (bit_vector);
    #[verifier::truncate]
    let x: u16 = n as u16;
    x
}

/// The code of the reset event. That of the kill event is the next.
pub fn worker_reset_index(num_queues: usize) -> (index: u16)
    requires
        num_queues + num_queues / 2 <= usize::MAX,
    ensures
        index == flow::reset_index(num_queues),
{
    low_bits((num_queues + num_queues / 2) as u64)
}

/// Tells what an event is from what the event loop reported.
fn classify(num_queues: usize, tap_index: usize, data: u64) -> (event: Event)
    requires
        flow::codes_fit(num_queues),
    ensures
        event == flow::event_of(num_queues, tap_index, data),
{
    let device_event: u16 = low_bits(data);
    let reset: u16 = worker_reset_index(num_queues);
    if device_event < low_bits(num_queues as u64) {
        if device_event % 2 == 0 {
            Event::Rx
        } else {
            Event::Tx
        }
    } else if device_event == low_bits(tap_index as u64) {
        Event::Tap
    } else if device_event == reset {
        Event::Reset
    } else if device_event == reset + 1 {
        Event::Kill
    } else {
        Event::Unknown
    }
}

/// A worker: it handles the events of one queue pair.
pub struct NetEpollHandler {
    pub rx: RxState,
    pub rx_tap_listening: bool,
    pub phase: Phase,
    /// Whether guest memory is configured.
    pub has_mem: bool,
    /// What the event loop reported and is still to be handled.
    pub pending: Vec<u64>,
    pub num_queues: usize,
    /// What the event loop reports for the tap device.
    pub tap_index: usize,
}

impl NetEpollHandler {
    /// What the decisions of the worker rest on.
    pub open spec fn flow(self) -> Flow {
        Flow {
            rx: self.rx,
            listening: self.rx_tap_listening,
            phase: self.phase,
            has_mem: self.has_mem,
            pending: self.pending@,
            num_queues: self.num_queues,
            tap_index: self.tap_index,
        }
    }

    /// Starts a worker: its own two events are added to the event loop before it waits.
    pub fn new(num_queues: usize, tap_index: usize) -> (r: (NetEpollHandler, Vec<Effect>))
        requires
            flow::codes_fit(num_queues),
        ensures
            r.0.flow().wf(),
            r.0.flow() == Flow::start(num_queues, tap_index).flow,
            r.1@ == Flow::start(num_queues, tap_index).effects,
    {
        let mut worker = NetEpollHandler {
            rx: RxState::new(),
            rx_tap_listening: false,
            phase: Phase::RegisterReset,
            has_mem: false,
            pending: Vec::new(),
            num_queues,
            tap_index,
        };
        let data: u64 = worker_reset_index(num_queues) as u64;
        let mut effects: Vec<Effect> = Vec::new();
        worker.ask(&mut effects, Phase::RegisterReset, Effect::RegisterReset { data });
        (worker, effects)
    }

    /// Goes on with the outcome of a registration.
    pub fn registered(&mut self, ok: bool) -> (effects: Vec<Effect>)
        requires
            old(self).flow().wf(),
            old(self).flow().takes(flow::Input::Registered(ok)),
        ensures
            final(self).flow().wf(),
            final(self).flow() == old(self).flow().on_registered(ok).flow,
            effects@ == old(self).flow().on_registered(ok).effects,
    {
        proof {
            flow::law_step_keeps_wf(self.flow(), flow::Input::Registered(ok));
        }
        let mut effects: Vec<Effect> = Vec::new();
        if !ok {
            self.ask(&mut effects, Phase::Ended, Effect::FailRegister);
            return effects;
        }
        match self.phase {
            Phase::RegisterReset => {
                let data: u64 = worker_reset_index(self.num_queues) as u64 + 1;
                self.ask(&mut effects, Phase::RegisterKill, Effect::RegisterKill { data });
            },
            Phase::RegisterKill => self.ask(&mut effects, Phase::Wait, Effect::Wait),
            _ => {
                self.rx_tap_listening = true;
                self.next(&mut effects);
            },
        }
        effects
    }

    /// Asks for something.
    fn ask(&mut self, effects: &mut Vec<Effect>, phase: Phase, effect: Effect)
        ensures
            final(self).flow() == (Flow { phase, ..old(self).flow() }),
            final(effects)@ == old(effects)@ + seq![effect],
    {
        self.phase = phase;
        effects.push(effect);
    }

    /// Starts the next event, or a wait where none is left.
    fn next(&mut self, effects: &mut Vec<Effect>)
        requires
            flow::codes_fit(old(self).num_queues),
        ensures
            final(self).flow() == old(self).flow().next().flow,
            final(effects)@ == old(effects)@ + old(self).flow().next().effects,
    {
        if self.pending.len() == 0 {
            self.ask(effects, Phase::Wait, Effect::Wait);
            return;
        }
        let data: u64 = self.pending.remove(0);
        assert(self.pending@ =~= old(self).pending@.drop_first());
        let vring: usize = low_bits(data) as usize;
        match classify(self.num_queues, self.tap_index, data) {
            Event::Rx => self.ask(
                effects,
                Phase::Vring { rx: true },
                Effect::CheckVring { vring },
            ),
            Event::Tx => self.ask(
                effects,
                Phase::Vring { rx: false },
                Effect::CheckVring { vring },
            ),
            Event::Tap => {
                let next = self.rx.start(true);
                self.request_rx(effects, next, false);
            },
            Event::Reset => self.ask(effects, Phase::Reset, Effect::ReadReset),
            Event::Kill => self.ask(effects, Phase::Ended, Effect::Stop),
            Event::Unknown => self.ask(effects, Phase::Ended, Effect::Fail(Fault::UnknownEvent)),
        }
    }

    /// Takes a step of reception that needs the tap device or the receive vring.
    fn request_rx(&mut self, effects: &mut Vec<Effect>, next: RxNext, queue_event: bool)
        ensures
            final(self).flow() == old(self).flow().request_rx(next, queue_event).flow,
            final(effects)@ == old(effects)@ + old(self).flow().request_rx(
                next,
                queue_event,
            ).effects,
    {
        match next {
            RxNext::ReadTap => self.ask(
                effects,
                Phase::TapRead { queue_event },
                Effect::ReadTap,
            ),
            _ => {
                if self.has_mem {
                    let bytes_read = self.rx.bytes_read;
                    self.ask(
                        effects,
                        Phase::Frame { queue_event },
                        Effect::PlaceFrame { bytes_read },
                    );
                } else {
                    self.ask(effects, Phase::Ended, Effect::Fail(Fault::NoMemory));
                }
            },
        }
    }

    /// Takes one step of reception.
    fn proceed_rx(&mut self, effects: &mut Vec<Effect>, next: RxNext, queue_event: bool)
        requires
            flow::codes_fit(old(self).num_queues),
        ensures
            final(self).flow() == old(self).flow().proceed_rx(next, queue_event).flow,
            final(effects)@ =~= old(effects)@ + old(self).flow().proceed_rx(
                next,
                queue_event,
            ).effects,
    {
        match next {
            RxNext::Finish { signal } => {
                if signal {
                    effects.push(Effect::SignalRx);
                }
                if queue_event && !self.rx_tap_listening {
                    let data: u64 = self.tap_index as u64;
                    self.ask(effects, Phase::RegisterTap, Effect::RegisterTap { data });
                } else {
                    self.next(effects);
                }
            },
            _ => self.request_rx(effects, next, queue_event),
        }
    }

    /// Whether the worker holds the vring of every kick among `events` that it comes to.
    pub fn in_reach(&self, events: &Vec<u64>) -> (b: bool)
        requires
            flow::codes_fit(self.num_queues),
        ensures
            b == flow::in_reach(self.num_queues, self.tap_index, events@),
    {
        let mut i: usize = 0;
        assert(events@.skip(0) =~= events@);
        while i < events.len()
            invariant
                i <= events@.len(),
                flow::codes_fit(self.num_queues),
                flow::in_reach(self.num_queues, self.tap_index, events@) == flow::in_reach(
                    self.num_queues,
                    self.tap_index,
                    events@.skip(i as int),
                ),
            decreases events@.len() - i,
        {
            let data: u64 = events[i];
            assert(events@.skip(i as int).drop_first() =~= events@.skip(i + 1));
            match classify(self.num_queues, self.tap_index, data) {
                Event::Kill | Event::Unknown => return true,
                Event::Rx | Event::Tx => {
                    if low_bits(data) >= WORKER_VRINGS {
                        return false;
                    }
                },
                Event::Tap | Event::Reset => {},
            }
            i = i + 1;
        }
        true
    }

    /// Goes on with the end of a wait. The events that it ended with are in reach of the worker.
    pub fn waited(&mut self, outcome: WaitOutcome) -> (effects: Vec<Effect>)
        requires
            old(self).flow().wf(),
            old(self).phase is Wait,
            outcome matches WaitOutcome::Events(events) ==> flow::in_reach(
                old(self).num_queues,
                old(self).tap_index,
                events@,
            ),
        ensures
            final(self).flow().wf(),
            final(self).flow() == old(self).flow().on_waited(outcome.view()).flow,
            effects@ == old(self).flow().on_waited(outcome.view()).effects,
    {
        proof {
            flow::law_step_keeps_wf(self.flow(), flow::Input::Waited(outcome.view()));
        }
        let mut effects: Vec<Effect> = Vec::new();
        match outcome {
            WaitOutcome::Events(events) => {
                self.pending = events;
                self.next(&mut effects);
            },
            WaitOutcome::Interrupted => effects.push(Effect::Wait),
            WaitOutcome::Failed => {
                self.phase = Phase::Ended;
                effects.push(Effect::FailWait);
            },
        }
        effects
    }

    /// Goes on with the check of a vring: whether it is enabled, or nothing where its kick event
    /// could not be read.
    pub fn vring_checked(&mut self, enabled: Option<bool>) -> (effects: Vec<Effect>)
        requires
            old(self).flow().wf(),
            old(self).phase is Vring,
        ensures
            final(self).flow().wf(),
            final(self).flow() == old(self).flow().on_vring(enabled).flow,
            effects@ == old(self).flow().on_vring(enabled).effects,
    {
        proof {
            flow::law_step_keeps_wf(self.flow(), flow::Input::Vring(enabled));
        }
        let mut effects: Vec<Effect> = Vec::new();
        match enabled {
            None => self.ask(&mut effects, Phase::Ended, Effect::Fail(Fault::ReadKick)),
            Some(false) => self.next(&mut effects),
            Some(true) => {
                if let Phase::Vring { rx: true } = self.phase {
                    let next = self.rx.start(false);
                    self.proceed_rx(&mut effects, next, true);
                } else if self.has_mem {
                    effects.push(Effect::ProcessTx);
                    self.next(&mut effects);
                } else {
                    self.ask(&mut effects, Phase::Ended, Effect::Fail(Fault::NoMemory));
                }
            },
        }
        effects
    }

    /// Goes on with the outcome of a read from the tap device: its byte count, or the error number
    /// of the operating system where it gave one.
    pub fn tap_read(&mut self, outcome: Result<usize, Option<i32>>) -> (effects: Vec<Effect>)
        requires
            old(self).flow().wf(),
            old(self).phase is TapRead,
        ensures
            final(self).flow().wf(),
            final(self).flow() == old(self).flow().on_tap_read(abi::tap_read(outcome)).flow,
            effects@ == old(self).flow().on_tap_read(abi::tap_read(outcome)).effects,
    {
        proof {
            flow::law_step_keeps_wf(self.flow(), flow::Input::TapRead(abi::tap_read(outcome)));
        }
        let mut effects: Vec<Effect> = Vec::new();
        if let Phase::TapRead { queue_event } = self.phase {
            match abi::classify_tap_read(outcome) {
                TapRead::Frame(count) => {
                    self.rx.bytes_read = count;
                    self.request_rx(&mut effects, RxNext::TakeChain, queue_event);
                },
                TapRead::Empty => {
                    let next = self.rx.finish();
                    self.proceed_rx(&mut effects, next, queue_event);
                },
                TapRead::Failed => self.ask(
                    &mut effects,
                    Phase::Ended,
                    Effect::Fail(Fault::ReadTap),
                ),
            }
        }
        effects
    }

    /// Goes on with the end of placing a frame.
    pub fn frame_placed(&mut self, placing: Placing) -> (effects: Vec<Effect>)
        requires
            old(self).flow().wf(),
            old(self).phase is Frame,
        ensures
            final(self).flow().wf(),
            final(self).flow() == old(self).flow().on_frame(placing).flow,
            effects@ == old(self).flow().on_frame(placing).effects,
    {
        proof {
            flow::law_step_keeps_wf(self.flow(), flow::Input::Frame(placing));
        }
        let mut effects: Vec<Effect> = Vec::new();
        if let Phase::Frame { queue_event } = self.phase {
            match placing {
                Placing::NoChain => {
                    if self.rx_tap_listening {
                        effects.push(Effect::UnregisterTap { data: self.tap_index as u64 });
                        self.rx_tap_listening = false;
                    }
                    let next = self.rx.attempt(false);
                    self.proceed_rx(&mut effects, next, queue_event);
                },
                Placing::Chain { complete, irqs } => {
                    self.rx.deferred_irqs = irqs;
                    let next = self.rx.attempt(complete);
                    self.proceed_rx(&mut effects, next, queue_event);
                },
            }
        }
        effects
    }

    /// Goes on with a reset: whether guest memory is configured, or nothing where the reset event
    /// could not be read.
    pub fn memory_reset(&mut self, configured: Option<bool>) -> (effects: Vec<Effect>)
        requires
            old(self).flow().wf(),
            old(self).phase is Reset,
        ensures
            final(self).flow().wf(),
            final(self).flow() == old(self).flow().on_reset(configured).flow,
            effects@ == old(self).flow().on_reset(configured).effects,
    {
        proof {
            flow::law_step_keeps_wf(self.flow(), flow::Input::Reset(configured));
        }
        let mut effects: Vec<Effect> = Vec::new();
        match configured {
            None => self.ask(&mut effects, Phase::Ended, Effect::Fail(Fault::ReadWorkerReset)),
            Some(has_mem) => {
                self.has_mem = has_mem;
                self.next(&mut effects);
            },
        }
        effects
    }
}

} // verus!
