//! The order of a worker's work: where each event and each reply leads, and what is to be done.
use crate::abi::TapRead;
use crate::multi_queue::Error;
use crate::rx::{RxNext, RxState};
use vstd::prelude::*;

verus! {

/// A worker holds two vrings: the receive vring and the transmit vring of its queue pair.
pub const WORKER_VRINGS: u16 = 2;

/// What a worker waits for.
#[derive(Clone, Copy, PartialEq, Eq, Structural, Debug)]
pub enum Phase {
    /// The outcome of adding the reset event to the event loop, the first that it does.
    RegisterReset,
    /// The outcome of adding the kill event to the event loop.
    RegisterKill,
    /// The next events.
    Wait,
    /// Whether a vring that was kicked is enabled; the receive vring, or the transmit vring.
    Vring { rx: bool },
    /// The outcome of a read from the tap device. An event of the receive vring ends with a check
    /// that the tap device is listened to; an event of the tap device does not.
    TapRead { queue_event: bool },
    /// How the placing of a frame ended.
    Frame { queue_event: bool },
    /// The outcome of adding the tap device to the event loop.
    RegisterTap,
    /// Whether guest memory has been configured.
    Reset,
    /// Nothing more: it has ended.
    Ended,
}

/// Why a worker ends before it is told to.
#[derive(Clone, Copy, PartialEq, Eq, Structural, Debug)]
pub enum Fault {
    ReadTap,
    ReadKick,
    ReadWorkerReset,
    UnknownEvent,
    NoMemory,
}

impl Fault {
    /// The error that tells a fault.
    pub open spec fn told(self) -> Error {
        match self {
            Fault::ReadTap => Error::FailedReadTap,
            Fault::ReadKick => Error::HandleEventReadKick,
            Fault::ReadWorkerReset => Error::FailedReadWorkerReset,
            Fault::UnknownEvent => Error::HandleEventUnknownEvent,
            Fault::NoMemory => Error::NoMemoryConfigured,
        }
    }

    /// The error that tells a fault.
    pub fn error(self) -> (e: Error)
        ensures
            e == self.told(),
    {
        match self {
            Fault::ReadTap => Error::FailedReadTap,
            Fault::ReadKick => Error::HandleEventReadKick,
            Fault::ReadWorkerReset => Error::FailedReadWorkerReset,
            Fault::UnknownEvent => Error::HandleEventUnknownEvent,
            Fault::NoMemory => Error::NoMemoryConfigured,
        }
    }
}

/// What is to be done for a worker.
#[derive(Clone, Copy, PartialEq, Eq, Structural, Debug)]
pub enum Effect {
    /// Add the reset event to the event loop, to report `data`, and reply with `registered`.
    RegisterReset { data: u64 },
    /// Add the kill event to the event loop, to report `data`, and reply with `registered`.
    RegisterKill { data: u64 },
    /// Wait for events, and reply with `waited`.
    Wait,
    /// Read the kick event of a vring if it has one, and reply with `vring_checked`.
    CheckVring { vring: usize },
    /// Read from the tap device into the receive frame buffer, and reply with `tap_read`.
    ReadTap,
    /// Take the next available chain of the receive vring and place the frame in it, and reply with
    /// `frame_placed`.
    PlaceFrame { bytes_read: usize },
    /// Take the tap device, which reports `data`, out of the event loop.
    UnregisterTap { data: u64 },
    /// Add the tap device to the event loop, to report `data`, and reply with `registered`.
    RegisterTap { data: u64 },
    /// Signal the receive vring to the guest.
    SignalRx,
    /// Transmit what the transmit vring holds.
    ProcessTx,
    /// Read the reset event and take guest memory over, and reply with `memory_reset`.
    ReadReset,
    /// The worker was told to end.
    Stop,
    /// The worker ends with a fault.
    Fail(Fault),
    /// The worker ends with the error of the wait.
    FailWait,
    /// The worker ends with the error of the registration that was refused.
    FailRegister,
}

/// What the decisions of a worker rest on.
pub struct Flow {
    pub rx: RxState,
    pub listening: bool,
    pub phase: Phase,
    pub has_mem: bool,
    /// What the event loop reported and is still to be handled.
    pub pending: Seq<u64>,
    pub num_queues: usize,
    /// What the event loop reports for the tap device.
    pub tap_index: usize,
}

/// Where a step leads, and what is to be done.
pub struct Step {
    pub flow: Flow,
    pub effects: Seq<Effect>,
}

/// How a wait for events ended.
pub enum Wait {
    /// With what the event loop reported, in order.
    Events(Seq<u64>),
    /// With an interruption, after which it is to be repeated.
    Interrupted,
    /// With an error.
    Failed,
}

/// How the placing of a frame ended.
#[derive(Clone, Copy, PartialEq, Eq, Structural, Debug)]
pub enum Placing {
    /// The vring has no available chain.
    NoChain,
    /// A chain was taken; whether the frame is reported complete, and whether there is a used
    /// buffer to announce.
    Chain { complete: bool, irqs: bool },
}

/// What a worker is told.
pub enum Input {
    /// Whether a registration was made.
    Registered(bool),
    Waited(Wait),
    /// Whether the vring is enabled; nothing where its kick event could not be read.
    Vring(Option<bool>),
    TapRead(TapRead),
    Frame(Placing),
    /// Whether guest memory is configured; nothing where the reset event could not be read.
    Reset(Option<bool>),
}

/// What an event is.
#[derive(Clone, Copy, PartialEq, Eq, Structural, Debug)]
pub enum Event {
    Rx,
    Tx,
    Tap,
    Reset,
    Kill,
    Unknown,
}

/// The sixteen low bits of a number, by which events are told apart.
pub open spec fn code(n: int) -> u16 {
    (n % 0x1_0000) as u16
}

/// The code of the reset event.
pub open spec fn reset_index(num_queues: usize) -> u16 {
    code(num_queues + num_queues / 2)
}

/// Whether there are codes for the reset event and for the kill event, whose code is the next.
pub open spec fn codes_fit(num_queues: usize) -> bool {
    &&& num_queues + num_queues / 2 <= usize::MAX
    &&& reset_index(num_queues) < 0xffff
}

/// What the event that reports `data` is: the vrings have the codes below the number of queues, the
/// receive vrings the even ones.
pub open spec fn event_of(num_queues: usize, tap_index: usize, data: u64) -> Event {
    let x = code(data as int);
    if x < code(num_queues as int) && x % 2 == 0 {
        Event::Rx
    } else if x < code(num_queues as int) {
        Event::Tx
    } else if x == code(tap_index as int) {
        Event::Tap
    } else if x == reset_index(num_queues) {
        Event::Reset
    } else if x == reset_index(num_queues) + 1 {
        Event::Kill
    } else {
        Event::Unknown
    }
}

/// Whether a worker holds the vring of every kick among `events` that it comes to. It comes to
/// nothing behind the kill event or an unknown one, which end it.
pub open spec fn in_reach(num_queues: usize, tap_index: usize, events: Seq<u64>) -> bool
    decreases events.len(),
{
    events.len() == 0 || match event_of(num_queues, tap_index, events[0]) {
        Event::Kill | Event::Unknown => true,
        Event::Rx | Event::Tx => code(events[0] as int) < WORKER_VRINGS && in_reach(
            num_queues,
            tap_index,
            events.drop_first(),
        ),
        Event::Tap | Event::Reset => in_reach(num_queues, tap_index, events.drop_first()),
    }
}

impl Flow {
    /// The end of the worker.
    pub open spec fn end(self, effect: Effect) -> Step {
        Step { flow: Flow { phase: Phase::Ended, ..self }, effects: seq![effect] }
    }

    /// A request.
    pub open spec fn ask(self, phase: Phase, effect: Effect) -> Step {
        Step { flow: Flow { phase, ..self }, effects: seq![effect] }
    }

    /// The start of the next event, or of a wait where none is left.
    pub open spec fn next(self) -> Step {
        if self.pending.len() == 0 {
            self.ask(Phase::Wait, Effect::Wait)
        } else {
            let data = self.pending[0];
            let rest = Flow { pending: self.pending.drop_first(), ..self };
            match event_of(self.num_queues, self.tap_index, data) {
                Event::Rx => rest.ask(
                    Phase::Vring { rx: true },
                    Effect::CheckVring { vring: code(data as int) as usize },
                ),
                Event::Tx => rest.ask(
                    Phase::Vring { rx: false },
                    Effect::CheckVring { vring: code(data as int) as usize },
                ),
                Event::Tap => rest.request_rx(self.rx.started(true), false),
                Event::Reset => rest.ask(Phase::Reset, Effect::ReadReset),
                Event::Kill => rest.end(Effect::Stop),
                Event::Unknown => rest.end(Effect::Fail(Fault::UnknownEvent)),
            }
        }
    }

    /// A step of reception that needs the tap device or the receive vring.
    pub open spec fn request_rx(self, next: RxNext, queue_event: bool) -> Step {
        if next is ReadTap {
            self.ask(Phase::TapRead { queue_event }, Effect::ReadTap)
        } else if self.has_mem {
            self.ask(
                Phase::Frame { queue_event },
                Effect::PlaceFrame { bytes_read: self.rx.bytes_read },
            )
        } else {
            self.end(Effect::Fail(Fault::NoMemory))
        }
    }

    /// The end of an event of reception: one of the receive vring has the tap device listened to
    /// again before the next event.
    pub open spec fn settle_rx(self, queue_event: bool) -> Step {
        if queue_event && !self.listening {
            self.ask(Phase::RegisterTap, Effect::RegisterTap { data: self.tap_index as u64 })
        } else {
            self.next()
        }
    }

    /// The end of reception: the guest is signalled where a buffer was used, and then the event
    /// ends.
    pub open spec fn finish_rx(self, signal: bool, queue_event: bool) -> Step {
        let step = self.settle_rx(queue_event);
        Step {
            flow: step.flow,
            effects: (if signal {
                seq![Effect::SignalRx]
            } else {
                seq![]
            }) + step.effects,
        }
    }

    /// One step of reception.
    pub open spec fn proceed_rx(self, next: RxNext, queue_event: bool) -> Step {
        match next {
            RxNext::Finish { signal } => self.finish_rx(signal, queue_event),
            _ => self.request_rx(next, queue_event),
        }
    }

    /// A worker that starts, with what the event loop reports for its tap device.
    pub open spec fn start(num_queues: usize, tap_index: usize) -> Step {
        Flow {
            rx: RxState { deferred_frame: false, deferred_irqs: false, bytes_read: 0 },
            listening: false,
            phase: Phase::RegisterReset,
            has_mem: false,
            pending: Seq::empty(),
            num_queues,
            tap_index,
        }.ask(
            Phase::RegisterReset,
            Effect::RegisterReset { data: reset_index(num_queues) as u64 },
        )
    }

    /// The step on the outcome of a registration. The reset event comes first, then the kill event,
    /// and then the worker waits for events; once the tap device is registered it is listened to,
    /// and the next event is handled. A refusal ends the worker.
    pub open spec fn on_registered(self, ok: bool) -> Step {
        if !ok {
            self.end(Effect::FailRegister)
        } else if self.phase is RegisterReset {
            self.ask(
                Phase::RegisterKill,
                Effect::RegisterKill { data: (reset_index(self.num_queues) + 1) as u64 },
            )
        } else if self.phase is RegisterKill {
            self.ask(Phase::Wait, Effect::Wait)
        } else {
            Flow { listening: true, ..self }.next()
        }
    }

    /// The step on the end of a wait.
    pub open spec fn on_waited(self, wait: Wait) -> Step {
        match wait {
            Wait::Events(events) => Flow { pending: events, ..self }.next(),
            Wait::Interrupted => self.ask(Phase::Wait, Effect::Wait),
            Wait::Failed => self.end(Effect::FailWait),
        }
    }

    /// The step on the check of a vring. A kick of a vring that is not enabled is passed over.
    pub open spec fn on_vring(self, enabled: Option<bool>) -> Step {
        match enabled {
            None => self.end(Effect::Fail(Fault::ReadKick)),
            Some(false) => self.next(),
            Some(true) => if self.phase->rx {
                self.proceed_rx(self.rx.started(false), true)
            } else if self.has_mem {
                Step {
                    flow: self.next().flow,
                    effects: seq![Effect::ProcessTx] + self.next().effects,
                }
            } else {
                self.end(Effect::Fail(Fault::NoMemory))
            },
        }
    }

    /// The step on the outcome of a read from the tap device.
    pub open spec fn on_tap_read(self, read: TapRead) -> Step {
        let queue_event = self.phase->TapRead_queue_event;
        match read {
            TapRead::Frame(count) => Flow {
                rx: RxState { bytes_read: count, ..self.rx },
                ..self
            }.request_rx(RxNext::TakeChain, queue_event),
            TapRead::Empty => Flow { rx: self.rx.finished().0, ..self }.finish_rx(
                self.rx.deferred_irqs,
                queue_event,
            ),
            TapRead::Failed => self.end(Effect::Fail(Fault::ReadTap)),
        }
    }

    /// The step on the end of placing a frame. Without a chain the tap device is not listened to
    /// any longer.
    pub open spec fn on_frame(self, placing: Placing) -> Step {
        let queue_event = self.phase->Frame_queue_event;
        match placing {
            Placing::NoChain => {
                let step = Flow {
                    rx: self.rx.attempted(false).0,
                    listening: false,
                    ..self
                }.finish_rx(self.rx.deferred_irqs, queue_event);
                Step {
                    flow: step.flow,
                    effects: (if self.listening {
                        seq![Effect::UnregisterTap { data: self.tap_index as u64 }]
                    } else {
                        seq![]
                    }) + step.effects,
                }
            },
            Placing::Chain { complete, irqs } => {
                let (rx, next) = RxState { deferred_irqs: irqs, ..self.rx }.attempted(complete);
                Flow { rx, ..self }.proceed_rx(next, queue_event)
            },
        }
    }

    /// The step on a reset: the worker takes over what guest memory there is.
    pub open spec fn on_reset(self, configured: Option<bool>) -> Step {
        match configured {
            None => self.end(Effect::Fail(Fault::ReadWorkerReset)),
            Some(has_mem) => Flow { has_mem, ..self }.next(),
        }
    }

    /// Whether a frame is in hand: it waits for a buffer, or one has been asked for.
    pub open spec fn has_frame(self) -> bool {
        self.rx.deferred_frame || self.phase is Frame
    }

    /// Whether a worker takes `input` where it stands.
    pub open spec fn takes(self, input: Input) -> bool {
        match input {
            Input::Registered(_) => self.phase is RegisterReset || self.phase is RegisterKill
                || self.phase is RegisterTap,
            Input::Waited(wait) => self.phase is Wait && (wait matches Wait::Events(events)
                ==> in_reach(self.num_queues, self.tap_index, events)),
            Input::Vring(_) => self.phase is Vring,
            Input::TapRead(_) => self.phase is TapRead,
            Input::Frame(_) => self.phase is Frame,
            Input::Reset(_) => self.phase is Reset,
        }
    }

    /// The events that are to be handled once `input` has come.
    pub open spec fn due(self, input: Input) -> Seq<u64> {
        if input is Waited && input->Waited_0 is Events {
            input->Waited_0->Events_0
        } else {
            self.pending
        }
    }

    /// The step on `input`.
    pub open spec fn step(self, input: Input) -> Step {
        match input {
            Input::Registered(ok) => self.on_registered(ok),
            Input::Waited(wait) => self.on_waited(wait),
            Input::Vring(enabled) => self.on_vring(enabled),
            Input::TapRead(read) => self.on_tap_read(read),
            Input::Frame(placing) => self.on_frame(placing),
            Input::Reset(configured) => self.on_reset(configured),
        }
    }

    /// What holds between any two steps: no used buffer goes unannounced past the end of an event,
    /// no frame is overwritten while it waits for a buffer, nothing is listened to twice, and no
    /// kick is to be handled of a vring that the worker does not hold.
    pub open spec fn wf(self) -> bool {
        &&& codes_fit(self.num_queues)
        &&& self.phase !is Ended ==> in_reach(self.num_queues, self.tap_index, self.pending)
        &&& !(self.phase is TapRead || self.phase is Frame || self.phase is Ended)
            ==> !self.rx.deferred_irqs
        &&& (self.phase is RegisterReset || self.phase is RegisterKill || self.phase is Wait)
            ==> self.pending.len() == 0
        &&& (self.phase is RegisterReset || self.phase is RegisterKill || self.phase is RegisterTap)
            ==> !self.listening
        &&& self.phase is TapRead ==> !self.rx.deferred_frame
        &&& self.phase is Frame ==> self.has_mem
    }
}

/// The next event finds a worker that keeps what holds between steps, and changes nothing of
/// reception.
proof fn lemma_next(flow: Flow)
    requires
        codes_fit(flow.num_queues),
        in_reach(flow.num_queues, flow.tap_index, flow.pending),
        !flow.rx.deferred_irqs,
    ensures
        flow.next().flow.wf(),
        flow.next().flow.rx == flow.rx,
        flow.next().flow.listening == flow.listening,
        flow.next().flow.has_mem == flow.has_mem,
        flow.next().effects.len() == 1,
        flow.next().effects[0] !is SignalRx,
        flow.next().effects[0] !is RegisterTap,
        flow.next().effects[0] !is UnregisterTap,
        flow.next().effects[0] is ReadTap <==> flow.next().flow.phase is TapRead,
        flow.next().flow.phase is TapRead ==> !flow.rx.deferred_frame,
        flow.next().flow.phase !is RegisterTap,
{
}

proof fn lemma_finish_rx(flow: Flow, signal: bool, queue_event: bool)
    requires
        codes_fit(flow.num_queues),
        in_reach(flow.num_queues, flow.tap_index, flow.pending),
        !flow.rx.deferred_irqs,
    ensures
        ({
            let step = flow.finish_rx(signal, queue_event);
            let register = Effect::RegisterTap { data: flow.tap_index as u64 };
            &&& step.flow.wf()
            &&& step.flow.rx == flow.rx
            &&& step.flow.listening == flow.listening
            &&& step.effects.contains(Effect::SignalRx) <==> signal
            &&& step.effects.contains(register) <==> queue_event && !flow.listening
            &&& step.flow.phase is RegisterTap <==> queue_event && !flow.listening
            &&& forall|data: u64| !step.effects.contains(Effect::UnregisterTap { data })
            &&& step.effects.contains(Effect::ReadTap) <==> step.flow.phase is TapRead
            &&& step.flow.phase is TapRead ==> !flow.rx.deferred_frame
        }),
{
    lemma_next(flow);
    let step = flow.finish_rx(signal, queue_event);
    let last = step.effects.last();
    assert(step.effects =~= if signal {
        seq![Effect::SignalRx, last]
    } else {
        seq![last]
    });
    assert(step.effects[step.effects.len() - 1] == last);
    assert(signal ==> step.effects[0] == Effect::SignalRx);
}

#[verifier::rlimit(60)]
proof fn lemma_on_frame(flow: Flow, placing: Placing)
    requires
        flow.wf(),
        flow.phase is Frame,
    ensures
        ({
            let step = flow.on_frame(placing);
            let register = Effect::RegisterTap { data: flow.tap_index as u64 };
            let unregister = Effect::UnregisterTap { data: flow.tap_index as u64 };
            let queue_event = flow.phase->Frame_queue_event;
            let stays = placing is Chain && placing->complete;
            &&& step.flow.wf()
            &&& step.flow.rx.bytes_read == flow.rx.bytes_read
            &&& step.effects.contains(unregister) <==> placing is NoChain && flow.listening
            &&& step.effects.contains(register) <==> !stays && queue_event && (placing is NoChain
                || !flow.listening)
            &&& step.flow.listening == (flow.listening && placing !is NoChain)
            &&& step.flow.phase is RegisterTap <==> step.effects.contains(register)
            &&& step.effects.contains(Effect::SignalRx) <==> if placing is NoChain {
                flow.rx.deferred_irqs
            } else {
                placing->irqs && !stays
            }
            &&& step.flow.rx.deferred_irqs == (stays && placing->irqs)
            &&& !stays ==> step.flow.rx.deferred_frame && !step.effects.contains(Effect::ReadTap)
                && step.flow.phase !is TapRead
        }),
{
    let queue_event = flow.phase->Frame_queue_event;
    let step = flow.on_frame(placing);
    match placing {
        Placing::NoChain => {
            let stopped = Flow { rx: flow.rx.attempted(false).0, listening: false, ..flow };
            lemma_finish_rx(stopped, flow.rx.deferred_irqs, queue_event);
            let rest = stopped.finish_rx(flow.rx.deferred_irqs, queue_event).effects;
            if flow.listening {
                let unregister = Effect::UnregisterTap { data: flow.tap_index as u64 };
                assert(step.effects =~= seq![unregister] + rest);
                assert(step.effects[0] == unregister);
                lemma_contains_behind(unregister, rest);
            } else {
                assert(step.effects =~= rest);
            }
        },
        Placing::Chain { complete, irqs } => {
            let (rx, next) = RxState { deferred_irqs: irqs, ..flow.rx }.attempted(complete);
            if complete {
                assert(step.effects =~= seq![Effect::ReadTap]);
            } else {
                lemma_finish_rx(Flow { rx, ..flow }, irqs, queue_event);
            }
        },
    }
}

proof fn lemma_contains_behind(first: Effect, rest: Seq<Effect>)
    ensures
        forall|e: Effect|
            (seq![first] + rest).contains(e) <==> e == first || #[trigger] rest.contains(e),
{
    let all = seq![first] + rest;
    assert forall|e: Effect| all.contains(e) <==> e == first || #[trigger] rest.contains(e) by {
        if all.contains(e) {
            let k = choose|k: int| 0 <= k < all.len() && all[k] == e;
            assert(k > 0 ==> rest[k - 1] == e);
        }
        if rest.contains(e) {
            let k = choose|k: int| 0 <= k < rest.len() && rest[k] == e;
            assert(all[k + 1] == e);
        }
        assert(all[0] == first);
    }
}

/// What the step on anything but the end of placing a frame does with reception.
proof fn lemma_other_step(flow: Flow, input: Input)
    requires
        flow.wf(),
        flow.takes(input),
        input !is Frame,
    ensures
        ({
            let step = flow.step(input);
            let register = Effect::RegisterTap { data: flow.tap_index as u64 };
            let unregister = Effect::UnregisterTap { data: flow.tap_index as u64 };
            &&& step.flow.wf()
            &&& step.flow.phase !is Ended && flow.rx.deferred_irqs ==> step.flow.rx.deferred_irqs
                || step.effects.contains(Effect::SignalRx)
            &&& step.effects.contains(Effect::SignalRx) ==> flow.rx.deferred_irqs
            &&& !step.effects.contains(unregister)
            &&& step.flow.listening == (flow.listening || (flow.phase is RegisterTap && input
                == Input::Registered(true)))
            &&& step.flow.phase is RegisterTap <==> step.effects.contains(register)
            &&& flow.rx.deferred_frame ==> !step.effects.contains(Effect::ReadTap)
                && step.flow.phase !is TapRead && step.flow.rx.bytes_read == flow.rx.bytes_read
                && step.flow.rx.deferred_frame
        }),
{
    let step = flow.step(input);
    match input {
        Input::Registered(ok) => {
            if ok && flow.phase is RegisterTap {
                lemma_next(Flow { listening: true, ..flow });
            }
        },
        Input::Waited(wait) => {
            if let Wait::Events(events) = wait {
                lemma_next(Flow { pending: events, ..flow });
            }
        },
        Input::Vring(enabled) => {
            lemma_next(flow);
            if enabled == Some(true) {
                if flow.phase->rx {
                    if !flow.rx.deferred_frame {
                        lemma_finish_rx(flow, false, true);
                    }
                } else if flow.has_mem {
                    lemma_contains_behind(Effect::ProcessTx, flow.next().effects);
                }
            }
        },
        Input::TapRead(read) => {
            if read is Empty {
                lemma_finish_rx(
                    Flow { rx: flow.rx.finished().0, ..flow },
                    flow.rx.deferred_irqs,
                    flow.phase->TapRead_queue_event,
                );
            }
        },
        Input::Reset(configured) => {
            if let Some(has_mem) = configured {
                lemma_next(Flow { has_mem, ..flow });
            }
        },
        Input::Frame(_) => {},
    }
}

/// Every step keeps what holds between steps.
pub proof fn law_step_keeps_wf(flow: Flow, input: Input)
    requires
        flow.wf(),
        flow.takes(input),
    ensures
        flow.step(input).flow.wf(),
{
    match input {
        Input::Frame(placing) => lemma_on_frame(flow, placing),
        _ => lemma_other_step(flow, input),
    }
}

/// A frame that was read from the tap device is kept until it is reported complete, unless the worker
/// ends: till then it is in hand, its length stays, and the tap device is not read again.
pub proof fn law_frames_are_not_lost(flow: Flow, input: Input)
    requires
        flow.wf(),
        flow.takes(input),
        flow.step(input).flow.phase !is Ended,
    ensures
        ({
            let step = flow.step(input);
            let placed = input is Frame && input->Frame_0 is Chain && input->Frame_0->complete;
            &&& flow.has_frame() && !placed ==> {
                &&& step.flow.has_frame()
                &&& step.flow.rx.bytes_read == flow.rx.bytes_read
                &&& step.flow.phase !is TapRead
                &&& !step.effects.contains(Effect::ReadTap)
            }
            &&& input is TapRead && input->TapRead_0 is Frame ==> {
                &&& step.flow.has_frame()
                &&& step.flow.rx.bytes_read == input->TapRead_0->Frame_0
                &&& !step.effects.contains(Effect::ReadTap)
            }
        }),
{
    match input {
        Input::Frame(placing) => lemma_on_frame(flow, placing),
        _ => lemma_other_step(flow, input),
    }
}

/// A buffer that was used is announced: what a step leaves unannounced of it, it notes for the next,
/// unless the worker ends. None is left unannounced while the worker waits for events.
pub proof fn law_used_buffers_are_announced(flow: Flow, input: Input)
    requires
        flow.wf(),
        flow.takes(input),
    ensures
        ({
            let step = flow.step(input);
            let pending = if input is Frame && input->Frame_0 is Chain {
                input->Frame_0->irqs
            } else {
                flow.rx.deferred_irqs
            };
            &&& pending && step.flow.phase !is Ended ==> step.flow.rx.deferred_irqs
                || step.effects.contains(Effect::SignalRx)
            &&& step.effects.contains(Effect::SignalRx) ==> pending
            &&& step.flow.phase is Wait ==> !step.flow.rx.deferred_irqs
        }),
{
    match input {
        Input::Frame(placing) => lemma_on_frame(flow, placing),
        _ => lemma_other_step(flow, input),
    }
}

/// The tap device leaves the event loop only where it is listened to, and is asked into it only
/// where it is not; it counts as listened to once its registration has been made, and not before.
pub proof fn law_listening_alternates(flow: Flow, input: Input)
    requires
        flow.wf(),
        flow.takes(input),
    ensures
        ({
            let step = flow.step(input);
            let enters = step.effects.contains(
                Effect::RegisterTap { data: flow.tap_index as u64 },
            );
            let leaves = step.effects.contains(
                Effect::UnregisterTap { data: flow.tap_index as u64 },
            );
            &&& leaves ==> flow.listening
            &&& enters <==> step.flow.phase is RegisterTap
            &&& enters ==> !step.flow.listening
            &&& step.flow.listening == ((flow.listening && !leaves) || (flow.phase is RegisterTap
                && input == Input::Registered(true)))
        }),
{
    match input {
        Input::Frame(placing) => lemma_on_frame(flow, placing),
        _ => lemma_other_step(flow, input),
    }
}

/// A worker adds its reset event to the event loop and then, only where that was done, its kill
/// event, each with a code of its own, and waits for events only where both are there.
pub proof fn law_worker_starts_in_order(num_queues: usize, tap_index: usize)
    requires
        codes_fit(num_queues),
    ensures
        ({
            let first = Flow::start(num_queues, tap_index);
            let second = first.flow.on_registered(true);
            let third = second.flow.on_registered(true);
            let reset = reset_index(num_queues);
            &&& first.flow.wf() && second.flow.wf() && third.flow.wf()
            &&& first.effects == seq![Effect::RegisterReset { data: reset as u64 }]
            &&& second.effects == seq![Effect::RegisterKill { data: (reset + 1) as u64 }]
            &&& third.effects == seq![Effect::Wait]
            &&& third.flow.phase is Wait
        }),
{
}

/// A registration that is refused ends the worker with the error of that registration: nothing more
/// is registered or waited for, and what is listened to stays as it was.
pub proof fn law_refused_registration_ends_the_worker(flow: Flow)
    requires
        flow.wf(),
        flow.takes(Input::Registered(false)),
    ensures
        flow.step(Input::Registered(false)).effects == seq![Effect::FailRegister],
        flow.step(Input::Registered(false)).flow == (Flow { phase: Phase::Ended, ..flow }),
        !flow.step(Input::Registered(false)).flow.listening,
{
}

/// The codes of the events of worker `i` are told apart: the vrings, the tap device, the reset event
/// and the kill event each come back as what they were registered for.
pub proof fn law_events_are_told_apart(num_queues: usize, i: usize, vring: usize)
    requires
        num_queues + num_queues / 2 < 0xffff,
        i < num_queues / 2,
        vring < num_queues,
    ensures
        codes_fit(num_queues),
        event_of(num_queues, (num_queues + i) as usize, vring as u64) == if vring % 2 == 0 {
            Event::Rx
        } else {
            Event::Tx
        },
        event_of(num_queues, (num_queues + i) as usize, (num_queues + i) as u64) == Event::Tap,
        event_of(num_queues, (num_queues + i) as usize, reset_index(num_queues) as u64)
            == Event::Reset,
        event_of(num_queues, (num_queues + i) as usize, (reset_index(num_queues) + 1) as u64)
            == Event::Kill,
{
}

/// Events are handled in the order in which the event loop reported them, one after the other: a
/// step leaves them as they were, or takes the first off.
pub proof fn law_events_are_handled_in_order(flow: Flow, input: Input)
    requires
        flow.wf(),
        flow.takes(input),
    ensures
        ({
            let step = flow.step(input);
            let due = flow.due(input);
            &&& step.flow.pending == due || (due.len() > 0 && step.flow.pending == due.drop_first())
            &&& step.flow.phase is Wait ==> due.len() == 0
        }),
{
}

/// Whether an effect is the end of a worker.
pub open spec fn is_end(effect: Effect) -> bool {
    effect is Stop || effect is Fail || effect is FailWait || effect is FailRegister
}

/// Whether a step that has the events `due` before it ends the worker as it says, asks for the frame
/// in hand to be placed, or asks for a vring that the worker holds to be checked.
spec fn ends_as_told(flow: Flow, step: Step, due: Seq<u64>) -> bool {
    let last = step.effects.last();
    &&& step.effects.len() > 0
    &&& step.flow.phase is Ended <==> is_end(last)
    &&& last is Stop ==> due.len() > 0 && event_of(flow.num_queues, flow.tap_index, due[0])
        == Event::Kill
    &&& step.flow.phase is Frame <==> last is PlaceFrame
    &&& last is PlaceFrame ==> last->bytes_read == step.flow.rx.bytes_read
    &&& step.flow.phase is Vring <==> last is CheckVring
    &&& last is CheckVring ==> last->vring < WORKER_VRINGS
}

/// Whether a step ends the worker with the outcome of what it asked for.
spec fn ends_with_outcome(step: Step) -> bool {
    step.effects.last() is FailWait || step.effects.last() is FailRegister
}

proof fn lemma_finish_ends(flow: Flow, signal: bool, queue_event: bool)
    requires
        in_reach(flow.num_queues, flow.tap_index, flow.pending),
    ensures
        ends_as_told(flow, flow.finish_rx(signal, queue_event), flow.pending),
        ends_as_told(flow, flow.next(), flow.pending),
        !ends_with_outcome(flow.finish_rx(signal, queue_event)),
        !ends_with_outcome(flow.next()),
{
    let step = flow.finish_rx(signal, queue_event);
    assert(flow.next().effects.len() == 1);
    if !(queue_event && !flow.listening) {
        assert(step.effects.last() == flow.next().effects[0]);
    }
    assert(ends_as_told(flow, flow.next(), flow.pending));
}

proof fn lemma_frame_ends(flow: Flow, placing: Placing)
    requires
        flow.wf(),
        flow.phase is Frame,
    ensures
        ends_as_told(flow, flow.on_frame(placing), flow.pending),
        !ends_with_outcome(flow.on_frame(placing)),
{
    let queue_event = flow.phase->Frame_queue_event;
    match placing {
        Placing::NoChain => {
            let stopped = Flow { rx: flow.rx.attempted(false).0, listening: false, ..flow };
            lemma_finish_ends(stopped, flow.rx.deferred_irqs, queue_event);
            assert(flow.on_frame(placing).effects.last() == stopped.finish_rx(
                flow.rx.deferred_irqs,
                queue_event,
            ).effects.last());
        },
        Placing::Chain { complete, irqs } => {
            let (rx, next) = RxState { deferred_irqs: irqs, ..flow.rx }.attempted(complete);
            lemma_finish_ends(Flow { rx, ..flow }, irqs, queue_event);
        },
    }
}

#[verifier::rlimit(60)]
proof fn lemma_step_ends(flow: Flow, input: Input)
    requires
        flow.wf(),
        flow.takes(input),
    ensures
        ends_as_told(flow, flow.step(input), flow.due(input)),
        flow.step(input).effects.last() is FailWait ==> input is Waited && input->Waited_0 is Failed,
        flow.step(input).effects.last() is FailRegister ==> input == Input::Registered(false),
{
    match input {
        Input::Registered(ok) => {
            if ok {
                lemma_finish_ends(Flow { listening: true, ..flow }, false, false);
            }
        },
        Input::Waited(wait) => {
            if let Wait::Events(events) = wait {
                lemma_finish_ends(Flow { pending: events, ..flow }, false, false);
            }
        },
        Input::Vring(enabled) => {
            lemma_finish_ends(flow, false, true);
            assert((seq![Effect::ProcessTx] + flow.next().effects).last()
                == flow.next().effects.last());
        },
        Input::TapRead(read) => {
            if read is Empty {
                lemma_finish_ends(
                    Flow { rx: flow.rx.finished().0, ..flow },
                    flow.rx.deferred_irqs,
                    flow.phase->TapRead_queue_event,
                );
            }
        },
        Input::Frame(placing) => lemma_frame_ends(flow, placing),
        Input::Reset(configured) => {
            if let Some(has_mem) = configured {
                lemma_finish_ends(Flow { has_mem, ..flow }, false, false);
            }
        },
    }
}

/// A worker ends only where it is told to, where a step says why, where the wait failed, or where a
/// registration was refused; and it is told to only by the kill event.
pub proof fn law_worker_ends_for_a_reason(flow: Flow, input: Input)
    requires
        flow.wf(),
        flow.takes(input),
    ensures
        ({
            let step = flow.step(input);
            let last = step.effects.last();
            let due = flow.due(input);
            &&& step.effects.len() > 0
            &&& step.flow.phase is Ended <==> is_end(last)
            &&& last is Stop ==> due.len() > 0 && event_of(
                flow.num_queues,
                flow.tap_index,
                due[0],
            ) == Event::Kill
            &&& last is FailWait ==> input is Waited && input->Waited_0 is Failed
            &&& last is FailRegister ==> input == Input::Registered(false)
        }),
{
    lemma_step_ends(flow, input);
}

/// A worker asks only for a vring that it holds to be checked.
pub proof fn law_checks_are_of_vrings_held(flow: Flow, input: Input)
    requires
        flow.wf(),
        flow.takes(input),
        flow.step(input).flow.phase is Vring,
    ensures
        flow.step(input).effects.last() is CheckVring,
        flow.step(input).effects.last()->vring < WORKER_VRINGS,
{
    lemma_step_ends(flow, input);
}

/// A kick is reported by the place of its vring among all, so the kicks of the first queue pair are
/// in reach of a worker, and no others.
pub proof fn law_kicks_of_the_first_pair_are_in_reach(num_queues: usize, i: usize, vring: usize)
    requires
        num_queues + num_queues / 2 < 0xffff,
        i < num_queues / 2,
        vring < num_queues,
    ensures
        in_reach(num_queues, (num_queues + i) as usize, seq![vring as u64]) <==> vring / 2 == 0,
{
    law_events_are_told_apart(num_queues, i, vring);
    let events = seq![vring as u64];
    assert(events.drop_first().len() == 0);
    assert(in_reach(num_queues, (num_queues + i) as usize, events.drop_first()));
}

/// Every attempt to place a frame is an attempt at all of it: what a worker asks to be placed has the
/// length of the frame in hand, however often it was tried before.
pub proof fn law_attempts_are_at_the_whole_frame(flow: Flow, input: Input)
    requires
        flow.wf(),
        flow.takes(input),
        flow.step(input).flow.phase is Frame,
    ensures
        flow.step(input).effects.last() == (Effect::PlaceFrame {
            bytes_read: flow.step(input).flow.rx.bytes_read,
        }),
{
    lemma_step_ends(flow, input);
}

/// Whether a placing is the end of its frame.
pub open spec fn delivers(placing: Placing) -> bool {
    placing is Chain && placing->complete
}

/// How many of `frames`, each with its length and how its placing ends, are delivered before one is
/// not.
pub open spec fn delivered(frames: Seq<(usize, Placing)>) -> nat
    decreases frames.len(),
{
    if frames.len() == 0 || !delivers(frames[0].1) {
        0
    } else {
        1 + delivered(frames.drop_first())
    }
}

/// Those of `frames` that are read from the tap device: the ones that are delivered, and the one that
/// is not.
pub open spec fn tried(frames: Seq<(usize, Placing)>) -> Seq<(usize, Placing)> {
    if delivered(frames) < frames.len() {
        frames.take(delivered(frames) as int + 1)
    } else {
        frames
    }
}

/// Whether there is a used buffer to announce after the placings of `frames`, where `before` says
/// whether there was one before them.
pub open spec fn to_announce(before: bool, frames: Seq<(usize, Placing)>) -> bool
    decreases frames.len(),
{
    if frames.len() == 0 {
        before
    } else {
        to_announce(
            match frames[0].1 {
                Placing::NoChain => before,
                Placing::Chain { irqs, .. } => irqs,
            },
            frames.drop_first(),
        )
    }
}

/// Where reception ends and what it does, from a read of the tap device on, where the tap device
/// holds `frames`, each with its length and how its placing ends.
pub open spec fn reception(flow: Flow, frames: Seq<(usize, Placing)>) -> Step
    decreases frames.len(),
{
    if frames.len() == 0 {
        flow.on_tap_read(TapRead::Empty)
    } else {
        let read = flow.on_tap_read(TapRead::Frame(frames[0].0));
        let step = read.flow.on_frame(frames[0].1);
        if delivers(frames[0].1) {
            let rest = reception(step.flow, frames.drop_first());
            Step { flow: rest.flow, effects: read.effects + step.effects + rest.effects }
        } else {
            Step { flow: step.flow, effects: read.effects + step.effects }
        }
    }
}

/// The effects that deliver `frames`, each followed by the read of the next one.
pub open spec fn deliveries(frames: Seq<(usize, Placing)>) -> Seq<Effect>
    decreases frames.len(),
{
    if frames.len() == 0 {
        seq![]
    } else {
        seq![Effect::PlaceFrame { bytes_read: frames[0].0 }, Effect::ReadTap] + deliveries(
            frames.drop_first(),
        )
    }
}

/// The effects on a frame that is not delivered: its placing and, where that found no chain, the end
/// of listening to the tap device.
pub open spec fn held_back(flow: Flow, frames: Seq<(usize, Placing)>) -> Seq<Effect> {
    let n = delivered(frames) as int;
    if n < frames.len() {
        seq![Effect::PlaceFrame { bytes_read: frames[n].0 }] + if frames[n].1 is NoChain
            && flow.listening {
            seq![Effect::UnregisterTap { data: flow.tap_index as u64 }]
        } else {
            seq![]
        }
    } else {
        seq![]
    }
}

/// Where reception stands before the event of it ends: a frame that was not delivered waits with its
/// length, every used buffer is announced, and the tap device is listened to unless a frame found no
/// chain.
pub open spec fn received(flow: Flow, frames: Seq<(usize, Placing)>) -> Flow {
    let n = delivered(frames) as int;
    Flow {
        rx: RxState {
            deferred_frame: n < frames.len(),
            deferred_irqs: false,
            bytes_read: if tried(frames).len() == 0 {
                flow.rx.bytes_read
            } else {
                tried(frames).last().0
            },
        },
        listening: flow.listening && !(n < frames.len() && frames[n].1 is NoChain),
        ..flow
    }
}

/// The signal at the end of reception, where there is a used buffer to announce.
pub open spec fn announcing(flow: Flow, frames: Seq<(usize, Placing)>) -> Seq<Effect> {
    if to_announce(flow.rx.deferred_irqs, tried(frames)) {
        seq![Effect::SignalRx]
    } else {
        seq![]
    }
}

/// The effects of reception, from a read of the tap device on: the frames that are delivered, the one
/// that is not, the signal, and the end of the event.
pub open spec fn received_effects(flow: Flow, frames: Seq<(usize, Placing)>) -> Seq<Effect> {
    deliveries(frames.take(delivered(frames) as int)) + held_back(flow, frames) + announcing(
        flow,
        frames,
    ) + received(flow, frames).settle_rx(flow.phase->TapRead_queue_event).effects
}

/// The steps of a frame that is delivered lead to the next read.
proof fn lemma_delivery(flow: Flow, len: usize, irqs: bool)
    requires
        flow.phase is TapRead,
        !flow.rx.deferred_frame,
        flow.has_mem,
    ensures
        ({
            let read = flow.on_tap_read(TapRead::Frame(len));
            let step = read.flow.on_frame(Placing::Chain { complete: true, irqs });
            &&& read.effects == seq![Effect::PlaceFrame { bytes_read: len }]
            &&& step.effects == seq![Effect::ReadTap]
            &&& step.flow == (Flow {
                rx: RxState { deferred_frame: false, deferred_irqs: irqs, bytes_read: len },
                ..flow
            })
        }),
{
}

/// The end of an event is one effect and no signal, and rests on nothing that was waited for.
proof fn lemma_settle(flow: Flow, phase: Phase, queue_event: bool)
    ensures
        flow.settle_rx(queue_event).effects.len() == 1,
        flow.settle_rx(queue_event).effects[0] !is SignalRx,
        (Flow { phase, ..flow }).settle_rx(queue_event) == flow.settle_rx(queue_event),
{
}

/// The steps of a frame that is not delivered lead to the end of reception.
#[verifier::rlimit(60)]
proof fn lemma_no_delivery(flow: Flow, len: usize, placing: Placing)
    requires
        flow.phase is TapRead,
        flow.has_mem,
        !delivers(placing),
    ensures
        ({
            let read = flow.on_tap_read(TapRead::Frame(len));
            let step = read.flow.on_frame(placing);
            let end = Flow {
                rx: RxState { deferred_frame: true, deferred_irqs: false, bytes_read: len },
                listening: flow.listening && placing !is NoChain,
                ..flow
            }.settle_rx(flow.phase->TapRead_queue_event);
            let signal = match placing {
                Placing::NoChain => flow.rx.deferred_irqs,
                Placing::Chain { irqs, .. } => irqs,
            };
            &&& read.effects == seq![Effect::PlaceFrame { bytes_read: len }]
            &&& step.flow == end.flow
            &&& step.effects == (if placing is NoChain && flow.listening {
                seq![Effect::UnregisterTap { data: flow.tap_index as u64 }]
            } else {
                seq![]
            }) + ((if signal {
                seq![Effect::SignalRx]
            } else {
                seq![]
            }) + end.effects)
        }),
{
    let queue_event = flow.phase->TapRead_queue_event;
    let stopped = Flow {
        rx: RxState { deferred_frame: true, deferred_irqs: false, bytes_read: len },
        listening: flow.listening && placing !is NoChain,
        ..flow
    };
    lemma_settle(stopped, Phase::Frame { queue_event }, queue_event);
    let step = flow.on_tap_read(TapRead::Frame(len)).flow.on_frame(placing);
    if placing is Chain {
        assert(Seq::<Effect>::empty() + step.effects =~= step.effects);
    }
}

/// A read that finds the tap device empty ends reception.
#[verifier::rlimit(60)]
proof fn lemma_nothing_received(flow: Flow, frames: Seq<(usize, Placing)>)
    requires
        flow.phase is TapRead,
        !flow.rx.deferred_frame,
        frames.len() == 0,
    ensures
        reception(flow, frames).effects == received_effects(flow, frames),
        reception(flow, frames).flow == received(flow, frames).settle_rx(
            flow.phase->TapRead_queue_event,
        ).flow,
{
    assert(received(flow, frames) == (Flow { rx: flow.rx.finished().0, ..flow }));
    assert(reception(flow, frames).effects =~= received_effects(flow, frames));
}

/// One frame that is delivered, in front of others.
#[verifier::rlimit(60)]
proof fn lemma_delivered_first(flow: Flow, frames: Seq<(usize, Placing)>, after: Flow)
    requires
        frames.len() > 0,
        delivers(frames[0].1),
        delivered(frames.drop_first()) <= frames.drop_first().len(),
        after == (Flow {
            rx: RxState {
                deferred_frame: false,
                deferred_irqs: frames[0].1->irqs,
                bytes_read: frames[0].0,
            },
            ..flow
        }),
    ensures
        ({
            let rest = frames.drop_first();
            &&& deliveries(frames.take(delivered(frames) as int)) == seq![
                Effect::PlaceFrame { bytes_read: frames[0].0 },
                Effect::ReadTap,
            ] + deliveries(rest.take(delivered(rest) as int))
            &&& held_back(flow, frames) == held_back(after, rest)
            &&& received(flow, frames) == received(after, rest)
            &&& to_announce(flow.rx.deferred_irqs, tried(frames)) == to_announce(
                after.rx.deferred_irqs,
                tried(rest),
            )
        }),
{
    let rest = frames.drop_first();
    let n = delivered(frames) as int;
    assert(frames.take(n).drop_first() =~= rest.take(n - 1));
    assert(tried(frames).drop_first() =~= tried(rest));
    assert(tried(frames)[0] == frames[0]);
    assert(n < frames.len() ==> frames[n] == rest[n - 1]);
    if tried(rest).len() == 0 {
        assert(tried(frames).len() == 1);
    } else {
        assert(tried(frames).last() == tried(rest).last());
    }
}

/// Reception where the first frame is not delivered.
#[verifier::rlimit(60)]
proof fn lemma_first_held_back(flow: Flow, frames: Seq<(usize, Placing)>)
    requires
        flow.phase is TapRead,
        flow.has_mem,
        frames.len() > 0,
        !delivers(frames[0].1),
    ensures
        reception(flow, frames).effects == received_effects(flow, frames),
        reception(flow, frames).flow == received(flow, frames).settle_rx(
            flow.phase->TapRead_queue_event,
        ).flow,
{
    lemma_no_delivery(flow, frames[0].0, frames[0].1);
    assert(tried(frames) =~= seq![frames[0]]);
    assert(tried(frames).drop_first().len() == 0);
    reveal_with_fuel(to_announce, 2);
    assert(frames.take(0).len() == 0);
    assert(reception(flow, frames).effects =~= received_effects(flow, frames));
}

proof fn lemma_in_front(
    front: Seq<Effect>,
    a: Seq<Effect>,
    b: Seq<Effect>,
    c: Seq<Effect>,
    d: Seq<Effect>,
)
    ensures
        front + (a + b + c + d) == front + a + b + c + d,
{
    assert(front + (a + b + c + d) =~= front + a + b + c + d);
}

/// A frame that is delivered is placed, and reception goes on with the next read.
#[verifier::rlimit(60)]
proof fn lemma_reception_goes_on(flow: Flow, frames: Seq<(usize, Placing)>, after: Flow)
    requires
        flow.phase is TapRead,
        !flow.rx.deferred_frame,
        flow.has_mem,
        frames.len() > 0,
        delivers(frames[0].1),
        after == (Flow {
            rx: RxState {
                deferred_frame: false,
                deferred_irqs: frames[0].1->irqs,
                bytes_read: frames[0].0,
            },
            ..flow
        }),
    ensures
        reception(flow, frames).effects == seq![
            Effect::PlaceFrame { bytes_read: frames[0].0 },
            Effect::ReadTap,
        ] + reception(after, frames.drop_first()).effects,
        reception(flow, frames).flow == reception(after, frames.drop_first()).flow,
{
    let place = Effect::PlaceFrame { bytes_read: frames[0].0 };
    lemma_delivery(flow, frames[0].0, frames[0].1->irqs);
    assert(frames[0].1 == (Placing::Chain { complete: true, irqs: frames[0].1->irqs }));
    assert(seq![place] + seq![Effect::ReadTap] =~= seq![place, Effect::ReadTap]);
}

/// Reception where the first frame is delivered, and the others are received as they should be.
#[verifier::rlimit(60)]
proof fn lemma_first_delivered(flow: Flow, frames: Seq<(usize, Placing)>, after: Flow)
    requires
        flow.phase is TapRead,
        !flow.rx.deferred_frame,
        flow.has_mem,
        frames.len() > 0,
        delivers(frames[0].1),
        delivered(frames.drop_first()) <= frames.drop_first().len(),
        after == (Flow {
            rx: RxState {
                deferred_frame: false,
                deferred_irqs: frames[0].1->irqs,
                bytes_read: frames[0].0,
            },
            ..flow
        }),
        reception(after, frames.drop_first()).effects == received_effects(
            after,
            frames.drop_first(),
        ),
    ensures
        reception(flow, frames).effects == received_effects(flow, frames),
        reception(flow, frames).flow == reception(after, frames.drop_first()).flow,
{
    let rest = frames.drop_first();
    let front = seq![Effect::PlaceFrame { bytes_read: frames[0].0 }, Effect::ReadTap];
    lemma_reception_goes_on(flow, frames, after);
    lemma_delivered_first(flow, frames, after);
    lemma_in_front(
        front,
        deliveries(rest.take(delivered(rest) as int)),
        held_back(after, rest),
        announcing(after, rest),
        received(after, rest).settle_rx(flow.phase->TapRead_queue_event).effects,
    );
}

/// Reception places the frames that the tap device holds, in order: each that is delivered is
/// followed by the read of the next, and the first that is not waits with its length. The guest is
/// signalled once, behind all placings, exactly where there is a used buffer to announce, and then
/// the event ends.
#[verifier::rlimit(60)]
pub proof fn law_reception_delivers_in_order(flow: Flow, frames: Seq<(usize, Placing)>)
    requires
        flow.phase is TapRead,
        !flow.rx.deferred_frame,
        flow.has_mem,
    ensures
        ({
            let step = reception(flow, frames);
            let end = received(flow, frames).settle_rx(flow.phase->TapRead_queue_event);
            &&& step.effects == received_effects(flow, frames)
            &&& step.flow == end.flow
            &&& delivered(frames) <= frames.len()
            &&& end.effects.len() == 1 && end.effects[0] !is SignalRx
        }),
    decreases frames.len(),
{
    lemma_settle(received(flow, frames), flow.phase, flow.phase->TapRead_queue_event);
    if frames.len() == 0 {
        lemma_nothing_received(flow, frames);
    } else if !delivers(frames[0].1) {
        lemma_first_held_back(flow, frames);
    } else {
        let irqs = frames[0].1->irqs;
        let after = Flow {
            rx: RxState { deferred_frame: false, deferred_irqs: irqs, bytes_read: frames[0].0 },
            ..flow
        };
        assert(after.phase is TapRead && after.has_mem);
        law_reception_delivers_in_order(after, frames.drop_first());
        lemma_first_delivered(flow, frames, after);
    }
}

/// Where every chain that was taken leaves a used buffer to announce, there is one exactly where
/// there was one before or a chain was taken.
pub proof fn law_used_chains_are_to_announce(before: bool, frames: Seq<(usize, Placing)>)
    requires
        forall|i: int|
            0 <= i < frames.len() && (#[trigger] frames[i]).1 is Chain ==> frames[i].1->irqs,
    ensures
        to_announce(before, frames) <==> before || exists|i: int|
            0 <= i < frames.len() && (#[trigger] frames[i]).1 is Chain,
    decreases frames.len(),
{
    if frames.len() > 0 {
        let rest = frames.drop_first();
        let here = match frames[0].1 {
            Placing::NoChain => before,
            Placing::Chain { irqs, .. } => irqs,
        };
        assert forall|i: int| 0 <= i < rest.len() && (#[trigger] rest[i]).1 is Chain implies
            rest[i].1->irqs by {
            assert(rest[i] == frames[i + 1]);
        }
        law_used_chains_are_to_announce(here, rest);
        if exists|i: int| 0 <= i < rest.len() && (#[trigger] rest[i]).1 is Chain {
            let i = choose|i: int| 0 <= i < rest.len() && (#[trigger] rest[i]).1 is Chain;
            assert(frames[i + 1].1 is Chain);
        }
        if exists|i: int| 0 <= i < frames.len() && (#[trigger] frames[i]).1 is Chain {
            let i = choose|i: int| 0 <= i < frames.len() && (#[trigger] frames[i]).1 is Chain;
            if i > 0 {
                assert(rest[i - 1].1 is Chain);
            }
        }
    }
}

} // verus!
