//! The order of the backend's work: where each event and each reply leads, and what is to be done.
use crate::abi::TapRead;
use crate::rx::{RxNext, RxState, MAX_BUFFER_SIZE};
use crate::single_queue::Error;
use vstd::prelude::*;

verus! {

/// The length of each queue.
pub const QUEUE_SIZE: usize = 256;

/// The receive queue and the transmit queue.
pub const NUM_QUEUES: usize = 2;

/// The guest has made a buffer available to receive a frame into.
pub const RX_QUEUE_EVENT: u16 = 0;

/// The transmit queue has a frame that is ready to send from the guest.
pub const TX_QUEUE_EVENT: u16 = 1;

/// A frame is available for reading from the tap device to receive in the guest.
pub const RX_TAP_EVENT: u16 = 2;

/// The device has been dropped.
pub const KILL_EVENT: u16 = 3;

/// Number of events supported by this implementation.
pub const NET_EVENTS_COUNT: u16 = 4;

/// What the backend waits for.
#[derive(Clone, Copy, PartialEq, Eq, Structural, Debug)]
pub enum Phase {
    /// The next event.
    Idle,
    /// The outcome of a read from the tap device. An event of the receive queue ends with a check
    /// that the tap device is listened to; an event of the tap device does not.
    TapRead { queue_event: bool },
    /// A chain of the receive queue.
    RxChain { queue_event: bool },
    /// The outcome of signalling the receive queue.
    SignalRx { queue_event: bool },
    /// The outcome of adding the tap device to the event loop.
    Register,
    /// A chain of the transmit queue.
    TxChain,
    /// The outcome of a write to the tap device.
    TapWrite,
    /// Nothing more: it has failed.
    Failed,
}

/// What is to be done for the backend.
#[derive(Clone, Copy, PartialEq, Eq, Structural, Debug)]
pub enum Effect {
    /// Read from the tap device into the receive frame buffer, and reply with `tap_read`.
    ReadTap,
    /// Take the next available chain of the receive queue, and reply with `rx_chain`.
    TakeRxChain,
    /// Take the tap device out of the event loop.
    UnregisterTap,
    /// Return a chain to the receive queue with so many bytes written to it.
    AddUsedRx { head_index: u16, written: u32 },
    /// Signal the receive queue to the guest, and reply with `signalled`.
    SignalRx,
    /// Add the tap device to the event loop as `RX_TAP_EVENT`, and reply with `registered`.
    RegisterTap,
    /// Take the next available chain of the transmit queue, and reply with `tx_chain`.
    TakeTxChain,
    /// Write so many bytes of the transmit frame buffer to the tap device, and reply with
    /// `tap_written`.
    WriteTap { len: usize },
    /// Return a chain to the transmit queue with so many bytes written to it.
    AddUsedTx { head_index: u16, written: u32 },
    /// Signal the transmit queue to the guest.
    SignalTx,
    /// The event is over; whether it was one that the backend handles.
    Return(bool),
    /// The event is over, with the error of the registration that failed.
    ReturnError,
}

/// What the decisions of the backend rest on.
pub struct Flow {
    pub rx: RxState,
    pub listening: bool,
    pub phase: Phase,
    pub used: Seq<u16>,
}

/// Where a step leads, and what is to be done.
pub struct Step {
    pub flow: Flow,
    pub out: Result<Seq<Effect>, Error>,
}

/// What the backend is told.
pub enum Input {
    Device { device_event: u16, evset: u32 },
    TapRead(TapRead),
    /// Where there was a chain, its index and how many bytes of the frame it took.
    RxChain(Option<(u16, nat)>),
    Signalled(bool),
    Registered(bool),
    /// Where there was a chain, its index and the length of its frame.
    TxChain(Option<(u16, nat)>),
    TapWritten(bool),
}

impl Input {
    /// Whether a buffer of the receive queue is used.
    pub open spec fn uses_rx_chain(self) -> bool {
        self is RxChain && self->RxChain_0 is Some
    }
}

impl Flow {
    /// The end of an event of reception: one of the receive queue has the tap device listened to
    /// again.
    pub open spec fn settle_rx(self, queue_event: bool) -> Step {
        if queue_event && !self.listening {
            Step {
                flow: Flow { phase: Phase::Register, ..self },
                out: Ok(seq![Effect::RegisterTap]),
            }
        } else {
            Step {
                flow: Flow { phase: Phase::Idle, ..self },
                out: Ok(seq![Effect::Return(true)]),
            }
        }
    }

    /// The end of reception: the guest is signalled where a buffer was used, and then the event
    /// ends.
    pub open spec fn finish_rx(self, signal: bool, queue_event: bool) -> Step {
        if signal {
            Step {
                flow: Flow { phase: Phase::SignalRx { queue_event }, ..self },
                out: Ok(seq![Effect::SignalRx]),
            }
        } else {
            self.settle_rx(queue_event)
        }
    }

    /// One step of reception. Without guest memory no frame can be placed, and it waits.
    pub open spec fn proceed_rx(self, next: RxNext, queue_event: bool, has_mem: bool) -> Step {
        match next {
            RxNext::ReadTap => Step {
                flow: Flow { phase: Phase::TapRead { queue_event }, ..self },
                out: Ok(seq![Effect::ReadTap]),
            },
            RxNext::TakeChain => if has_mem {
                Step {
                    flow: Flow { phase: Phase::RxChain { queue_event }, ..self },
                    out: Ok(seq![Effect::TakeRxChain]),
                }
            } else {
                Flow { rx: self.rx.attempted(false).0, ..self }.finish_rx(
                    self.rx.deferred_irqs,
                    queue_event,
                )
            },
            RxNext::Finish { signal } => self.finish_rx(signal, queue_event),
        }
    }

    /// The step on an event. Events other than readability of a descriptor are declined.
    pub open spec fn on_device(self, device_event: u16, evset: u32, has_mem: bool) -> Step {
        if evset != 1 {
            Step { flow: self, out: Ok(seq![Effect::Return(false)]) }
        } else if device_event == RX_QUEUE_EVENT {
            self.proceed_rx(self.rx.started(false), true, has_mem)
        } else if device_event == TX_QUEUE_EVENT {
            if has_mem {
                Step {
                    flow: Flow { phase: Phase::TxChain, ..self },
                    out: Ok(seq![Effect::TakeTxChain]),
                }
            } else {
                Step {
                    flow: Flow { phase: Phase::Failed, ..self },
                    out: Err(Error::NoMemoryForTx),
                }
            }
        } else if device_event == RX_TAP_EVENT {
            self.proceed_rx(self.rx.started(true), false, has_mem)
        } else {
            Step { flow: self, out: Ok(seq![Effect::Return(true)]) }
        }
    }

    /// The step on the outcome of a read from the tap device.
    pub open spec fn on_tap_read(self, read: TapRead, has_mem: bool) -> Step {
        let queue_event = self.phase->TapRead_queue_event;
        match read {
            TapRead::Frame(count) => Flow {
                rx: RxState { bytes_read: count, ..self.rx },
                ..self
            }.proceed_rx(RxNext::TakeChain, queue_event, has_mem),
            TapRead::Empty => Flow { rx: self.rx.finished().0, ..self }.finish_rx(
                self.rx.deferred_irqs,
                queue_event,
            ),
            TapRead::Failed => Step {
                flow: Flow { phase: Phase::Failed, ..self },
                out: Err(Error::FailedReadTap),
            },
        }
    }

    /// The step on a chain of the receive queue. Without one the tap device is not listened to any
    /// longer and the frame waits; with one the frame is placed as far as it goes, the chain is
    /// returned, and the next frame is read.
    pub open spec fn on_rx_chain(self, chain: Option<(u16, nat)>) -> Step {
        let queue_event = self.phase->RxChain_queue_event;
        match chain {
            None => {
                let step = Flow {
                    rx: self.rx.attempted(false).0,
                    listening: false,
                    ..self
                }.finish_rx(self.rx.deferred_irqs, queue_event);
                Step {
                    flow: step.flow,
                    out: Ok(
                        (if self.listening {
                            seq![Effect::UnregisterTap]
                        } else {
                            seq![]
                        }) + step.out->Ok_0,
                    ),
                }
            },
            Some((head_index, count)) => {
                let (rx, next) = RxState { deferred_irqs: true, ..self.rx }.attempted(true);
                let step = Flow { rx, ..self }.proceed_rx(next, queue_event, true);
                Step {
                    flow: step.flow,
                    out: Ok(
                        seq![Effect::AddUsedRx { head_index, written: count as u32 }]
                            + step.out->Ok_0,
                    ),
                }
            },
        }
    }

    /// The step on the outcome of signalling the receive queue.
    pub open spec fn on_signalled(self, ok: bool) -> Step {
        if ok {
            self.settle_rx(self.phase->SignalRx_queue_event)
        } else {
            Step {
                flow: Flow { phase: Phase::Failed, ..self },
                out: Err(Error::FailedSignalingUsedQueue),
            }
        }
    }

    /// The step on the outcome of adding the tap device to the event loop.
    pub open spec fn on_registered(self, ok: bool) -> Step {
        Step {
            flow: Flow { listening: ok, phase: Phase::Idle, ..self },
            out: Ok(
                seq![
                    if ok {
                        Effect::Return(true)
                    } else {
                        Effect::ReturnError
                    },
                ],
            ),
        }
    }

    /// The step on a chain of the transmit queue: its frame is sent, and when there are no more
    /// chains, all are returned in the order in which they came, with nothing written to them, and
    /// the guest is signalled.
    pub open spec fn on_tx_chain(self, chain: Option<(u16, nat)>) -> Step {
        match chain {
            Some((head_index, count)) => Step {
                flow: Flow { used: self.used.push(head_index), phase: Phase::TapWrite, ..self },
                out: Ok(seq![Effect::WriteTap { len: count as usize }]),
            },
            None => Step {
                flow: Flow { used: Seq::empty(), phase: Phase::Idle, ..self },
                out: Ok(
                    returns_of(self.used) + seq![Effect::SignalTx, Effect::Return(true)],
                ),
            },
        }
    }

    /// The step on the outcome of a write to the tap device: a frame that could not be sent is
    /// dropped, and the next chain is taken either way.
    pub open spec fn on_tap_written(self, ok: bool) -> Step {
        Step {
            flow: Flow { phase: Phase::TxChain, ..self },
            out: Ok(seq![Effect::TakeTxChain]),
        }
    }

    /// Whether a frame is in hand: it waits for a buffer, or one has been asked for.
    pub open spec fn has_frame(self) -> bool {
        self.rx.deferred_frame || self.phase is RxChain
    }

    /// Whether the backend takes `input` where it stands.
    pub open spec fn takes(self, input: Input) -> bool {
        match input {
            Input::Device { .. } => self.phase is Idle,
            Input::TapRead(read) => self.phase is TapRead && (read matches TapRead::Frame(count)
                ==> count <= MAX_BUFFER_SIZE),
            Input::RxChain(chain) => self.phase is RxChain && (chain matches Some((_, count))
                ==> count <= self.rx.bytes_read),
            Input::Signalled(_) => self.phase is SignalRx,
            Input::Registered(_) => self.phase is Register,
            Input::TapWritten(_) => self.phase is TapWrite,
            Input::TxChain(chain) => self.phase is TxChain && (chain matches Some((_, count))
                ==> count <= MAX_BUFFER_SIZE && self.used.len() < QUEUE_SIZE),
        }
    }

    /// The step on `input`, in a backend that has guest memory or has none.
    pub open spec fn step(self, input: Input, has_mem: bool) -> Step {
        match input {
            Input::Device { device_event, evset } => self.on_device(device_event, evset, has_mem),
            Input::TapRead(read) => self.on_tap_read(read, has_mem),
            Input::RxChain(chain) => self.on_rx_chain(chain),
            Input::Signalled(ok) => self.on_signalled(ok),
            Input::Registered(ok) => self.on_registered(ok),
            Input::TxChain(chain) => self.on_tx_chain(chain),
            Input::TapWritten(ok) => self.on_tap_written(ok),
        }
    }

    /// What holds between any two steps: no used buffer goes unannounced past the end of an event,
    /// no frame is overwritten while it waits for a buffer, and no chain is kept after transmission.
    pub open spec fn wf(self) -> bool {
        &&& self.rx.bytes_read <= MAX_BUFFER_SIZE
        &&& self.used.len() <= QUEUE_SIZE
        &&& !(self.phase is TxChain || self.phase is TapWrite) ==> self.used.len() == 0
        &&& !(self.phase is TapRead || self.phase is RxChain || self.phase is Failed)
            ==> !self.rx.deferred_irqs
        &&& self.phase is TapRead ==> !self.rx.deferred_frame
        &&& self.phase is Register ==> !self.listening
    }
}

/// Every step keeps what holds between steps.
pub proof fn law_step_keeps_wf(flow: Flow, input: Input, has_mem: bool)
    requires
        flow.wf(),
        flow.takes(input),
    ensures
        flow.step(input, has_mem).flow.wf(),
{
}

/// A frame that was read from the tap device is kept until a buffer is used for it: till then it is
/// in hand, its length stays, and the tap device is not read again.
pub proof fn law_frames_are_not_lost(flow: Flow, input: Input, has_mem: bool)
    requires
        flow.wf(),
        flow.takes(input),
        flow.step(input, has_mem).out is Ok,
    ensures
        ({
            let step = flow.step(input, has_mem);
            let effects = step.out->Ok_0;
            &&& flow.has_frame() && !input.uses_rx_chain() ==> {
                &&& step.flow.has_frame()
                &&& step.flow.rx.bytes_read == flow.rx.bytes_read
                &&& step.flow.phase !is TapRead
                &&& !effects.contains(Effect::ReadTap)
            }
            &&& input is TapRead && input->TapRead_0 is Frame ==> {
                &&& step.flow.has_frame()
                &&& step.flow.rx.bytes_read == input->TapRead_0->Frame_0
                &&& !effects.contains(Effect::ReadTap)
            }
        }),
{
}

/// A frame goes into one buffer, however much of it that one takes: the buffer is returned with what
/// was written to it, the guest is to be told of it, and the next frame is read.
pub proof fn law_frame_goes_into_one_buffer(flow: Flow, head_index: u16, count: nat)
    requires
        flow.wf(),
        flow.takes(Input::RxChain(Some((head_index, count)))),
    ensures
        ({
            let step = flow.on_rx_chain(Some((head_index, count)));
            &&& !step.flow.has_frame()
            &&& step.flow.rx.deferred_irqs
            &&& step.flow.phase is TapRead
            &&& step.out->Ok_0 == seq![
                Effect::AddUsedRx { head_index, written: count as u32 },
                Effect::ReadTap,
            ]
        }),
{
    let step = flow.on_rx_chain(Some((head_index, count)));
    assert(step.out->Ok_0 =~= seq![
        Effect::AddUsedRx { head_index, written: count as u32 },
        Effect::ReadTap,
    ]);
}

/// A buffer that was used is announced: what a step leaves unannounced of it, it notes for the next.
/// Where no step fails, none is left unannounced when an event is over.
pub proof fn law_used_buffers_are_announced(flow: Flow, input: Input, has_mem: bool)
    requires
        flow.wf(),
        flow.takes(input),
        flow.step(input, has_mem).out is Ok,
    ensures
        ({
            let step = flow.step(input, has_mem);
            let effects = step.out->Ok_0;
            &&& flow.rx.deferred_irqs || input.uses_rx_chain() ==> step.flow.rx.deferred_irqs
                || effects.contains(Effect::SignalRx)
            &&& step.flow.phase is Idle ==> !step.flow.rx.deferred_irqs
            &&& effects.contains(Effect::SignalRx) ==> flow.rx.deferred_irqs
                || input.uses_rx_chain()
            &&& effects.contains(Effect::SignalRx) <==> step.flow.phase is SignalRx
        }),
{
    let effects = flow.step(input, has_mem).out->Ok_0;
    assert(effects.len() > 0 ==> effects.contains(effects[0]));
    assert(effects.len() > 1 ==> effects.contains(effects[1]));
}

/// The tap device leaves the event loop only where it is listened to, and enters it only where it
/// is not.
pub proof fn law_listening_alternates(flow: Flow, input: Input, has_mem: bool)
    requires
        flow.wf(),
        flow.takes(input),
        flow.step(input, has_mem).out is Ok,
    ensures
        ({
            let step = flow.step(input, has_mem);
            let effects = step.out->Ok_0;
            &&& effects.contains(Effect::UnregisterTap) ==> flow.listening && !step.flow.listening
            &&& effects.contains(Effect::RegisterTap) <==> step.flow.phase is Register
            &&& step.flow.phase is Register ==> !step.flow.listening
        }),
{
    let effects = flow.step(input, has_mem).out->Ok_0;
    assert(effects.len() > 0 ==> effects.contains(effects[0]));
    assert(effects.len() > 1 ==> effects.contains(effects[1]));
    assert(effects.len() > 2 ==> effects.contains(effects[2]));
}

/// Where reception ends and what it does, from a read of the tap device on, where the tap device
/// holds frames of the lengths `frames` and the receive queue holds `chains`, each with how many
/// bytes of its frame it takes.
pub open spec fn reception(flow: Flow, frames: Seq<usize>, chains: Seq<(u16, nat)>) -> (
    Flow,
    Seq<Effect>,
)
    decreases frames.len(),
{
    if frames.len() == 0 {
        let step = flow.on_tap_read(TapRead::Empty, true);
        (step.flow, step.out->Ok_0)
    } else {
        let read = flow.on_tap_read(TapRead::Frame(frames[0]), true);
        if chains.len() == 0 {
            let step = read.flow.on_rx_chain(None);
            (step.flow, read.out->Ok_0 + step.out->Ok_0)
        } else {
            let step = read.flow.on_rx_chain(Some(chains[0]));
            let rest = reception(step.flow, frames.drop_first(), chains.drop_first());
            (rest.0, read.out->Ok_0 + step.out->Ok_0 + rest.1)
        }
    }
}

/// The effects that put a frame into each of `chains`, each followed by the read of the next frame.
pub open spec fn deliveries(chains: Seq<(u16, nat)>) -> Seq<Effect>
    decreases chains.len(),
{
    if chains.len() == 0 {
        seq![]
    } else {
        seq![
            Effect::TakeRxChain,
            Effect::AddUsedRx { head_index: chains[0].0, written: chains[0].1 as u32 },
            Effect::ReadTap,
        ] + deliveries(chains.drop_first())
    }
}

/// The effects at the end of reception, where a frame is left without a buffer or none is, and where
/// there are used buffers to announce or there are none.
pub open spec fn receiving_ends(flow: Flow, left: bool, irqs: bool) -> Seq<Effect> {
    (if left {
        seq![Effect::TakeRxChain]
    } else {
        seq![]
    }) + (if left && flow.listening {
        seq![Effect::UnregisterTap]
    } else {
        seq![]
    }) + seq![
        if irqs {
            Effect::SignalRx
        } else if flow.phase->TapRead_queue_event && (left || !flow.listening) {
            Effect::RegisterTap
        } else {
            Effect::Return(true)
        },
    ]
}

/// Reception puts the frames that the tap device holds into the chains of the receive queue, in
/// order, one into each, as long as there are both. A frame that is left without a chain waits, the
/// first of them that there is, and the tap device is not listened to any longer. The guest is
/// signalled once, at the end, where a chain was used.
pub proof fn law_reception_delivers_in_order(
    flow: Flow,
    frames: Seq<usize>,
    chains: Seq<(u16, nat)>,
)
    requires
        flow.phase is TapRead,
        !flow.rx.deferred_frame,
    ensures
        ({
            let (end, effects) = reception(flow, frames, chains);
            let left = frames.len() > chains.len();
            let count = if left {
                chains.len()
            } else {
                frames.len()
            };
            &&& effects == deliveries(chains.take(count as int)) + receiving_ends(
                flow,
                left,
                flow.rx.deferred_irqs || count > 0,
            )
            &&& end.rx.deferred_frame == left
            &&& left ==> end.rx.bytes_read == frames[chains.len() as int]
            &&& !end.rx.deferred_irqs
            &&& end.listening == (flow.listening && !left)
        }),
    decreases frames.len(),
{
    let (end, effects) = reception(flow, frames, chains);
    let left = frames.len() > chains.len();
    let count = if left {
        chains.len()
    } else {
        frames.len()
    };
    let irqs = flow.rx.deferred_irqs || count > 0;
    if count == 0 {
        assert(effects =~= deliveries(chains.take(0)) + receiving_ends(flow, left, irqs));
    } else {
        let read = flow.on_tap_read(TapRead::Frame(frames[0]), true);
        let step = read.flow.on_rx_chain(Some(chains[0]));
        law_reception_delivers_in_order(step.flow, frames.drop_first(), chains.drop_first());
        let taken = chains.take(count as int);
        assert(taken.drop_first() =~= chains.drop_first().take(count - 1));
        assert(receiving_ends(step.flow, left, true) =~= receiving_ends(flow, left, irqs));
        assert(effects =~= deliveries(taken) + receiving_ends(flow, left, irqs));
    }
}

/// Where transmission ends and what it does, where `chains` are taken off the transmit queue, one
/// after the other, from `flow` on, each write to the tap device comes out as `written` says, and
/// then the queue is empty.
pub open spec fn transmission(flow: Flow, chains: Seq<(u16, nat)>, written: Seq<bool>) -> (
    Flow,
    Seq<Effect>,
)
    decreases chains.len(),
{
    if chains.len() == 0 {
        let step = flow.on_tx_chain(None);
        (step.flow, step.out->Ok_0)
    } else {
        let send = flow.on_tx_chain(Some(chains[0]));
        let step = send.flow.on_tap_written(written[0]);
        let rest = transmission(step.flow, chains.drop_first(), written.drop_first());
        (rest.0, send.out->Ok_0 + step.out->Ok_0 + rest.1)
    }
}

/// The effects that send the frames of `chains`, each followed by the request for the next chain.
pub open spec fn sends(chains: Seq<(u16, nat)>) -> Seq<Effect>
    decreases chains.len(),
{
    if chains.len() == 0 {
        seq![]
    } else {
        seq![Effect::WriteTap { len: chains[0].1 as usize }, Effect::TakeTxChain] + sends(
            chains.drop_first(),
        )
    }
}

/// The effects that return the chains `heads`, with nothing written to them.
pub open spec fn returns_of(heads: Seq<u16>) -> Seq<Effect> {
    heads.map_values(|head_index: u16| Effect::AddUsedTx { head_index, written: 0 })
}

proof fn lemma_transmission(flow: Flow, chains: Seq<(u16, nat)>, written: Seq<bool>)
    ensures
        transmission(flow, chains, written).1 == sends(chains) + returns_of(
            flow.used + chains.map_values(|c: (u16, nat)| c.0),
        ) + seq![Effect::SignalTx, Effect::Return(true)],
        transmission(flow, chains, written).0 == (Flow {
            used: Seq::empty(),
            phase: Phase::Idle,
            ..flow
        }),
    decreases chains.len(),
{
    let heads = chains.map_values(|c: (u16, nat)| c.0);
    let end = seq![Effect::SignalTx, Effect::Return(true)];
    if chains.len() == 0 {
        assert(flow.used + heads =~= flow.used);
        assert(transmission(flow, chains, written).1 =~= sends(chains) + returns_of(
            flow.used + heads,
        ) + end);
    } else {
        let send = flow.on_tx_chain(Some(chains[0]));
        let step = send.flow.on_tap_written(written[0]);
        let rest = chains.drop_first();
        lemma_transmission(step.flow, rest, written.drop_first());
        assert(step.flow.used + rest.map_values(|c: (u16, nat)| c.0) =~= flow.used + heads);
        assert(transmission(flow, chains, written).1 =~= sends(chains) + returns_of(
            flow.used + heads,
        ) + end);
    }
}

/// Transmission sends the frame of every chain that the driver made available, in order, and then
/// returns every chain once, in the same order and with nothing written to it, before it signals the
/// guest.
pub proof fn law_transmission_returns_every_chain(
    flow: Flow,
    chains: Seq<(u16, nat)>,
    written: Seq<bool>,
)
    requires
        flow.used.len() == 0,
        written.len() == chains.len(),
    ensures
        transmission(flow, chains, written).1 == sends(chains) + chains.map_values(
            |c: (u16, nat)| Effect::AddUsedTx { head_index: c.0, written: 0 },
        ) + seq![Effect::SignalTx, Effect::Return(true)],
        transmission(flow, chains, written).0.phase is Idle,
        transmission(flow, chains, written).0.used.len() == 0,
{
    lemma_transmission(flow, chains, written);
    assert(returns_of(flow.used + chains.map_values(|c: (u16, nat)| c.0)) =~= chains.map_values(
        |c: (u16, nat)| Effect::AddUsedTx { head_index: c.0, written: 0 },
    ));
}

/// A write to the tap device that fails only drops its frame: transmission does the same and ends
/// the same, whichever of its writes fail.
pub proof fn law_failed_writes_change_nothing(
    flow: Flow,
    chains: Seq<(u16, nat)>,
    written: Seq<bool>,
    others: Seq<bool>,
)
    requires
        written.len() == chains.len(),
        others.len() == chains.len(),
    ensures
        transmission(flow, chains, written) == transmission(flow, chains, others),
{
    lemma_transmission(flow, chains, written);
    lemma_transmission(flow, chains, others);
}

} // verus!
