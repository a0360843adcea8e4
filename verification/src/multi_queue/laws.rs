//! What a worker does on each event and on each reply, whatever state it is in.
use crate::abi;
use crate::multi_queue::flow;
use crate::multi_queue::flow::{Effect, Fault, Flow, Input, Phase, Placing, Wait};
use crate::multi_queue::worker::{NetEpollHandler, WaitOutcome};
use crate::rx::RxState;
use vstd::prelude::*;

verus! {

/// What an event is, by the sixteen low bits of what is reported: those below the number of queues
/// are the vrings, the even ones for reception; behind them come the tap device, the reset event and,
/// with the next code, the kill event, in this order where codes meet.
pub proof fn law_events_are_what_their_codes_say(num_queues: usize, tap_index: usize, data: u64)
    ensures
        ({
            let x = data as int % 0x1_0000;
            let queues = num_queues as int % 0x1_0000;
            let tap = tap_index as int % 0x1_0000;
            let reset = (num_queues + num_queues / 2) % 0x1_0000;
            let event = flow::event_of(num_queues, tap_index, data);
            &&& event is Rx <==> x < queues && x % 2 == 0
            &&& event is Tx <==> x < queues && x % 2 == 1
            &&& event is Tap <==> x >= queues && x == tap
            &&& event is Reset <==> x >= queues && x != tap && x == reset
            &&& event is Kill <==> x >= queues && x != tap && x == reset + 1
            &&& event is Unknown <==> x >= queues && x != tap && x != reset && x != reset + 1
        }),
{
}

/// The code of the reset event is the number of queues and of queue pairs together, by its low bits,
/// and there is one for the kill event where the next number still fits.
pub proof fn law_reset_code_is_behind_the_taps(num_queues: usize)
    ensures
        flow::reset_index(num_queues) == (num_queues + num_queues / 2) % 0x1_0000,
        flow::codes_fit(num_queues) <==> num_queues + num_queues / 2 <= usize::MAX && (num_queues
            + num_queues / 2) % 0x1_0000 < 0xffff,
{
}

/// Events are in reach exactly where every kick that the worker comes to is of its first or second
/// vring: it comes to all that are not behind a kill event or an unknown one.
#[verifier::rlimit(60)]
pub proof fn law_reach_is_that_of_every_kick(num_queues: usize, tap_index: usize, events: Seq<u64>)
    ensures
        flow::in_reach(num_queues, tap_index, events) <==> forall|k: int|
            0 <= k < events.len() && (flow::event_of(num_queues, tap_index, #[trigger] events[k]) is Rx
                || flow::event_of(num_queues, tap_index, events[k]) is Tx) && (forall|j: int|
                0 <= j < k ==> !(flow::event_of(num_queues, tap_index, #[trigger] events[j]) is Kill
                    || flow::event_of(num_queues, tap_index, events[j]) is Unknown))
                ==> events[k] as int % 0x1_0000 < 2,
    decreases events.len(),
{
    if events.len() > 0 {
        let rest = events.drop_first();
        let first = flow::event_of(num_queues, tap_index, events[0]);
        law_reach_is_that_of_every_kick(num_queues, tap_index, rest);
        assert forall|i: int| 0 <= i < rest.len() implies #[trigger] rest[i] == events[i + 1] by {
        }
        if !(first is Kill || first is Unknown) {
            if flow::in_reach(num_queues, tap_index, events) {
                assert forall|k: int|
                    0 <= k < events.len() && (flow::event_of(
                        num_queues,
                        tap_index,
                        #[trigger] events[k],
                    ) is Rx || flow::event_of(num_queues, tap_index, events[k]) is Tx) && (forall|
                        j: int,
                    |
                        0 <= j < k ==> !(flow::event_of(
                            num_queues,
                            tap_index,
                            #[trigger] events[j],
                        ) is Kill || flow::event_of(
                            num_queues,
                            tap_index,
                            events[j],
                        ) is Unknown)) implies events[k] as int % 0x1_0000 < 2 by {
                    if k > 0 {
                        assert(rest[k - 1] == events[k]);
                        assert forall|j: int| 0 <= j < k - 1 implies !(flow::event_of(
                            num_queues,
                            tap_index,
                            #[trigger] rest[j],
                        ) is Kill || flow::event_of(
                            num_queues,
                            tap_index,
                            rest[j],
                        ) is Unknown) by {
                            assert(rest[j] == events[j + 1]);
                        }
                    }
                }
            } else {
                if (first is Rx || first is Tx) && flow::code(events[0] as int) >= 2 {
                    assert(!(events[0] as int % 0x1_0000 < 2));
                } else {
                    let k = choose|k: int|
                        0 <= k < rest.len() && (flow::event_of(
                            num_queues,
                            tap_index,
                            #[trigger] rest[k],
                        ) is Rx || flow::event_of(num_queues, tap_index, rest[k]) is Tx) && (forall|
                            j: int,
                        |
                            0 <= j < k ==> !(flow::event_of(
                                num_queues,
                                tap_index,
                                #[trigger] rest[j],
                            ) is Kill || flow::event_of(
                                num_queues,
                                tap_index,
                                rest[j],
                            ) is Unknown)) && !(rest[k] as int % 0x1_0000 < 2);
                    assert(events[k + 1] == rest[k]);
                    assert forall|j: int| 0 <= j < k + 1 implies !(flow::event_of(
                        num_queues,
                        tap_index,
                        #[trigger] events[j],
                    ) is Kill || flow::event_of(num_queues, tap_index, events[j]) is Unknown) by {
                        if j > 0 {
                            assert(rest[j - 1] == events[j]);
                        }
                    }
                }
            }
        }
    }
}

/// A worker starts with nothing read, nothing pending, no guest memory and nothing listened to, and
/// with the number of queues and the code of the tap device that it was given.
pub proof fn law_worker_starts_with_nothing(num_queues: usize, tap_index: usize)
    ensures
        ({
            let step = Flow::start(num_queues, tap_index);
            &&& step.flow.rx == (RxState {
                deferred_frame: false,
                deferred_irqs: false,
                bytes_read: 0,
            })
            &&& !step.flow.listening
            &&& !step.flow.has_mem
            &&& step.flow.pending.len() == 0
            &&& step.flow.num_queues == num_queues
            &&& step.flow.tap_index == tap_index
            &&& step.flow.phase is RegisterReset
            &&& step.effects == seq![
                Effect::RegisterReset {
                    data: ((num_queues + num_queues / 2) % 0x1_0000) as u64,
                },
            ]
        }),
{
}

/// Whether two workers differ at most in what they wait for and in the events that are to be handled.
pub open spec fn same_but_for_events(a: Flow, b: Flow) -> bool {
    &&& a.rx == b.rx
    &&& a.listening == b.listening
    &&& a.has_mem == b.has_mem
    &&& a.num_queues == b.num_queues
    &&& a.tap_index == b.tap_index
}

/// The next event is the first that is pending, and is taken off; nothing else changes. A vring is
/// checked, the tap device is read unless a frame waits, a reset is read, the kill event stops the
/// worker and an unknown event fails it. Where none is pending the worker waits.
pub proof fn law_next_event_is_the_first_pending(flow: Flow)
    ensures
        ({
            let step = flow.next();
            let event = flow::event_of(flow.num_queues, flow.tap_index, flow.pending[0]);
            &&& same_but_for_events(step.flow, flow)
            &&& flow.pending.len() == 0 ==> {
                &&& step.flow.pending == flow.pending
                &&& step.flow.phase is Wait
                &&& step.effects == seq![Effect::Wait]
            }
            &&& flow.pending.len() > 0 ==> {
                &&& step.flow.pending == flow.pending.drop_first()
                &&& event is Rx || event is Tx ==> {
                    &&& step.flow.phase == (Phase::Vring { rx: event is Rx })
                    &&& step.effects == seq![
                        Effect::CheckVring { vring: (flow.pending[0] % 0x1_0000) as usize },
                    ]
                }
                &&& event is Tap && !flow.rx.deferred_frame ==> {
                    &&& step.flow.phase == (Phase::TapRead { queue_event: false })
                    &&& step.effects == seq![Effect::ReadTap]
                }
                &&& event is Tap && flow.rx.deferred_frame && flow.has_mem ==> {
                    &&& step.flow.phase == (Phase::Frame { queue_event: false })
                    &&& step.effects == seq![
                        Effect::PlaceFrame { bytes_read: flow.rx.bytes_read },
                    ]
                }
                &&& event is Tap && flow.rx.deferred_frame && !flow.has_mem ==> {
                    &&& step.flow.phase is Ended
                    &&& step.effects == seq![Effect::Fail(Fault::NoMemory)]
                }
                &&& event is Reset ==> {
                    &&& step.flow.phase is Reset
                    &&& step.effects == seq![Effect::ReadReset]
                }
                &&& event is Kill ==> {
                    &&& step.flow.phase is Ended
                    &&& step.effects == seq![Effect::Stop]
                }
                &&& event is Unknown ==> {
                    &&& step.flow.phase is Ended
                    &&& step.effects == seq![Effect::Fail(Fault::UnknownEvent)]
                }
            }
        }),
{
}

/// The end of reception gives the signal that is due before anything else, and then an event of the
/// receive vring asks for a tap device that is not listened to; otherwise the next event follows.
pub proof fn law_reception_ends_with_what_is_due(flow: Flow, signal: bool, queue_event: bool)
    ensures
        ({
            let step = flow.finish_rx(signal, queue_event);
            let signals = if signal {
                1int
            } else {
                0
            };
            &&& step.effects.len() == signals + 1
            &&& signal ==> step.effects[0] == Effect::SignalRx
            &&& queue_event && !flow.listening ==> {
                &&& step.effects.last() == (Effect::RegisterTap { data: flow.tap_index as u64 })
                &&& step.flow.phase is RegisterTap
                &&& same_but_for_events(step.flow, flow)
                &&& step.flow.pending == flow.pending
            }
            &&& !(queue_event && !flow.listening) ==> {
                &&& step.effects.last() == flow.next().effects[0]
                &&& step.flow == flow.next().flow
            }
        }),
{
    law_next_event_is_the_first_pending(flow);
    let step = flow.finish_rx(signal, queue_event);
    assert(flow.next().effects.len() == 1);
}

/// A registration that was made leads from the reset event to the kill event, from there to the wait,
/// and makes the tap device listened to before the next event; one that was refused ends the worker
/// and changes nothing else.
pub proof fn law_registrations_lead_on(flow: Flow, ok: bool)
    requires
        flow.phase is RegisterReset || flow.phase is RegisterKill || flow.phase is RegisterTap,
    ensures
        ({
            let step = flow.on_registered(ok);
            &&& !ok ==> {
                &&& step.effects == seq![Effect::FailRegister]
                &&& step.flow.phase is Ended
                &&& same_but_for_events(step.flow, flow)
                &&& step.flow.pending == flow.pending
            }
            &&& ok && flow.phase is RegisterReset ==> {
                &&& step.effects == seq![
                    Effect::RegisterKill {
                        data: ((flow.num_queues + flow.num_queues / 2) % 0x1_0000 + 1) as u64,
                    },
                ]
                &&& step.flow.phase is RegisterKill
                &&& same_but_for_events(step.flow, flow)
                &&& step.flow.pending == flow.pending
            }
            &&& ok && flow.phase is RegisterKill ==> {
                &&& step.effects == seq![Effect::Wait]
                &&& step.flow.phase is Wait
                &&& same_but_for_events(step.flow, flow)
                &&& step.flow.pending == flow.pending
            }
            &&& ok && flow.phase is RegisterTap ==> {
                &&& step.flow.listening
                &&& step == (Flow { listening: true, ..flow }).next()
            }
        }),
{
    law_next_event_is_the_first_pending(Flow { listening: true, ..flow });
}

/// A wait hands over its events in the order in which they came; one that was interrupted is repeated
/// and changes nothing; one that failed ends the worker.
pub proof fn law_wait_hands_over_its_events(flow: Flow, events: Seq<u64>)
    ensures
        flow.on_waited(Wait::Events(events)) == (Flow { pending: events, ..flow }).next(),
        flow.on_waited(Wait::Interrupted).effects == seq![Effect::Wait],
        flow.on_waited(Wait::Interrupted).flow == (Flow { phase: Phase::Wait, ..flow }),
        flow.on_waited(Wait::Failed).effects == seq![Effect::FailWait],
        flow.on_waited(Wait::Failed).flow == (Flow { phase: Phase::Ended, ..flow }),
{
}

/// A kick that could not be read ends the worker, and one of a vring that is not enabled is passed
/// over.
pub proof fn law_kicks_that_are_not_served(flow: Flow)
    ensures
        flow.on_vring(None).effects == seq![Effect::Fail(Fault::ReadKick)],
        flow.on_vring(None).flow == (Flow { phase: Phase::Ended, ..flow }),
        flow.on_vring(Some(false)) == flow.next(),
{
}

/// A kick of the transmit vring transmits wherever there is guest memory, whatever the state of
/// reception, and then the next event follows; without guest memory it ends the worker.
pub proof fn law_transmit_kick_transmits(flow: Flow)
    requires
        flow.phase == (Phase::Vring { rx: false }),
    ensures
        ({
            let step = flow.on_vring(Some(true));
            &&& flow.has_mem ==> {
                &&& step.effects == seq![Effect::ProcessTx, flow.next().effects[0]]
                &&& step.flow == flow.next().flow
            }
            &&& !flow.has_mem ==> {
                &&& step.effects == seq![Effect::Fail(Fault::NoMemory)]
                &&& step.flow == (Flow { phase: Phase::Ended, ..flow })
            }
        }),
{
    law_next_event_is_the_first_pending(flow);
    assert(flow.next().effects.len() == 1);
    if flow.has_mem {
        assert(flow.on_vring(Some(true)).effects =~= seq![
            Effect::ProcessTx,
            flow.next().effects[0],
        ]);
    }
}

/// A kick of the receive vring tries a frame that waits, and does not read the tap device where none
/// does: then the tap device is only listened to again. A frame without guest memory ends the worker.
pub proof fn law_receive_kick_serves_the_waiting_frame(flow: Flow)
    requires
        flow.phase == (Phase::Vring { rx: true }),
    ensures
        ({
            let step = flow.on_vring(Some(true));
            &&& flow.rx.deferred_frame && flow.has_mem ==> {
                &&& step.effects == seq![Effect::PlaceFrame { bytes_read: flow.rx.bytes_read }]
                &&& step.flow == (Flow { phase: Phase::Frame { queue_event: true }, ..flow })
            }
            &&& flow.rx.deferred_frame && !flow.has_mem ==> {
                &&& step.effects == seq![Effect::Fail(Fault::NoMemory)]
                &&& step.flow == (Flow { phase: Phase::Ended, ..flow })
            }
            &&& !flow.rx.deferred_frame && !flow.listening ==> {
                &&& step.effects == seq![Effect::RegisterTap { data: flow.tap_index as u64 }]
                &&& step.flow == (Flow { phase: Phase::RegisterTap, ..flow })
            }
            &&& !flow.rx.deferred_frame && flow.listening ==> {
                &&& step.effects == seq![flow.next().effects[0]]
                &&& step.flow == flow.next().flow
            }
        }),
{
    law_next_event_is_the_first_pending(flow);
    law_reception_ends_with_what_is_due(flow, false, true);
    let step = flow.on_vring(Some(true));
    if !flow.rx.deferred_frame {
        assert(step.effects =~= seq![step.effects.last()]);
    }
}

/// A read of `count` bytes makes a frame of `count` bytes, all of which is to be placed; without guest
/// memory it ends the worker.
pub proof fn law_read_frame_has_the_length_of_the_read(flow: Flow, count: usize)
    requires
        flow.phase is TapRead,
    ensures
        ({
            let step = flow.on_tap_read(abi::tap_read(Ok(count)));
            &&& step.flow.rx == (RxState { bytes_read: count, ..flow.rx })
            &&& step.flow.listening == flow.listening
            &&& step.flow.has_mem == flow.has_mem
            &&& step.flow.num_queues == flow.num_queues
            &&& step.flow.tap_index == flow.tap_index
            &&& step.flow.pending == flow.pending
            &&& flow.has_mem ==> {
                &&& step.effects == seq![Effect::PlaceFrame { bytes_read: count }]
                &&& step.flow.phase == (Phase::Frame {
                    queue_event: flow.phase->TapRead_queue_event,
                })
            }
            &&& !flow.has_mem ==> {
                &&& step.effects == seq![Effect::Fail(Fault::NoMemory)]
                &&& step.flow.phase is Ended
            }
        }),
{
    abi::law_read_brings_what_it_reports(count);
}

/// An empty tap device ends reception with the signal that is due, and every other error ends the
/// worker.
pub proof fn law_read_error_ends_reception(flow: Flow, errno: Option<i32>)
    requires
        flow.phase is TapRead,
    ensures
        ({
            let step = flow.on_tap_read(abi::tap_read(Err(errno)));
            let announced = Flow { rx: RxState { deferred_irqs: false, ..flow.rx }, ..flow };
            &&& errno != Some(11i32) ==> {
                &&& step.effects == seq![Effect::Fail(Fault::ReadTap)]
                &&& step.flow == (Flow { phase: Phase::Ended, ..flow })
            }
            &&& errno == Some(11i32) ==> step == announced.finish_rx(
                flow.rx.deferred_irqs,
                flow.phase->TapRead_queue_event,
            )
        }),
{
    abi::law_only_blocking_is_no_failure(errno);
}

/// Without a chain the frame waits with its length, the tap device leaves the event loop where it is
/// in it, and reception ends with the signal that is due.
pub proof fn law_frame_waits_without_a_chain(flow: Flow)
    requires
        flow.phase is Frame,
    ensures
        ({
            let step = flow.on_frame(Placing::NoChain);
            let waits = Flow {
                rx: RxState { deferred_frame: true, deferred_irqs: false, ..flow.rx },
                listening: false,
                ..flow
            };
            let rest = waits.finish_rx(flow.rx.deferred_irqs, flow.phase->Frame_queue_event);
            &&& step.flow == rest.flow
            &&& flow.listening ==> step.effects == seq![
                Effect::UnregisterTap { data: flow.tap_index as u64 },
            ] + rest.effects
            &&& !flow.listening ==> step.effects == rest.effects
        }),
{
    let waits = Flow {
        rx: RxState { deferred_frame: true, deferred_irqs: false, ..flow.rx },
        listening: false,
        ..flow
    };
    let rest = waits.finish_rx(flow.rx.deferred_irqs, flow.phase->Frame_queue_event);
    assert(Seq::<Effect>::empty() + rest.effects =~= rest.effects);
}

/// A frame that is reported complete is done with, and the next one is read; one that is not waits
/// with its length, and reception ends. What is to be announced is what the placing reports.
pub proof fn law_placing_decides_whether_the_frame_waits(flow: Flow, complete: bool, irqs: bool)
    requires
        flow.phase is Frame,
    ensures
        ({
            let step = flow.on_frame(Placing::Chain { complete, irqs });
            let queue_event = flow.phase->Frame_queue_event;
            &&& complete ==> {
                &&& step.effects == seq![Effect::ReadTap]
                &&& step.flow == (Flow {
                    rx: RxState {
                        deferred_frame: false,
                        deferred_irqs: irqs,
                        bytes_read: flow.rx.bytes_read,
                    },
                    phase: Phase::TapRead { queue_event },
                    ..flow
                })
            }
            &&& !complete ==> step == (Flow {
                rx: RxState {
                    deferred_frame: true,
                    deferred_irqs: false,
                    bytes_read: flow.rx.bytes_read,
                },
                ..flow
            }).finish_rx(irqs, queue_event)
        }),
{
}

/// After a reset the worker has guest memory exactly where the reset says that it is configured,
/// whatever it had before, and the next event follows; a reset that could not be read ends it.
pub proof fn law_reset_decides_guest_memory(flow: Flow, configured: bool)
    ensures
        flow.on_reset(Some(configured)).flow.has_mem == configured,
        flow.on_reset(Some(configured)).flow.rx == flow.rx,
        flow.on_reset(Some(configured)).flow.listening == flow.listening,
        flow.on_reset(Some(configured)) == (Flow { has_mem: configured, ..flow }).next(),
        flow.on_reset(None).effects == seq![Effect::Fail(Fault::ReadWorkerReset)],
        flow.on_reset(None).flow == (Flow { phase: Phase::Ended, ..flow }),
{
    law_next_event_is_the_first_pending(Flow { has_mem: configured, ..flow });
}

/// Resets do not add up: behind two of them a worker has guest memory as the second says.
pub proof fn law_last_reset_decides(flow: Flow, first: bool, second: bool)
    ensures
        flow.on_reset(Some(first)).flow.on_reset(Some(second)).flow.has_mem == second,
{
    law_reset_decides_guest_memory(flow, first);
    law_reset_decides_guest_memory(flow.on_reset(Some(first)).flow, second);
}

/// Every reply leads to the step that belongs to it, with what it brought.
pub proof fn law_inputs_reach_their_steps(
    flow: Flow,
    wait: Wait,
    told: Option<bool>,
    read: abi::TapRead,
    placing: Placing,
    ok: bool,
)
    ensures
        flow.step(Input::Registered(ok)) == flow.on_registered(ok),
        flow.step(Input::Waited(wait)) == flow.on_waited(wait),
        flow.step(Input::Vring(told)) == flow.on_vring(told),
        flow.step(Input::TapRead(read)) == flow.on_tap_read(read),
        flow.step(Input::Frame(placing)) == flow.on_frame(placing),
        flow.step(Input::Reset(told)) == flow.on_reset(told),
{
}

/// A worker takes every reply that it has asked for.
pub proof fn law_replies_are_taken(
    flow: Flow,
    wait: Wait,
    told: Option<bool>,
    read: abi::TapRead,
    placing: Placing,
    ok: bool,
)
    ensures
        flow.phase is RegisterReset || flow.phase is RegisterKill || flow.phase is RegisterTap
            ==> flow.takes(Input::Registered(ok)),
        flow.phase is Wait && (wait matches Wait::Events(events) ==> flow::in_reach(
            flow.num_queues,
            flow.tap_index,
            events,
        )) ==> flow.takes(Input::Waited(wait)),
        flow.phase is Vring ==> flow.takes(Input::Vring(told)),
        flow.phase is TapRead ==> flow.takes(Input::TapRead(read)),
        flow.phase is Frame ==> flow.takes(Input::Frame(placing)),
        flow.phase is Reset ==> flow.takes(Input::Reset(told)),
{
}

/// A worker that waits keeps what holds between steps with any frame waiting, listened to or not, and
/// with guest memory or without.
pub proof fn law_waiting_worker_is_well(flow: Flow)
    requires
        flow.phase is Wait,
        flow::codes_fit(flow.num_queues),
        flow.pending.len() == 0,
        !flow.rx.deferred_irqs,
    ensures
        flow.wf(),
{
}

/// The decisions of a worker rest on what it holds, as it is, and on how its wait ended, as it did.
pub proof fn law_decisions_rest_on_the_worker(worker: NetEpollHandler, outcome: WaitOutcome)
    ensures
        worker.flow().rx == worker.rx,
        worker.flow().listening == worker.rx_tap_listening,
        worker.flow().phase == worker.phase,
        worker.flow().has_mem == worker.has_mem,
        worker.flow().pending == worker.pending@,
        worker.flow().num_queues == worker.num_queues,
        worker.flow().tap_index == worker.tap_index,
        outcome matches WaitOutcome::Events(events) ==> outcome.view() == Wait::Events(events@),
        outcome is Interrupted <==> outcome.view() is Interrupted,
        outcome is Failed <==> outcome.view() is Failed,
{
}

/// Every fault has its own error.
pub proof fn law_faults_have_their_errors(fault: Fault)
    ensures
        fault is ReadTap <==> fault.told() is FailedReadTap,
        fault is ReadKick <==> fault.told() is HandleEventReadKick,
        fault is ReadWorkerReset <==> fault.told() is FailedReadWorkerReset,
        fault is UnknownEvent <==> fault.told() is HandleEventUnknownEvent,
        fault is NoMemory <==> fault.told() is NoMemoryConfigured,
{
}

} // verus!
