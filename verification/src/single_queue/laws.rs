//! What the backend does on each event and on each reply, whatever state it is in.
use crate::abi;
use crate::rx::RxState;
use crate::single_queue::backend;
use crate::single_queue::backend::VhostUserNetBackend;
use crate::single_queue::flow::{Effect, Flow, Input, Phase};
use crate::single_queue::Error;
use vstd::prelude::*;

verus! {

/// An event other than readability is declined, and changes nothing.
pub proof fn law_other_readiness_is_declined(
    flow: Flow,
    device_event: u16,
    evset: u32,
    has_mem: bool,
)
    requires
        evset != 1,
    ensures
        flow.on_device(device_event, evset, has_mem).flow == flow,
        flow.on_device(device_event, evset, has_mem).out == Ok::<Seq<Effect>, Error>(
            seq![Effect::Return(false)],
        ),
{
}

/// An event that is none of a queue or of the tap device ends at once, and changes nothing.
pub proof fn law_other_events_do_nothing(flow: Flow, device_event: u16, has_mem: bool)
    requires
        device_event > 2,
    ensures
        flow.on_device(device_event, 1, has_mem).flow == flow,
        flow.on_device(device_event, 1, has_mem).out == Ok::<Seq<Effect>, Error>(
            seq![Effect::Return(true)],
        ),
{
}

/// An event of the transmit queue starts transmission wherever there is guest memory, whatever the
/// state of reception and whether or not the tap device is listened to: a chain is taken, and nothing
/// else changes. Without guest memory it fails.
pub proof fn law_transmit_event_starts_transmission(flow: Flow, has_mem: bool)
    ensures
        ({
            let step = flow.on_device(1, 1, has_mem);
            &&& step.flow.rx == flow.rx
            &&& step.flow.listening == flow.listening
            &&& step.flow.used == flow.used
            &&& has_mem ==> step.flow.phase is TxChain
            &&& has_mem ==> step.out == Ok::<Seq<Effect>, Error>(seq![Effect::TakeTxChain])
            &&& !has_mem ==> step.flow.phase is Failed
            &&& !has_mem ==> step.out == Err::<Seq<Effect>, Error>(Error::NoMemoryForTx)
        }),
{
}

/// An event of the receive queue tries a frame that waits, and never reads the tap device where none
/// does: then it only has the tap device listened to.
pub proof fn law_receive_event_serves_the_waiting_frame(flow: Flow, has_mem: bool)
    ensures
        ({
            let step = flow.on_device(0, 1, has_mem);
            let effects = step.out->Ok_0;
            &&& step.out is Ok
            &&& step.flow.rx.bytes_read == flow.rx.bytes_read
            &&& step.flow.rx.deferred_frame == flow.rx.deferred_frame
            &&& step.flow.listening == flow.listening
            &&& step.flow.used == flow.used
            &&& flow.rx.deferred_frame && has_mem ==> {
                &&& effects == seq![Effect::TakeRxChain]
                &&& step.flow.phase == (Phase::RxChain { queue_event: true })
                &&& step.flow.rx.deferred_irqs == flow.rx.deferred_irqs
            }
            &&& flow.rx.deferred_frame && !has_mem && flow.rx.deferred_irqs ==> {
                &&& effects == seq![Effect::SignalRx]
                &&& step.flow.phase == (Phase::SignalRx { queue_event: true })
                &&& !step.flow.rx.deferred_irqs
            }
            &&& flow.rx.deferred_frame && !has_mem ==> !step.flow.rx.deferred_irqs
            &&& !flow.rx.deferred_frame ==> step.flow.rx.deferred_irqs == flow.rx.deferred_irqs
            &&& (!flow.rx.deferred_frame || (!has_mem && !flow.rx.deferred_irqs)) && flow.listening
                ==> effects == seq![Effect::Return(true)] && step.flow.phase is Idle
            &&& (!flow.rx.deferred_frame || (!has_mem && !flow.rx.deferred_irqs)) && !flow.listening
                ==> effects == seq![Effect::RegisterTap] && step.flow.phase is Register
        }),
{
}

/// An event of the tap device reads it, unless a frame waits, which comes first.
pub proof fn law_tap_event_reads_unless_a_frame_waits(flow: Flow, has_mem: bool)
    ensures
        ({
            let step = flow.on_device(2, 1, has_mem);
            let effects = step.out->Ok_0;
            &&& step.out is Ok
            &&& step.flow.rx.bytes_read == flow.rx.bytes_read
            &&& step.flow.rx.deferred_frame == flow.rx.deferred_frame
            &&& step.flow.listening == flow.listening
            &&& step.flow.used == flow.used
            &&& !flow.rx.deferred_frame ==> {
                &&& effects == seq![Effect::ReadTap]
                &&& step.flow.phase == (Phase::TapRead { queue_event: false })
                &&& step.flow.rx.deferred_irqs == flow.rx.deferred_irqs
            }
            &&& flow.rx.deferred_frame && has_mem ==> {
                &&& effects == seq![Effect::TakeRxChain]
                &&& step.flow.phase == (Phase::RxChain { queue_event: false })
                &&& step.flow.rx.deferred_irqs == flow.rx.deferred_irqs
            }
            &&& flow.rx.deferred_frame && !has_mem ==> {
                &&& !step.flow.rx.deferred_irqs
                &&& flow.rx.deferred_irqs ==> effects == seq![Effect::SignalRx] && step.flow.phase
                    == (Phase::SignalRx { queue_event: false })
                &&& !flow.rx.deferred_irqs ==> effects == seq![Effect::Return(true)]
                    && step.flow.phase is Idle
            }
        }),
{
}

/// A read of `count` bytes makes a frame of `count` bytes: with guest memory a chain is taken for it,
/// without guest memory it waits with that length.
pub proof fn law_read_frame_has_the_length_of_the_read(flow: Flow, count: usize, has_mem: bool)
    requires
        flow.phase is TapRead,
    ensures
        ({
            let step = flow.on_tap_read(abi::tap_read(Ok(count)), has_mem);
            let effects = step.out->Ok_0;
            let queue_event = flow.phase->TapRead_queue_event;
            &&& step.out is Ok
            &&& step.flow.rx.bytes_read == count
            &&& step.flow.listening == flow.listening
            &&& step.flow.used == flow.used
            &&& has_mem ==> {
                &&& effects == seq![Effect::TakeRxChain]
                &&& step.flow.phase == (Phase::RxChain { queue_event })
                &&& step.flow.rx.deferred_irqs == flow.rx.deferred_irqs
                &&& step.flow.rx.deferred_frame == flow.rx.deferred_frame
            }
            &&& !has_mem ==> {
                &&& step.flow.rx.deferred_frame
                &&& !step.flow.rx.deferred_irqs
                &&& flow.rx.deferred_irqs ==> effects == seq![Effect::SignalRx] && step.flow.phase
                    == (Phase::SignalRx { queue_event })
                &&& !flow.rx.deferred_irqs && queue_event && !flow.listening ==> effects == seq![
                    Effect::RegisterTap,
                ] && step.flow.phase is Register
                &&& !flow.rx.deferred_irqs && !(queue_event && !flow.listening) ==> effects == seq![
                    Effect::Return(true),
                ] && step.flow.phase is Idle
            }
        }),
{
    abi::law_read_brings_what_it_reports(count);
}

/// An empty tap device ends reception: the guest is signalled exactly where a used buffer is still to
/// be announced, and the event ends otherwise. Every other error fails the backend.
pub proof fn law_read_error_ends_reception(flow: Flow, errno: Option<i32>, has_mem: bool)
    requires
        flow.phase is TapRead,
    ensures
        ({
            let step = flow.on_tap_read(abi::tap_read(Err(errno)), has_mem);
            let effects = step.out->Ok_0;
            let queue_event = flow.phase->TapRead_queue_event;
            &&& step.flow.rx.bytes_read == flow.rx.bytes_read
            &&& step.flow.rx.deferred_frame == flow.rx.deferred_frame
            &&& step.flow.listening == flow.listening
            &&& step.flow.used == flow.used
            &&& errno != Some(11i32) ==> {
                &&& step.out == Err::<Seq<Effect>, Error>(Error::FailedReadTap)
                &&& step.flow.phase is Failed
                &&& step.flow.rx == flow.rx
            }
            &&& errno == Some(11i32) ==> {
                &&& step.out is Ok
                &&& !step.flow.rx.deferred_irqs
                &&& flow.rx.deferred_irqs ==> effects == seq![Effect::SignalRx] && step.flow.phase
                    == (Phase::SignalRx { queue_event })
                &&& !flow.rx.deferred_irqs && queue_event && !flow.listening ==> effects == seq![
                    Effect::RegisterTap,
                ] && step.flow.phase is Register
                &&& !flow.rx.deferred_irqs && !(queue_event && !flow.listening) ==> effects == seq![
                    Effect::Return(true),
                ] && step.flow.phase is Idle
            }
        }),
{
    abi::law_only_blocking_is_no_failure(errno);
}

/// Without a chain the frame waits with its length and the tap device leaves the event loop where it
/// is in it; then the guest is signalled where a used buffer is to be announced, and otherwise an
/// event of the receive queue has the tap device listened to again.
pub proof fn law_frame_waits_without_a_chain(flow: Flow)
    requires
        flow.phase is RxChain,
    ensures
        ({
            let step = flow.on_rx_chain(None);
            let effects = step.out->Ok_0;
            let queue_event = flow.phase->RxChain_queue_event;
            &&& step.out is Ok
            &&& step.flow.rx.deferred_frame
            &&& !step.flow.rx.deferred_irqs
            &&& step.flow.rx.bytes_read == flow.rx.bytes_read
            &&& !step.flow.listening
            &&& step.flow.used == flow.used
            &&& effects.len() == if flow.listening {
                2nat
            } else {
                1
            }
            &&& flow.listening ==> effects[0] == Effect::UnregisterTap
            &&& effects.last() == if flow.rx.deferred_irqs {
                Effect::SignalRx
            } else if queue_event {
                Effect::RegisterTap
            } else {
                Effect::Return(true)
            }
            &&& step.flow.phase == if flow.rx.deferred_irqs {
                Phase::SignalRx { queue_event }
            } else if queue_event {
                Phase::Register
            } else {
                Phase::Idle
            }
        }),
{
}

/// A chain is returned with exactly the bytes that it took, whatever their number, and the next frame
/// is read for the same event; the buffer is to be announced, and the frame waits no longer.
pub proof fn law_chain_is_returned_with_what_it_took(flow: Flow, head_index: u16, count: u32)
    requires
        flow.phase is RxChain,
    ensures
        ({
            let step = flow.on_rx_chain(Some((head_index, count as nat)));
            &&& step.out is Ok
            &&& step.out->Ok_0 == seq![
                Effect::AddUsedRx { head_index, written: count },
                Effect::ReadTap,
            ]
            &&& step.flow.phase == (Phase::TapRead {
                queue_event: flow.phase->RxChain_queue_event,
            })
            &&& step.flow.rx == (RxState {
                deferred_frame: false,
                deferred_irqs: true,
                bytes_read: flow.rx.bytes_read,
            })
            &&& step.flow.listening == flow.listening
            &&& step.flow.used == flow.used
        }),
{
    let step = flow.on_rx_chain(Some((head_index, count as nat)));
    assert(step.out->Ok_0 =~= seq![
        Effect::AddUsedRx { head_index, written: count },
        Effect::ReadTap,
    ]);
}

/// A signal that fails fails the backend, and one that is given ends the event: one of the receive
/// queue has the tap device listened to where it is not.
pub proof fn law_signal_ends_the_event(flow: Flow, ok: bool)
    requires
        flow.phase is SignalRx,
    ensures
        ({
            let step = flow.on_signalled(ok);
            let register = flow.phase->SignalRx_queue_event && !flow.listening;
            &&& step.flow.rx == flow.rx
            &&& step.flow.listening == flow.listening
            &&& step.flow.used == flow.used
            &&& !ok ==> {
                &&& step.out == Err::<Seq<Effect>, Error>(Error::FailedSignalingUsedQueue)
                &&& step.flow.phase is Failed
            }
            &&& ok && register ==> {
                &&& step.out == Ok::<Seq<Effect>, Error>(seq![Effect::RegisterTap])
                &&& step.flow.phase is Register
            }
            &&& ok && !register ==> {
                &&& step.out == Ok::<Seq<Effect>, Error>(seq![Effect::Return(true)])
                &&& step.flow.phase is Idle
            }
        }),
{
}

/// The tap device is listened to exactly where its registration was made, and the event ends with
/// the error of one that was not.
pub proof fn law_registration_decides_listening(flow: Flow, ok: bool)
    ensures
        ({
            let step = flow.on_registered(ok);
            &&& step.flow.listening == ok
            &&& step.flow.rx == flow.rx
            &&& step.flow.used == flow.used
            &&& step.flow.phase is Idle
            &&& ok ==> step.out == Ok::<Seq<Effect>, Error>(seq![Effect::Return(true)])
            &&& !ok ==> step.out == Ok::<Seq<Effect>, Error>(seq![Effect::ReturnError])
        }),
{
}

/// A chain of the transmit queue has its frame sent in full, and is kept behind those before it.
pub proof fn law_transmitted_frame_is_sent_in_full(flow: Flow, head_index: u16, count: usize)
    ensures
        ({
            let step = flow.on_tx_chain(Some((head_index, count as nat)));
            &&& step.out == Ok::<Seq<Effect>, Error>(seq![Effect::WriteTap { len: count }])
            &&& step.flow.used == flow.used.push(head_index)
            &&& step.flow.phase is TapWrite
            &&& step.flow.rx == flow.rx
            &&& step.flow.listening == flow.listening
        }),
{
}

/// An empty transmit queue has every chain that is kept returned, each once, in order and with
/// nothing written to it, then the guest signalled, and then the event ended.
pub proof fn law_empty_transmit_queue_returns_the_chains(flow: Flow)
    ensures
        ({
            let step = flow.on_tx_chain(None);
            let effects = step.out->Ok_0;
            let n = flow.used.len() as int;
            &&& step.out is Ok
            &&& effects.len() == n + 2
            &&& forall|i: int|
                0 <= i < n ==> #[trigger] effects[i] == (Effect::AddUsedTx {
                    head_index: flow.used[i],
                    written: 0,
                })
            &&& effects[n] == Effect::SignalTx
            &&& effects[n + 1] == Effect::Return(true)
            &&& step.flow.used.len() == 0
            &&& step.flow.phase is Idle
            &&& step.flow.rx == flow.rx
            &&& step.flow.listening == flow.listening
        }),
{
}

/// Behind a write to the tap device the next chain is taken, whether or not the write was made.
pub proof fn law_write_is_followed_by_the_next_chain(flow: Flow, ok: bool)
    ensures
        ({
            let step = flow.on_tap_written(ok);
            &&& step.out == Ok::<Seq<Effect>, Error>(seq![Effect::TakeTxChain])
            &&& step.flow.phase is TxChain
            &&& step.flow.used == flow.used
            &&& step.flow.rx == flow.rx
            &&& step.flow.listening == flow.listening
        }),
{
}

/// Every reply leads to the step that belongs to it, with what it brought.
pub proof fn law_inputs_reach_their_steps(
    flow: Flow,
    has_mem: bool,
    device_event: u16,
    evset: u32,
    read: abi::TapRead,
    chain: Option<(u16, nat)>,
    ok: bool,
)
    ensures
        flow.step(Input::Device { device_event, evset }, has_mem) == flow.on_device(
            device_event,
            evset,
            has_mem,
        ),
        flow.step(Input::TapRead(read), has_mem) == flow.on_tap_read(read, has_mem),
        flow.step(Input::RxChain(chain), has_mem) == flow.on_rx_chain(chain),
        flow.step(Input::Signalled(ok), has_mem) == flow.on_signalled(ok),
        flow.step(Input::Registered(ok), has_mem) == flow.on_registered(ok),
        flow.step(Input::TxChain(chain), has_mem) == flow.on_tx_chain(chain),
        flow.step(Input::TapWritten(ok), has_mem) == flow.on_tap_written(ok),
{
}

/// A backend takes every reply that it has asked for: reads of up to 65562 bytes or with any error,
/// any chain that takes no more than the frame has, and 256 chains of the transmit queue.
pub proof fn law_replies_are_taken(
    flow: Flow,
    outcome: Result<usize, Option<i32>>,
    head_index: u16,
    count: nat,
    ok: bool,
)
    ensures
        flow.phase is TapRead && (outcome matches Ok(n) ==> n <= 65562) ==> flow.takes(
            Input::TapRead(abi::tap_read(outcome)),
        ),
        flow.phase is RxChain ==> flow.takes(Input::RxChain(None)),
        flow.phase is RxChain && count <= flow.rx.bytes_read ==> flow.takes(
            Input::RxChain(Some((head_index, count))),
        ),
        flow.phase is SignalRx ==> flow.takes(Input::Signalled(ok)),
        flow.phase is Register ==> flow.takes(Input::Registered(ok)),
        flow.phase is TxChain ==> flow.takes(Input::TxChain(None)),
        flow.phase is TxChain && count <= 65562 && flow.used.len() < 256 ==> flow.takes(
            Input::TxChain(Some((head_index, count))),
        ),
        flow.phase is TapWrite ==> flow.takes(Input::TapWritten(ok)),
{
    if let Ok(n) = outcome {
        abi::law_read_brings_what_it_reports(n);
    }
}

/// An idle backend takes every event, with any frame waiting, listened to or not.
pub proof fn law_events_are_taken(flow: Flow, device_event: u16, evset: u32)
    requires
        flow.phase is Idle,
        flow.rx.bytes_read <= 65562,
        !flow.rx.deferred_irqs,
        flow.used.len() == 0,
    ensures
        flow.wf(),
        flow.takes(Input::Device { device_event, evset }),
{
}

/// The decisions of a backend rest on what it holds, as it is.
pub proof fn law_decisions_rest_on_the_backend(backend: VhostUserNetBackend)
    ensures
        backend.flow().rx == backend.rx.state,
        backend.flow().listening == backend.rx_tap_listening,
        backend.flow().phase == backend.phase,
        backend.flow().used == backend.used_desc_heads@,
{
}

/// A backend whose order of work is kept, with guest memory and frame buffers in full, is one that
/// takes calls.
pub proof fn law_backend_is_ready(backend: VhostUserNetBackend)
    requires
        backend.flow().wf(),
        backend.mem is Some || backend.phase is Idle,
        backend.rx.frame_buf@.len() == 65562,
        backend.tx.frame_buf@.len() == 65562,
    ensures
        backend.wf(),
{
}

/// Backends with the same devices have the same descriptors, the same frame under way and the same
/// buffers noted.
pub proof fn law_same_devices_are_the_same(a: VhostUserNetBackend, b: VhostUserNetBackend)
    requires
        a.same_devices(b),
    ensures
        a.kill_evt == b.kill_evt,
        a.tap == b.tap,
        a.epoll_fd == b.epoll_fd,
        a.rx.frame_buf@ == b.rx.frame_buf@,
        a.tx.iovec@ == b.tx.iovec@,
{
}

/// What a call asks for is what it returns, effect by effect, or its error.
pub proof fn law_calls_ask_for_what_they_return(r: Result<Vec<Effect>, Error>)
    ensures
        r matches Ok(effects) ==> backend::asked(r) == Ok::<Seq<Effect>, Error>(effects@),
        r matches Err(e) ==> backend::asked(r) == Err::<Seq<Effect>, Error>(e),
{
}

} // verus!
