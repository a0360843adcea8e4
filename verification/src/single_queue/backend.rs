//! What the backend does on each event, and on what came of the work that it asked for.
//!
//! Each call says in effects what is to be done, in order. The last effect is either a request,
//! whose reply goes to the method that belongs to it, or the end of the event.
use crate::abi;
use crate::abi::{Interest, TapRead};
use crate::guest;
use crate::guest::DescriptorChain;
use crate::ipv4::Ipv4Addr;
use crate::rx;
use crate::rx::{RxNext, RxState, RxVirtio, MAX_BUFFER_SIZE};
use crate::single_queue::flow;
use crate::single_queue::flow::{
    Effect, Flow, Input, Phase, NUM_QUEUES, QUEUE_SIZE, RX_QUEUE_EVENT, RX_TAP_EVENT,
    TX_QUEUE_EVENT,
};
use crate::single_queue::setup::SetupStep;
use crate::single_queue::Error;
use crate::tx;
use crate::tx::TxVirtio;
use vm_memory::GuestMemoryMmap;
use vstd::prelude::*;
use vstd::slice::slice_subrange;

verus! {

/// A backend with one receive queue and one transmit queue. The tap device, the kill event and the
/// event loop are held by their descriptors.
pub struct VhostUserNetBackend {
    pub mem: Option<GuestMemoryMmap>,
    pub kill_evt: i32,
    pub tap: i32,
    pub rx: RxVirtio,
    pub tx: TxVirtio,
    pub rx_tap_listening: bool,
    pub epoll_fd: i32,
    pub phase: Phase,
    /// The chains of the transmit queue that are to be returned.
    pub used_desc_heads: Vec<u16>,
}

/// What a call asks for.
pub open spec fn asked(r: Result<Vec<Effect>, Error>) -> Result<Seq<Effect>, Error> {
    match r {
        Ok(effects) => Ok(effects@),
        Err(e) => Err(e),
    }
}

impl VhostUserNetBackend {
    /// What the decisions of the backend rest on.
    pub open spec fn flow(self) -> Flow {
        Flow {
            rx: self.rx.state,
            listening: self.rx_tap_listening,
            phase: self.phase,
            used: self.used_desc_heads@,
        }
    }

    /// What holds of a backend between two calls.
    pub open spec fn wf(self) -> bool {
        &&& self.flow().wf()
        &&& (self.phase is RxChain || self.phase is TxChain || self.phase is TapWrite)
            ==> self.mem is Some
        &&& self.rx.frame_buf@.len() == MAX_BUFFER_SIZE
        &&& self.tx.frame_buf@.len() == MAX_BUFFER_SIZE
    }

    /// Whether two backends agree in all that is not the order of their work or guest memory.
    pub open spec fn same_devices(self, other: VhostUserNetBackend) -> bool {
        &&& self.kill_evt == other.kill_evt
        &&& self.tap == other.tap
        &&& self.epoll_fd == other.epoll_fd
        &&& self.rx.frame_buf == other.rx.frame_buf
        &&& self.tx.iovec@ == other.tx.iovec@
    }

    /// Starts to set up a backend for a new tap device with an address and a netmask.
    pub fn new(ip_addr: Ipv4Addr, netmask: Ipv4Addr) -> (step: SetupStep)
        ensures
            step == (SetupStep::Open { ip_addr, netmask }),
    {
        SetupStep::Open { ip_addr, netmask }
    }

    /// A backend for a tap device and a kill event, once both are set up.
    pub fn new_with_tap(tap: i32, kill_evt: i32) -> (backend: VhostUserNetBackend)
        ensures
            backend.wf(),
            backend.mem is None,
            backend.kill_evt == kill_evt,
            backend.tap == tap,
            backend.epoll_fd == 0,
            backend.flow() == (Flow {
                rx: RxState { deferred_frame: false, deferred_irqs: false, bytes_read: 0 },
                listening: false,
                phase: Phase::Idle,
                used: Seq::empty(),
            }),
            backend.rx.frame_buf@ == Seq::new(MAX_BUFFER_SIZE as nat, |i: int| 0u8),
            backend.tx.frame_buf@ == Seq::new(MAX_BUFFER_SIZE as nat, |i: int| 0u8),
            backend.tx.iovec@.len() == 0,
    {
        VhostUserNetBackend {
            mem: None,
            kill_evt,
            tap,
            rx: RxVirtio::new(),
            tx: TxVirtio::new(QUEUE_SIZE),
            rx_tap_listening: false,
            epoll_fd: 0,
            phase: Phase::Idle,
            used_desc_heads: Vec::new(),
        }
    }

    /// Ends an event of reception.
    fn settle_rx(&mut self, effects: &mut Vec<Effect>, queue_event: bool)
        ensures
            final(self).flow() == old(self).flow().settle_rx(queue_event).flow,
            final(effects)@ == old(effects)@ + old(self).flow().settle_rx(queue_event).out->Ok_0,
            final(self).mem == old(self).mem,
            final(self).tx == old(self).tx,
            final(self).same_devices(*old(self)),
    {
        if queue_event && !self.rx_tap_listening {
            self.phase = Phase::Register;
            effects.push(Effect::RegisterTap);
        } else {
            self.phase = Phase::Idle;
            effects.push(Effect::Return(true));
        }
    }

    /// Ends reception.
    fn finish_rx(&mut self, effects: &mut Vec<Effect>, signal: bool, queue_event: bool)
        ensures
            final(self).flow() == old(self).flow().finish_rx(signal, queue_event).flow,
            final(effects)@ == old(effects)@ + old(self).flow().finish_rx(
                signal,
                queue_event,
            ).out->Ok_0,
            final(self).mem == old(self).mem,
            final(self).tx == old(self).tx,
            final(self).same_devices(*old(self)),
    {
        if signal {
            self.phase = Phase::SignalRx { queue_event };
            effects.push(Effect::SignalRx);
        } else {
            self.settle_rx(effects, queue_event);
        }
    }

    /// Takes one step of reception.
    fn proceed_rx(&mut self, effects: &mut Vec<Effect>, next: RxNext, queue_event: bool)
        ensures
            final(self).flow() == old(self).flow().proceed_rx(
                next,
                queue_event,
                old(self).mem is Some,
            ).flow,
            final(effects)@ == old(effects)@ + old(self).flow().proceed_rx(
                next,
                queue_event,
                old(self).mem is Some,
            ).out->Ok_0,
            final(self).mem == old(self).mem,
            final(self).tx == old(self).tx,
            final(self).same_devices(*old(self)),
    {
        match next {
            RxNext::ReadTap => {
                self.phase = Phase::TapRead { queue_event };
                effects.push(Effect::ReadTap);
            },
            RxNext::TakeChain => {
                if self.mem.is_some() {
                    self.phase = Phase::RxChain { queue_event };
                    effects.push(Effect::TakeRxChain);
                } else {
                    let next = self.rx.state.attempt(false);
                    if let RxNext::Finish { signal } = next {
                        self.finish_rx(effects, signal, queue_event);
                    }
                }
            },
            RxNext::Finish { signal } => self.finish_rx(effects, signal, queue_event),
        }
    }

    /// Starts to handle an event.
    pub fn handle_event(&mut self, device_event: u16, evset: u32) -> (r: Result<Vec<Effect>, Error>)
        requires
            old(self).wf(),
            old(self).phase is Idle,
        ensures
            final(self).wf(),
            final(self).flow() == old(self).flow().on_device(
                device_event,
                evset,
                old(self).mem is Some,
            ).flow,
            asked(r) == old(self).flow().on_device(
                device_event,
                evset,
                old(self).mem is Some,
            ).out,
            final(self).mem == old(self).mem,
            final(self).tx == old(self).tx,
            final(self).same_devices(*old(self)),
    {
        let mut effects: Vec<Effect> = Vec::new();
        if evset != abi::readable_events() {
            effects.push(Effect::Return(false));
        } else if device_event == RX_QUEUE_EVENT {
            let next = self.rx.state.start(false);
            self.proceed_rx(&mut effects, next, true);
        } else if device_event == TX_QUEUE_EVENT {
            if self.mem.is_none() {
                self.phase = Phase::Failed;
                return Err(Error::NoMemoryForTx);
            }
            self.phase = Phase::TxChain;
            effects.push(Effect::TakeTxChain);
        } else if device_event == RX_TAP_EVENT {
            let next = self.rx.state.start(true);
            self.proceed_rx(&mut effects, next, false);
        } else {
            effects.push(Effect::Return(true));
        }
        Ok(effects)
    }

    /// Goes on with the outcome of a read from the tap device: its byte count, or the error number
    /// of the operating system where it gave one. The frame is in the receive frame buffer.
    pub fn tap_read(&mut self, outcome: Result<usize, Option<i32>>) -> (r: Result<
        Vec<Effect>,
        Error,
    >)
        requires
            old(self).wf(),
            old(self).flow().takes(Input::TapRead(abi::tap_read(outcome))),
        ensures
            final(self).wf(),
            final(self).flow() == old(self).flow().on_tap_read(
                abi::tap_read(outcome),
                old(self).mem is Some,
            ).flow,
            asked(r) == old(self).flow().on_tap_read(
                abi::tap_read(outcome),
                old(self).mem is Some,
            ).out,
            final(self).mem == old(self).mem,
            final(self).tx == old(self).tx,
            final(self).same_devices(*old(self)),
    {
        let mut effects: Vec<Effect> = Vec::new();
        if let Phase::TapRead { queue_event } = self.phase {
            match abi::classify_tap_read(outcome) {
                TapRead::Frame(count) => {
                    self.rx.state.bytes_read = count;
                    self.proceed_rx(&mut effects, RxNext::TakeChain, queue_event);
                },
                TapRead::Empty => {
                    let next = self.rx.state.finish();
                    self.proceed_rx(&mut effects, next, queue_event);
                },
                TapRead::Failed => {
                    self.phase = Phase::Failed;
                    return Err(Error::FailedReadTap);
                },
            }
        }
        Ok(effects)
    }

    /// Copies a single frame from the receive frame buffer into a chain, and returns how many bytes
    /// went there.
    fn rx_single_frame(&mut self, chain: &DescriptorChain) -> (count: usize)
        requires
            old(self).wf(),
            old(self).mem is Some,
        ensures
            final(self).mem is Some,
            count == rx::placed(
                guest::guest_regions(old(self).mem->0),
                chain.descriptors@,
                old(self).rx.state.bytes_read as nat,
            ),
            guest::guest_regions(final(self).mem->0) == guest::guest_regions(old(self).mem->0),
            guest::guest_transfers(final(self).mem->0) == guest::guest_transfers(old(self).mem->0)
                + rx::placing(
                guest::guest_regions(old(self).mem->0),
                chain.descriptors@,
                old(self).rx.frame_buf@.take(old(self).rx.state.bytes_read as int),
            ),
            final(self).flow() == old(self).flow(),
            final(self).tx == old(self).tx,
            final(self).same_devices(*old(self)),
    {
        let frame = slice_subrange(self.rx.frame_buf.as_slice(), 0, self.rx.state.bytes_read);
        assert(frame@ =~= self.rx.frame_buf@.take(self.rx.state.bytes_read as int));
        match &mut self.mem {
            Some(mem) => rx::place_frame(frame, mem, chain),
            None => 0,
        }
    }

    /// Goes on with a chain of the receive queue, or with none where the queue is empty.
    pub fn rx_chain(&mut self, chain: Option<DescriptorChain>) -> (r: Result<Vec<Effect>, Error>)
        requires
            old(self).wf(),
            old(self).phase is RxChain,
        ensures
            final(self).wf(),
            chain is None ==> {
                &&& final(self).flow() == old(self).flow().on_rx_chain(None).flow
                &&& asked(r) == old(self).flow().on_rx_chain(None).out
                &&& final(self).mem == old(self).mem
            },
            chain matches Some(chain) ==> {
                let regions = guest::guest_regions(old(self).mem->0);
                let frame = old(self).rx.frame_buf@.take(old(self).rx.state.bytes_read as int);
                let count = rx::placed(regions, chain.descriptors@, frame.len());
                let step = old(self).flow().on_rx_chain(Some((chain.head_index, count)));
                &&& final(self).flow() == step.flow
                &&& asked(r) == step.out
                &&& final(self).mem is Some
                &&& guest::guest_regions(final(self).mem->0) == regions
                &&& guest::guest_transfers(final(self).mem->0) == guest::guest_transfers(
                    old(self).mem->0,
                ) + rx::placing(regions, chain.descriptors@, frame)
            },
            final(self).tx == old(self).tx,
            final(self).same_devices(*old(self)),
    {
        let mut effects: Vec<Effect> = Vec::new();
        if let Phase::RxChain { queue_event } = self.phase {
            match chain {
                None => {
                    if self.rx_tap_listening {
                        effects.push(Effect::UnregisterTap);
                        self.rx_tap_listening = false;
                    }
                    let next = self.rx.state.attempt(false);
                    self.proceed_rx(&mut effects, next, queue_event);
                },
                Some(chain) => {
                    let count: usize = self.rx_single_frame(&chain);
                    proof {
                        let regions = guest::guest_regions(old(self).mem->0);
                        rx::law_placed_is_bounded(
                            regions,
                            chain.descriptors@,
                            self.rx.state.bytes_read as nat,
                        );
                    }
                    effects.push(
                        Effect::AddUsedRx { head_index: chain.head_index, written: count as u32 },
                    );
                    self.rx.state.deferred_irqs = true;
                    let next = self.rx.state.attempt(true);
                    self.proceed_rx(&mut effects, next, queue_event);
                },
            }
        }
        Ok(effects)
    }

    /// Goes on with the outcome of signalling the receive queue.
    pub fn signalled(&mut self, ok: bool) -> (r: Result<Vec<Effect>, Error>)
        requires
            old(self).wf(),
            old(self).phase is SignalRx,
        ensures
            final(self).wf(),
            final(self).flow() == old(self).flow().on_signalled(ok).flow,
            asked(r) == old(self).flow().on_signalled(ok).out,
            final(self).mem == old(self).mem,
            final(self).tx == old(self).tx,
            final(self).same_devices(*old(self)),
    {
        let mut effects: Vec<Effect> = Vec::new();
        if !ok {
            self.phase = Phase::Failed;
            return Err(Error::FailedSignalingUsedQueue);
        }
        if let Phase::SignalRx { queue_event } = self.phase {
            self.settle_rx(&mut effects, queue_event);
        }
        Ok(effects)
    }

    /// Goes on with the outcome of adding the tap device to the event loop.
    pub fn registered(&mut self, ok: bool) -> (r: Result<Vec<Effect>, Error>)
        requires
            old(self).wf(),
            old(self).phase is Register,
        ensures
            final(self).wf(),
            final(self).flow() == old(self).flow().on_registered(ok).flow,
            asked(r) == old(self).flow().on_registered(ok).out,
            final(self).mem == old(self).mem,
            final(self).tx == old(self).tx,
            final(self).same_devices(*old(self)),
    {
        let mut effects: Vec<Effect> = Vec::new();
        self.phase = Phase::Idle;
        self.rx_tap_listening = ok;
        if ok {
            effects.push(Effect::Return(true));
        } else {
            effects.push(Effect::ReturnError);
        }
        Ok(effects)
    }

    /// Goes on with a chain of the transmit queue, or with none where the queue is empty.
    pub fn tx_chain(&mut self, chain: Option<DescriptorChain>) -> (r: Result<Vec<Effect>, Error>)
        requires
            old(self).wf(),
            old(self).phase is TxChain,
            chain is Some ==> old(self).used_desc_heads@.len() < QUEUE_SIZE,
        ensures
            final(self).wf(),
            chain is None ==> {
                &&& final(self).flow() == old(self).flow().on_tx_chain(None).flow
                &&& asked(r) == old(self).flow().on_tx_chain(None).out
                &&& final(self).mem == old(self).mem
                &&& final(self).tx == old(self).tx
            },
            chain matches Some(chain) ==> {
                let regions = guest::guest_regions(old(self).mem->0);
                let cap = old(self).tx.frame_buf@.len();
                let count = tx::gathered(regions, chain.descriptors@, cap);
                let end = tx::reads_end(regions, chain.descriptors@, cap) as int;
                let step = old(self).flow().on_tx_chain(Some((chain.head_index, count)));
                &&& final(self).flow() == step.flow
                &&& asked(r) == step.out
                &&& final(self).mem is Some
                &&& guest::guest_regions(final(self).mem->0) == regions
                &&& guest::guest_transfers(final(self).mem->0) == guest::guest_transfers(
                    old(self).mem->0,
                ) + tx::gathering(regions, chain.descriptors@, final(self).tx.frame_buf@)
                &&& final(self).tx.frame_buf@.skip(end) == old(self).tx.frame_buf@.skip(end)
                &&& final(self).tx.iovec@.len() == 0
            },
            final(self).rx == old(self).rx,
            final(self).kill_evt == old(self).kill_evt,
            final(self).tap == old(self).tap,
            final(self).epoll_fd == old(self).epoll_fd,
    {
        let mut effects: Vec<Effect> = Vec::new();
        match chain {
            Some(chain) => {
                self.used_desc_heads.push(chain.head_index);
                let len: usize = match &mut self.mem {
                    Some(mem) => self.tx.gather_frame(mem, &chain),
                    None => 0,
                };
                self.phase = Phase::TapWrite;
                effects.push(Effect::WriteTap { len });
                proof {
                    let step = old(self).flow().on_tx_chain(Some((chain.head_index, len as nat)));
                    assert(effects@ =~= step.out->Ok_0);
                    assert(self.used_desc_heads@ =~= step.flow.used);
                }
            },
            None => {
                let mut i: usize = 0;
                while i < self.used_desc_heads.len()
                    invariant
                        i <= self.used_desc_heads@.len(),
                        *self == *old(self),
                        effects@ =~= flow::returns_of(self.used_desc_heads@.take(i as int)),
                    decreases self.used_desc_heads@.len() - i,
                {
                    let head_index: u16 = self.used_desc_heads[i];
                    effects.push(Effect::AddUsedTx { head_index, written: 0 });
                    i = i + 1;
                }
                assert(self.used_desc_heads@.take(i as int) =~= self.used_desc_heads@);
                effects.push(Effect::SignalTx);
                effects.push(Effect::Return(true));
                assert(effects@ =~= old(self).flow().on_tx_chain(None).out->Ok_0);
                self.used_desc_heads.clear();
                self.phase = Phase::Idle;
            },
        }
        Ok(effects)
    }

    /// Goes on with the outcome of a write to the tap device.
    pub fn tap_written(&mut self, ok: bool) -> (r: Result<Vec<Effect>, Error>)
        requires
            old(self).wf(),
            old(self).phase is TapWrite,
        ensures
            final(self).wf(),
            final(self).flow() == old(self).flow().on_tap_written(ok).flow,
            asked(r) == old(self).flow().on_tap_written(ok).out,
            final(self).mem == old(self).mem,
            final(self).tx == old(self).tx,
            final(self).same_devices(*old(self)),
    {
        let mut effects: Vec<Effect> = Vec::new();
        self.phase = Phase::TxChain;
        effects.push(Effect::TakeTxChain);
        Ok(effects)
    }

    /// How the tap device is listened to: the event loop, the device, and what it reports there.
    pub fn tap_rx_listener(&self) -> (interest: Interest)
        ensures
            interest == (Interest {
                epoll_fd: self.epoll_fd,
                fd: self.tap,
                events: 1,
                data: RX_TAP_EVENT as u64,
            }),
    {
        Interest {
            epoll_fd: self.epoll_fd,
            fd: self.tap,
            events: abi::readable_events(),
            data: RX_TAP_EVENT as u64,
        }
    }

    /// The number of queues.
    pub fn num_queues(&self) -> (n: usize)
        ensures
            n == 2,
    {
        NUM_QUEUES
    }

    /// The length of each queue.
    pub fn max_queue_size(&self) -> (sizes: Vec<usize>)
        ensures
            sizes@ == seq![256usize, 256usize],
    {
        let sizes = vec![QUEUE_SIZE; NUM_QUEUES];
        assert(sizes@ =~= seq![256usize, 256usize]);
        sizes
    }

    /// The virtio features that the backend offers.
    pub fn features(&self) -> (word: u64)
        ensures
            word == 0x1_4000_4c83,
            forall|i: u64| i < 64 ==> #[trigger] abi::has_bit(word, i) == abi::offered(i),
    {
        abi::features()
    }

    /// Replaces guest memory, between two events.
    pub fn update_memory(&mut self, mem: Option<GuestMemoryMmap>)
        requires
            old(self).wf(),
            old(self).phase is Idle,
        ensures
            final(self).wf(),
            *final(self) == (VhostUserNetBackend { mem, ..*old(self) }),
    {
        self.mem = mem;
    }

    /// Replaces the event loop.
    pub fn update_epollfd(&mut self, epoll_fd: i32)
        ensures
            *final(self) == (VhostUserNetBackend { epoll_fd, ..*old(self) }),
    {
        self.epoll_fd = epoll_fd;
    }
}

} // verus!
