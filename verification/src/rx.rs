//! Reception: frames go from a tap device into buffers that the driver made available.
use crate::guest;
use crate::guest::{write_guest, Descriptor, DescriptorChain};
use vm_memory::GuestMemoryMmap;
use vstd::prelude::*;
use vstd::slice::slice_subrange;

verus! {

/// The longest frame when segmentation offload is enabled, with the header in front of it.
pub const MAX_BUFFER_SIZE: usize = 65562;

/// Where reception stands between two events.
#[derive(Clone, Copy, PartialEq, Eq, Structural, Debug)]
pub struct RxState {
    /// A frame was read from the tap device and waits for a buffer.
    pub deferred_frame: bool,
    /// A buffer was used and the guest does not know it yet.
    pub deferred_irqs: bool,
    /// The length of the frame that was read last.
    pub bytes_read: usize,
}

/// What reception does next.
#[derive(Clone, Copy, PartialEq, Eq, Structural, Debug)]
pub enum RxNext {
    /// Read a frame from the tap device.
    ReadTap,
    /// Take a chain from the queue and place the frame in it.
    TakeChain,
    /// Stop, after a signal to the guest where there is one to give.
    Finish { signal: bool },
}

impl RxState {
    /// Nothing read, nothing pending.
    pub fn new() -> (s: RxState)
        ensures
            s == (RxState { deferred_frame: false, deferred_irqs: false, bytes_read: 0 }),
    {
        RxState { deferred_frame: false, deferred_irqs: false, bytes_read: 0 }
    }

    /// What an event starts: a frame that waits comes first, and the tap device is read only on an
    /// event of its own.
    pub open spec fn started(self, tap_event: bool) -> RxNext {
        if self.deferred_frame {
            RxNext::TakeChain
        } else if tap_event {
            RxNext::ReadTap
        } else {
            RxNext::Finish { signal: false }
        }
    }

    /// Starts reception on an event.
    pub fn start(&self, tap_event: bool) -> (next: RxNext)
        ensures
            next == self.started(tap_event),
    {
        if self.deferred_frame {
            RxNext::TakeChain
        } else if tap_event {
            RxNext::ReadTap
        } else {
            RxNext::Finish { signal: false }
        }
    }

    /// The end of a pass: every used buffer has been announced.
    pub open spec fn finished(self) -> (RxState, RxNext) {
        (
            RxState { deferred_irqs: false, ..self },
            RxNext::Finish { signal: self.deferred_irqs },
        )
    }

    /// Ends a pass over the tap device.
    pub fn finish(&mut self) -> (next: RxNext)
        ensures
            (*final(self), next) == old(self).finished(),
    {
        let signal = self.deferred_irqs;
        self.deferred_irqs = false;
        RxNext::Finish { signal }
    }

    /// The state after an attempt to place a frame: once the frame is done with the next one is
    /// read, and until then it waits.
    pub open spec fn attempted(self, done: bool) -> (RxState, RxNext) {
        if done {
            (RxState { deferred_frame: false, ..self }, RxNext::ReadTap)
        } else {
            RxState { deferred_frame: true, ..self }.finished()
        }
    }

    /// Notes how an attempt to place a frame ended.
    pub fn attempt(&mut self, done: bool) -> (next: RxNext)
        ensures
            (*final(self), next) == old(self).attempted(done),
    {
        if done {
            self.deferred_frame = false;
            RxNext::ReadTap
        } else {
            self.deferred_frame = true;
            self.finish()
        }
    }
}

/// The receive side of a backend: where reception stands, and the frame that was read last.
pub struct RxVirtio {
    pub state: RxState,
    pub frame_buf: Vec<u8>,
}

impl RxVirtio {
    /// A receive side that has read nothing.
    pub fn new() -> (rx: RxVirtio)
        ensures
            rx.state == (RxState { deferred_frame: false, deferred_irqs: false, bytes_read: 0 }),
            rx.frame_buf@ == Seq::new(MAX_BUFFER_SIZE as nat, |i: int| 0u8),
    {
        RxVirtio { state: RxState::new(), frame_buf: vec![0u8; MAX_BUFFER_SIZE] }
    }
}

/// How many descriptors of a chain, counted from `k` on and with those before it, take a part of a
/// frame of `frame_len` bytes. Placing ends with the chain, at a descriptor that the device may not
/// write, at a buffer outside guest memory, and where the frame is used up.
pub open spec fn placements(
    regions: Seq<(u64, u64)>,
    descriptors: Seq<Descriptor>,
    frame_len: nat,
    k: int,
) -> int
    decreases descriptors.len() - k,
{
    if k < 0 || k >= descriptors.len() || !descriptors[k].write_only || !guest::accessible(
        regions,
        descriptors[k].addr,
        (guest::offset(descriptors, frame_len, k + 1) - guest::offset(
            descriptors,
            frame_len,
            k,
        )) as nat,
    ) {
        k
    } else if guest::offset(descriptors, frame_len, k + 1) >= frame_len {
        k + 1
    } else {
        placements(regions, descriptors, frame_len, k + 1)
    }
}

/// How many bytes of a frame a chain takes.
pub open spec fn placed(
    regions: Seq<(u64, u64)>,
    descriptors: Seq<Descriptor>,
    frame_len: nat,
) -> nat {
    guest::offset(descriptors, frame_len, placements(regions, descriptors, frame_len, 0))
}

/// Whether the copying of a frame that has come to descriptor `k` goes on to try it.
pub open spec fn placing_tries(
    descriptors: Seq<Descriptor>,
    frame_len: nat,
    k: int,
) -> bool {
    &&& 0 <= k < descriptors.len()
    &&& descriptors[k].write_only
    &&& k == 0 || guest::offset(descriptors, frame_len, k) < frame_len
}

/// The transfers that placing `frame` in a chain makes: one for each descriptor that takes a part,
/// and one for a descriptor at which the copying fails.
pub open spec fn placing(
    regions: Seq<(u64, u64)>,
    descriptors: Seq<Descriptor>,
    frame: Seq<u8>,
) -> Seq<(bool, u64, Seq<u8>)> {
    let n = placements(regions, descriptors, frame.len(), 0);
    guest::transfers(
        regions,
        descriptors,
        frame,
        true,
        (if placing_tries(descriptors, frame.len(), n) {
            n + 1
        } else {
            n
        }) as nat,
    )
}

/// Copies `frame` into the buffers of a chain, and returns how many bytes went there.
pub fn place_frame(frame: &[u8], mem: &mut GuestMemoryMmap, chain: &DescriptorChain) -> (count:
    usize)
    ensures
        count == placed(guest::guest_regions(*old(mem)), chain.descriptors@, frame@.len()),
        guest::guest_regions(*final(mem)) == guest::guest_regions(*old(mem)),
        guest::guest_transfers(*final(mem)) == guest::guest_transfers(*old(mem)) + placing(
            guest::guest_regions(*old(mem)),
            chain.descriptors@,
            frame@,
        ),
{
    let frame_len: usize = frame.len();
    let mut count: usize = 0;
    let mut k: usize = 0;
    let ghost regions = guest::guest_regions(*mem);
    let ghost before = guest::guest_transfers(*mem);
    let ghost descs = chain.descriptors@;
    proof {
        assert(descs.take(0).len() == 0);
        assert(before =~= before + guest::transfers(regions, descs, frame@, true, 0));
    }
    while k < chain.descriptors.len()
        invariant_except_break
            k <= descs.len(),
            k == 0 || count < frame_len,
            placements(regions, descs, frame@.len(), 0) == placements(
                regions,
                descs,
                frame@.len(),
                k as int,
            ),
            guest::guest_transfers(*mem) == before + guest::transfers(
                regions,
                descs,
                frame@,
                true,
                k as nat,
            ),
        invariant
            descs == chain.descriptors@,
            frame_len == frame@.len(),
            count == guest::offset(descs, frame@.len(), k as int),
            regions == guest::guest_regions(*mem),
        ensures
            k == placements(regions, descs, frame@.len(), 0),
            guest::guest_transfers(*mem) == before + placing(regions, descs, frame@),
        decreases descs.len() - k,
    {
        let desc = chain.descriptors[k];
        if !desc.write_only {
            break;
        }
        proof {
            guest::lemma_offset_step(descs, frame@.len(), k as int);
        }
        let limit: usize = if desc.len as usize <= frame_len - count {
            count + desc.len as usize
        } else {
            frame_len
        };
        let part = slice_subrange(frame, count, limit);
        proof {
            guest::lemma_mapped_run(regions, desc.addr as int, part@.len());
            assert(part@.take(
                guest::mapped_run(regions, desc.addr as int, part@.len()) as int,
            ) =~= guest::transfer(regions, descs, frame@, true, k as int).2);
        }
        let written = write_guest(mem, part, desc.addr);
        assert(guest::guest_transfers(*mem) =~= before + guest::transfers(
            regions,
            descs,
            frame@,
            true,
            (k + 1) as nat,
        ));
        if written.is_err() {
            break;
        }
        count = limit;
        k = k + 1;
        if count >= frame_len {
            break;
        }
    }
    count
}

/// The placements from descriptor `k` on stay in the chain, and guest memory maps their buffers.
proof fn lemma_placements(
    regions: Seq<(u64, u64)>,
    descriptors: Seq<Descriptor>,
    frame_len: nat,
    k: int,
)
    requires
        0 <= k <= descriptors.len(),
    ensures
        k <= placements(regions, descriptors, frame_len, k) <= descriptors.len(),
        forall|i: int|
            k <= i < placements(regions, descriptors, frame_len, k) ==> guest::accessible(
                regions,
                (#[trigger] descriptors[i]).addr,
                (guest::offset(descriptors, frame_len, i + 1) - guest::offset(
                    descriptors,
                    frame_len,
                    i,
                )) as nat,
            ),
    decreases descriptors.len() - k,
{
    if k < descriptors.len() {
        lemma_placements(regions, descriptors, frame_len, k + 1);
    }
}

/// A chain never takes more of a frame than the frame has.
pub proof fn law_placed_is_bounded(
    regions: Seq<(u64, u64)>,
    descriptors: Seq<Descriptor>,
    frame_len: nat,
)
    ensures
        placed(regions, descriptors, frame_len) <= frame_len,
{
}

proof fn lemma_placements_fill(
    regions: Seq<(u64, u64)>,
    descriptors: Seq<Descriptor>,
    frame_len: nat,
    m: int,
    k: int,
)
    requires
        0 <= k <= m <= descriptors.len(),
        guest::all_accessible(regions, descriptors.take(m)),
        forall|i: int| 0 <= i < m ==> (#[trigger] descriptors[i]).write_only,
        m < descriptors.len() ==> !descriptors[m].write_only,
        k == 0 || guest::offset(descriptors, frame_len, k) < frame_len,
    ensures
        guest::offset(descriptors, frame_len, placements(regions, descriptors, frame_len, k))
            == guest::offset(descriptors, frame_len, m),
    decreases m - k,
{
    if k < m {
        guest::lemma_offset_step(descriptors, frame_len, k);
        assert(descriptors.take(m)[k] == descriptors[k]);
        if guest::offset(descriptors, frame_len, k + 1) < frame_len {
            lemma_placements_fill(regions, descriptors, frame_len, m, k + 1);
        } else {
            guest::lemma_offset_monotonic(descriptors, frame_len, k + 1, m);
        }
    }
}

/// Where guest memory maps the buffers that the device may write, a chain takes as much of a frame
/// as those buffers hold: all of it, if they are large enough.
pub proof fn law_frame_fills_writable_buffers(
    regions: Seq<(u64, u64)>,
    descriptors: Seq<Descriptor>,
    frame_len: nat,
)
    requires
        guest::all_accessible(
            regions,
            descriptors.take(guest::leading(descriptors, true, 0)),
        ),
    ensures
        placed(regions, descriptors, frame_len) == if guest::total_len(
            descriptors.take(guest::leading(descriptors, true, 0)),
        ) <= frame_len {
            guest::total_len(descriptors.take(guest::leading(descriptors, true, 0)))
        } else {
            frame_len
        },
{
    guest::lemma_leading(descriptors, true, 0);
    assert(descriptors.take(0).len() == 0);
    lemma_placements_fill(
        regions,
        descriptors,
        frame_len,
        guest::leading(descriptors, true, 0),
        0,
    );
}

/// The bytes that placing a frame moves into guest memory are the frame's, in order, from its first
/// on: at least those that count as placed, and all of the frame where it was placed whole.
pub proof fn law_placing_moves_the_frame_in_order(
    regions: Seq<(u64, u64)>,
    descriptors: Seq<Descriptor>,
    frame: Seq<u8>,
)
    ensures
        guest::payload(placing(regions, descriptors, frame)).is_prefix_of(frame),
        placed(regions, descriptors, frame.len()) <= guest::payload(
            placing(regions, descriptors, frame),
        ).len(),
        placed(regions, descriptors, frame.len()) == frame.len() ==> guest::payload(
            placing(regions, descriptors, frame),
        ) == frame,
{
    let n = placements(regions, descriptors, frame.len(), 0);
    lemma_placements(regions, descriptors, frame.len(), 0);
    guest::lemma_transfers_payload(regions, descriptors, frame, true, n as nat);
    assert(frame.take(frame.len() as int) =~= frame);
    if placing_tries(descriptors, frame.len(), n) {
        guest::lemma_offset_step(descriptors, frame.len(), n);
        guest::lemma_partial_transfer_payload(regions, descriptors, frame, true, n as nat);
    }
}

/// Attempts at one frame start over: whatever chain a frame is placed in, and whatever chain was
/// tried before, what goes there is the frame from its first byte on.
pub proof fn law_attempts_start_at_the_first_byte(
    regions: Seq<(u64, u64)>,
    first: Seq<Descriptor>,
    second: Seq<Descriptor>,
    frame: Seq<u8>,
)
    ensures
        guest::payload(placing(regions, first, frame)).is_prefix_of(frame),
        guest::payload(placing(regions, second, frame)).is_prefix_of(frame),
        placing(regions, first, frame).len() > 0 ==> placing(regions, first, frame)[0].1
            == first[0].addr,
        placing(regions, second, frame).len() > 0 ==> placing(regions, second, frame)[0].1
            == second[0].addr,
{
    law_placing_moves_the_frame_in_order(regions, first, frame);
    law_placing_moves_the_frame_in_order(regions, second, frame);
}

/// A frame that waits is placed before anything else; without one, an event of the tap device reads it
/// and any other event ends reception without a signal.
pub proof fn law_waiting_frame_comes_first(state: RxState, tap_event: bool)
    ensures
        state.started(tap_event) == RxNext::TakeChain <==> state.deferred_frame,
        state.started(tap_event) == RxNext::ReadTap <==> !state.deferred_frame && tap_event,
        state.started(tap_event) == (RxNext::Finish { signal: false }) <==> !state.deferred_frame
            && !tap_event,
{
}

/// A pass ends with a signal exactly where a used buffer was not announced, leaves none unannounced,
/// and keeps the frame.
pub proof fn law_pass_ends_with_what_is_due(state: RxState)
    ensures
        state.finished().1 == (RxNext::Finish { signal: state.deferred_irqs }),
        !state.finished().0.deferred_irqs,
        state.finished().0.deferred_frame == state.deferred_frame,
        state.finished().0.bytes_read == state.bytes_read,
{
}

/// A frame waits exactly where it is not done with; then the pass ends with what is due, and
/// otherwise the next frame is read.
pub proof fn law_frame_waits_unless_done(state: RxState, done: bool)
    ensures
        state.attempted(done).0.deferred_frame == !done,
        state.attempted(done).0.bytes_read == state.bytes_read,
        state.attempted(done).0.deferred_irqs == (done && state.deferred_irqs),
        state.attempted(done).1 == if done {
            RxNext::ReadTap
        } else {
            RxNext::Finish { signal: state.deferred_irqs }
        },
{
}

/// How much of a frame of `frame_len` bytes is left for buffer `i`, behind what the transfers before
/// it moved, and no more than the buffer holds.
pub open spec fn share(
    descriptors: Seq<Descriptor>,
    frame_len: nat,
    log: Seq<(bool, u64, Seq<u8>)>,
    i: int,
) -> int {
    let left = frame_len - guest::payload(log.take(i)).len();
    if descriptors[i].len <= left {
        descriptors[i].len as int
    } else {
        left
    }
}

#[verifier::rlimit(60)]
proof fn lemma_share(
    regions: Seq<(u64, u64)>,
    descriptors: Seq<Descriptor>,
    frame: Seq<u8>,
    i: int,
)
    requires
        0 <= i < placing(regions, descriptors, frame).len(),
    ensures
        ({
            let log = placing(regions, descriptors, frame);
            let from = guest::offset(descriptors, frame.len(), i);
            &&& i < descriptors.len()
            &&& i <= placements(regions, descriptors, frame.len(), 0) <= descriptors.len()
            &&& guest::payload(log.take(i)) == frame.take(from as int)
            &&& from <= frame.len()
            &&& share(descriptors, frame.len(), log, i) == guest::offset(
                descriptors,
                frame.len(),
                i + 1,
            ) - from
            &&& log[i] == guest::transfer(regions, descriptors, frame, true, i)
        }),
{
    let log = placing(regions, descriptors, frame);
    lemma_placements(regions, descriptors, frame.len(), 0);
    guest::lemma_transfers_payload(regions, descriptors, frame, true, i as nat);
    guest::lemma_offset_step(descriptors, frame.len(), i);
    assert(log.take(i) =~= guest::transfers(regions, descriptors, frame, true, i as nat));
}

/// Placing from descriptor `k` on ends behind it and in the chain.
proof fn lemma_placements_end(
    regions: Seq<(u64, u64)>,
    descriptors: Seq<Descriptor>,
    frame_len: nat,
    k: int,
)
    requires
        0 <= k <= descriptors.len(),
    ensures
        k <= placements(regions, descriptors, frame_len, k) <= descriptors.len(),
    decreases descriptors.len() - k,
{
    if k < descriptors.len() {
        lemma_placements_end(regions, descriptors, frame_len, k + 1);
    }
}

/// Descriptor `i` takes a part where placing from descriptor `k` on goes beyond it, and where placing
/// ends at it though it may be tried, guest memory does not map its part.
#[verifier::rlimit(60)]
proof fn lemma_placement_at(
    regions: Seq<(u64, u64)>,
    descriptors: Seq<Descriptor>,
    frame_len: nat,
    k: int,
    i: int,
)
    requires
        0 <= k <= i < descriptors.len(),
    ensures
        ({
            let n = placements(regions, descriptors, frame_len, k);
            let from = guest::offset(descriptors, frame_len, i);
            let part = (guest::offset(descriptors, frame_len, i + 1) - from) as nat;
            &&& i < n ==> {
                &&& descriptors[i].write_only
                &&& guest::accessible(regions, descriptors[i].addr, part)
                &&& i > k ==> from < frame_len
            }
            &&& i == n && descriptors[i].write_only && (i == k || from < frame_len)
                ==> !guest::accessible(regions, descriptors[i].addr, part)
        }),
    decreases i - k,
{
    if k < i {
        lemma_placement_at(regions, descriptors, frame_len, k + 1, i);
    } else {
        lemma_placements_end(regions, descriptors, frame_len, k + 1);
    }
}

/// What transfer `i` of a placing moves, by where its part of the frame begins and ends.
#[verifier::rlimit(60)]
proof fn lemma_moved(
    regions: Seq<(u64, u64)>,
    descriptors: Seq<Descriptor>,
    frame: Seq<u8>,
    i: int,
)
    requires
        0 <= i < placing(regions, descriptors, frame).len(),
    ensures
        ({
            let log = placing(regions, descriptors, frame);
            let part = guest::offset(descriptors, frame.len(), i + 1) - guest::offset(
                descriptors,
                frame.len(),
                i,
            );
            let moved = log[i].2.len();
            let addr = descriptors[i].addr as int;
            &&& descriptors[i].write_only
            &&& i > 0 ==> guest::offset(descriptors, frame.len(), i) < frame.len()
            &&& moved <= part
            &&& forall|a: int| addr <= a < addr + moved ==> #[trigger] guest::mapped(regions, a)
            &&& moved < part ==> i == log.len() - 1 && !guest::mapped(regions, addr + moved)
            &&& i < log.len() - 1 ==> guest::accessible(regions, descriptors[i].addr, part as nat)
            &&& i < placements(regions, descriptors, frame.len(), 0) <==> guest::accessible(
                regions,
                descriptors[i].addr,
                part as nat,
            )
        }),
{
    lemma_placements_end(regions, descriptors, frame.len(), 0);
    lemma_placement_at(regions, descriptors, frame.len(), 0, i);
    guest::lemma_transfer(regions, descriptors, frame, true, i);
    assert(placing(regions, descriptors, frame)[i] == guest::transfer(
        regions,
        descriptors,
        frame,
        true,
        i,
    ));
}

/// Placing goes through the buffers of a chain one by one: transfer `i` writes to the address of
/// buffer `i`, which the device may write, and moves all that is left for it, or what lies before the
/// first byte of the buffer that guest memory does not map, and then it is the last. Nothing is
/// written once the frame is used up.
#[verifier::rlimit(60)]
pub proof fn law_each_buffer_takes_its_share(
    regions: Seq<(u64, u64)>,
    descriptors: Seq<Descriptor>,
    frame: Seq<u8>,
    i: int,
)
    requires
        0 <= i < placing(regions, descriptors, frame).len(),
    ensures
        ({
            let log = placing(regions, descriptors, frame);
            let moved = log[i].2.len();
            &&& i < descriptors.len()
            &&& descriptors[i].write_only
            &&& log[i].0
            &&& log[i].1 == descriptors[i].addr
            &&& moved <= share(descriptors, frame.len(), log, i)
            &&& forall|a: int|
                descriptors[i].addr <= a < descriptors[i].addr + moved ==> #[trigger] guest::mapped(
                    regions,
                    a,
                )
            &&& moved < share(descriptors, frame.len(), log, i) ==> {
                &&& i == log.len() - 1
                &&& !guest::mapped(regions, descriptors[i].addr + moved)
            }
            &&& i < log.len() - 1 ==> moved == share(descriptors, frame.len(), log, i)
            &&& i > 0 ==> guest::payload(log.take(i)).len() < frame.len()
        }),
{
    lemma_share(regions, descriptors, frame, i);
    lemma_moved(regions, descriptors, frame, i);
}

/// The placements of a frame move it up to where the last of them ends.
proof fn lemma_placed_payload(
    regions: Seq<(u64, u64)>,
    descriptors: Seq<Descriptor>,
    frame: Seq<u8>,
)
    ensures
        ({
            let m = placements(regions, descriptors, frame.len(), 0);
            let end = guest::offset(descriptors, frame.len(), m);
            &&& 0 <= m <= descriptors.len()
            &&& end <= frame.len()
            &&& guest::payload(
                guest::transfers(regions, descriptors, frame, true, m as nat),
            ) == frame.take(end as int)
        }),
{
    let m = placements(regions, descriptors, frame.len(), 0);
    lemma_placements(regions, descriptors, frame.len(), 0);
    guest::lemma_offset_monotonic(descriptors, frame.len(), m, m);
    guest::lemma_transfers_payload(regions, descriptors, frame, true, m as nat);
}

/// Placing does not stop early: where it stops, all of the frame was moved, the chain is used up, the
/// next buffer is one that the device may not write, or guest memory does not map all that the last
/// buffer was to take.
#[verifier::rlimit(60)]
pub proof fn law_placing_stops_for_a_reason(
    regions: Seq<(u64, u64)>,
    descriptors: Seq<Descriptor>,
    frame: Seq<u8>,
)
    ensures
        ({
            let log = placing(regions, descriptors, frame);
            let n = log.len() as int;
            &&& n <= descriptors.len()
            &&& guest::payload(log) == frame || n == descriptors.len() || !descriptors[n].write_only
                || (n > 0 && !guest::accessible(
                regions,
                descriptors[n - 1].addr,
                share(descriptors, frame.len(), log, n - 1) as nat,
            ))
            &&& descriptors.len() > 0 && descriptors[0].write_only ==> n > 0
        }),
{
    let m = placements(regions, descriptors, frame.len(), 0);
    lemma_placed_payload(regions, descriptors, frame);
    assert(frame.take(frame.len() as int) =~= frame);
    if m < descriptors.len() {
        lemma_placement_at(regions, descriptors, frame.len(), 0, m);
    }
    if placing_tries(descriptors, frame.len(), m) {
        lemma_share(regions, descriptors, frame, m);
    }
}

/// What counts as placed is what the transfers moved that found all of their bytes mapped.
#[verifier::rlimit(60)]
pub proof fn law_only_whole_transfers_count(
    regions: Seq<(u64, u64)>,
    descriptors: Seq<Descriptor>,
    frame: Seq<u8>,
)
    ensures
        ({
            let log = placing(regions, descriptors, frame);
            let n = log.len() as int;
            let whole = n == 0 || guest::accessible(
                regions,
                descriptors[n - 1].addr,
                share(descriptors, frame.len(), log, n - 1) as nat,
            );
            placed(regions, descriptors, frame.len()) == guest::payload(
                if whole {
                    log
                } else {
                    log.take(n - 1)
                },
            ).len()
        }),
{
    let log = placing(regions, descriptors, frame);
    let n = log.len() as int;
    let m = placements(regions, descriptors, frame.len(), 0);
    lemma_placed_payload(regions, descriptors, frame);
    assert(log.take(m) =~= guest::transfers(regions, descriptors, frame, true, m as nat));
    if n > 0 {
        lemma_share(regions, descriptors, frame, n - 1);
        lemma_placement_at(regions, descriptors, frame.len(), 0, n - 1);
    }
    if n == m {
        assert(log.take(m) =~= log);
    }
}

} // verus!
