//! Transmission: frames go from buffers that the driver made available to a tap device.
use crate::guest;
use crate::guest::{read_guest, Descriptor, DescriptorChain};
use crate::rx;
use crate::rx::MAX_BUFFER_SIZE;
use vm_memory::GuestMemoryMmap;
use vstd::prelude::*;

verus! {

/// How many descriptors of a chain, counted from `k` on and with those before it, give their part
/// of a frame of at most `cap` bytes. Gathering ends with the chain, at a descriptor that the
/// device may not read, and at a buffer outside guest memory.
pub open spec fn gathers(
    regions: Seq<(u64, u64)>,
    descriptors: Seq<Descriptor>,
    cap: nat,
    k: int,
) -> int
    decreases descriptors.len() - k,
{
    if k < 0 || k >= descriptors.len() || descriptors[k].write_only || !guest::accessible(
        regions,
        descriptors[k].addr,
        (guest::offset(descriptors, cap, k + 1) - guest::offset(descriptors, cap, k)) as nat,
    ) {
        k
    } else {
        gathers(regions, descriptors, cap, k + 1)
    }
}

/// How many bytes of a frame a chain gives.
pub open spec fn gathered(
    regions: Seq<(u64, u64)>,
    descriptors: Seq<Descriptor>,
    cap: nat,
) -> nat {
    guest::offset(descriptors, cap, gathers(regions, descriptors, cap, 0))
}

/// How many reads gathering a frame makes: one for each descriptor that gives its part, and one
/// for a descriptor at which the copying fails.
pub open spec fn reads(regions: Seq<(u64, u64)>, descriptors: Seq<Descriptor>, cap: nat) -> nat {
    let n = gathers(regions, descriptors, cap, 0);
    if n < guest::leading(descriptors, false, 0) {
        (n + 1) as nat
    } else {
        n as nat
    }
}

/// The transfers that gathering a frame makes, once `frame` holds what they brought.
pub open spec fn gathering(
    regions: Seq<(u64, u64)>,
    descriptors: Seq<Descriptor>,
    frame: Seq<u8>,
) -> Seq<(bool, u64, Seq<u8>)> {
    guest::transfers(
        regions,
        descriptors,
        frame,
        false,
        reads(regions, descriptors, frame.len()),
    )
}

/// Where in the frame the last read ends: behind the bytes that a failing read still brought.
pub open spec fn reads_end(
    regions: Seq<(u64, u64)>,
    descriptors: Seq<Descriptor>,
    cap: nat,
) -> nat {
    let n = gathers(regions, descriptors, cap, 0);
    if n < guest::leading(descriptors, false, 0) {
        guest::offset(descriptors, cap, n) + guest::mapped_run(
            regions,
            descriptors[n].addr as int,
            (guest::offset(descriptors, cap, n + 1) - guest::offset(descriptors, cap, n)) as nat,
        )
    } else {
        guest::offset(descriptors, cap, n)
    }
}

/// The buffers of the descriptors that the device may read, up to the first that it may not.
pub open spec fn readable(descriptors: Seq<Descriptor>) -> Seq<(u64, usize)> {
    Seq::new(
        guest::leading(descriptors, false, 0) as nat,
        |k: int| (descriptors[k].addr, descriptors[k].len as usize),
    )
}

/// The transmit side of a backend: the frame under way, and where its parts lie.
pub struct TxVirtio {
    pub iovec: Vec<(u64, usize)>,
    pub frame_buf: Vec<u8>,
}

impl TxVirtio {
    /// A transmit side with no frame under way, for a queue of `queue_size` chains.
    pub fn new(queue_size: usize) -> (tx: TxVirtio)
        ensures
            tx.iovec@.len() == 0,
            tx.frame_buf@ == Seq::new(MAX_BUFFER_SIZE as nat, |i: int| 0u8),
    {
        TxVirtio {
            iovec: Vec::with_capacity(queue_size),
            frame_buf: vec![0u8; MAX_BUFFER_SIZE],
        }
    }

    /// Notes where the parts of a frame lie, in the order of the chain.
    fn collect_buffers(&mut self, chain: &DescriptorChain)
        ensures
            final(self).iovec@ == readable(chain.descriptors@),
            final(self).frame_buf == old(self).frame_buf,
    {
        let ghost descs = chain.descriptors@;
        self.iovec.clear();
        let mut k: usize = 0;
        while k < chain.descriptors.len()
            invariant
                descs == chain.descriptors@,
                k <= descs.len(),
                guest::leading(descs, false, 0) == guest::leading(descs, false, k as int),
                self.iovec@ =~= Seq::new(
                    k as nat,
                    |j: int| (descs[j].addr, descs[j].len as usize),
                ),
                self.frame_buf == old(self).frame_buf,
            ensures
                k == guest::leading(descs, false, 0),
            decreases descs.len() - k,
        {
            let desc = chain.descriptors[k];
            if desc.write_only {
                break;
            }
            self.iovec.push((desc.addr, desc.len as usize));
            k = k + 1;
        }
    }

    /// Copies the frame of a chain out of guest memory, and returns its length.
    pub fn gather_frame(&mut self, mem: &mut GuestMemoryMmap, chain: &DescriptorChain) -> (count:
        usize)
        ensures
            count == gathered(
                guest::guest_regions(*old(mem)),
                chain.descriptors@,
                old(self).frame_buf@.len(),
            ),
            final(self).iovec@.len() == 0,
            final(self).frame_buf@.len() == old(self).frame_buf@.len(),
            final(self).frame_buf@.skip(
                reads_end(
                    guest::guest_regions(*old(mem)),
                    chain.descriptors@,
                    old(self).frame_buf@.len(),
                ) as int,
            ) == old(self).frame_buf@.skip(
                reads_end(
                    guest::guest_regions(*old(mem)),
                    chain.descriptors@,
                    old(self).frame_buf@.len(),
                ) as int,
            ),
            guest::guest_regions(*final(mem)) == guest::guest_regions(*old(mem)),
            guest::guest_transfers(*final(mem)) == guest::guest_transfers(*old(mem)) + gathering(
                guest::guest_regions(*old(mem)),
                chain.descriptors@,
                final(self).frame_buf@,
            ),
    {
        self.collect_buffers(chain);
        let cap: usize = self.frame_buf.len();
        let mut count: usize = 0;
        let mut k: usize = 0;
        let ghost regions = guest::guest_regions(*mem);
        let ghost before = guest::guest_transfers(*mem);
        let ghost descs = chain.descriptors@;
        let ghost m = guest::leading(descs, false, 0);
        proof {
            guest::lemma_leading(descs, false, 0);
            assert(descs.take(0).len() == 0);
            assert(before =~= before + guest::transfers(regions, descs, self.frame_buf@, false, 0));
        }
        while k < self.iovec.len()
            invariant_except_break
                k <= m,
                self.frame_buf@.skip(count as int) == old(self).frame_buf@.skip(count as int),
                gathers(regions, descs, cap as nat, 0) == gathers(
                    regions,
                    descs,
                    cap as nat,
                    k as int,
                ),
                guest::guest_transfers(*mem) == before + guest::transfers(
                    regions,
                    descs,
                    self.frame_buf@,
                    false,
                    k as nat,
                ),
            invariant
                m == guest::leading(descs, false, 0),
                m <= descs.len(),
                forall|i: int| 0 <= i < m ==> !(#[trigger] descs[i]).write_only,
                m < descs.len() ==> descs[m].write_only,
                self.iovec@ == readable(descs),
                self.frame_buf@.len() == cap,
                cap == old(self).frame_buf@.len(),
                count == guest::offset(descs, cap as nat, k as int),
                regions == guest::guest_regions(*mem),
            ensures
                k == gathers(regions, descs, cap as nat, 0),
                self.frame_buf@.skip(reads_end(regions, descs, cap as nat) as int) == old(
                    self,
                ).frame_buf@.skip(reads_end(regions, descs, cap as nat) as int),
                guest::guest_transfers(*mem) == before + gathering(
                    regions,
                    descs,
                    self.frame_buf@,
                ),
            decreases m - k,
        {
            let (addr, len) = self.iovec[k];
            proof {
                guest::lemma_offset_step(descs, cap as nat, k as int);
            }
            let limit: usize = if len <= cap - count {
                count + len
            } else {
                cap
            };
            let ghost frame = self.frame_buf@;
            let (_, rest) = self.frame_buf.as_mut_slice().split_at_mut(count);
            let (part, _) = rest.split_at_mut(limit - count);
            let read = read_guest(mem, part, addr);
            let ghost got = part@;
            proof {
                let run = guest::mapped_run(regions, addr as int, (limit - count) as nat);
                guest::lemma_mapped_run(regions, addr as int, (limit - count) as nat);
                assert(self.frame_buf@.subrange(count as int, limit as int) =~= got);
                assert(self.frame_buf@.subrange(count as int, count + run) =~= got.take(
                    run as int,
                ));
                assert(self.frame_buf@.take(count as int) =~= frame.take(count as int));
                let origin = old(self).frame_buf@;
                assert forall|i: int| count + run <= i < cap implies self.frame_buf@[i]
                    == origin[i] by {
                    assert(frame.skip(count as int)[i - count] == origin.skip(count as int)[i
                        - count]);
                    if i < limit {
                        assert(got.skip(run as int)[i - count - run] == frame[i]);
                    }
                }
                assert(self.frame_buf@.skip(count + run) =~= origin.skip(count + run));
                lemma_transfers_kept(regions, descs, frame, self.frame_buf@, k as int);
                assert(guest::guest_transfers(*mem) =~= before + guest::transfers(
                    regions,
                    descs,
                    self.frame_buf@,
                    false,
                    (k + 1) as nat,
                ));
            }
            if read.is_err() {
                break;
            }
            count = limit;
            k = k + 1;
        }
        self.iovec.clear();
        count
    }
}

/// What comes into a frame behind the part of descriptor `k` leaves the earlier transfers alone.
proof fn lemma_transfers_kept(
    regions: Seq<(u64, u64)>,
    descriptors: Seq<Descriptor>,
    before: Seq<u8>,
    after: Seq<u8>,
    k: int,
)
    requires
        0 <= k <= descriptors.len(),
        before.len() == after.len(),
        before.take(guest::offset(descriptors, before.len(), k) as int) == after.take(
            guest::offset(descriptors, before.len(), k) as int,
        ),
    ensures
        forall|j: int|
            0 <= j < k ==> #[trigger] guest::transfer(regions, descriptors, before, false, j)
                == guest::transfer(regions, descriptors, after, false, j),
{
    let cap = before.len();
    let end = guest::offset(descriptors, cap, k);
    assert forall|j: int| 0 <= j < k implies #[trigger] guest::transfer(
        regions,
        descriptors,
        before,
        false,
        j,
    ) == guest::transfer(regions, descriptors, after, false, j) by {
        guest::lemma_offset_step(descriptors, cap, j);
        guest::lemma_offset_monotonic(descriptors, cap, j + 1, k);
        let from = guest::offset(descriptors, cap, j);
        let len = (guest::offset(descriptors, cap, j + 1) - from) as nat;
        guest::lemma_mapped_run(regions, descriptors[j].addr as int, len);
        let to = from + guest::mapped_run(regions, descriptors[j].addr as int, len);
        assert(before.subrange(from as int, to as int) =~= before.take(end as int).subrange(
            from as int,
            to as int,
        ));
        assert(after.subrange(from as int, to as int) =~= after.take(end as int).subrange(
            from as int,
            to as int,
        ));
    }
}

proof fn lemma_gathers(regions: Seq<(u64, u64)>, descriptors: Seq<Descriptor>, cap: nat, k: int)
    requires
        0 <= k <= descriptors.len(),
    ensures
        k <= gathers(regions, descriptors, cap, k) <= guest::leading(descriptors, false, k),
        forall|i: int|
            k <= i < gathers(regions, descriptors, cap, k) ==> guest::accessible(
                regions,
                (#[trigger] descriptors[i]).addr,
                (guest::offset(descriptors, cap, i + 1) - guest::offset(
                    descriptors,
                    cap,
                    i,
                )) as nat,
            ),
    decreases descriptors.len() - k,
{
    if k < descriptors.len() {
        lemma_gathers(regions, descriptors, cap, k + 1);
    }
    guest::lemma_leading(descriptors, false, k);
}

/// A frame never grows longer than its buffer.
pub proof fn law_gathered_is_bounded(
    regions: Seq<(u64, u64)>,
    descriptors: Seq<Descriptor>,
    cap: nat,
)
    ensures
        gathered(regions, descriptors, cap) <= cap,
{
}

proof fn lemma_gathers_all(
    regions: Seq<(u64, u64)>,
    descriptors: Seq<Descriptor>,
    cap: nat,
    m: int,
    k: int,
)
    requires
        0 <= k <= m <= descriptors.len(),
        guest::all_accessible(regions, descriptors.take(m)),
        forall|i: int| 0 <= i < m ==> !(#[trigger] descriptors[i]).write_only,
        m < descriptors.len() ==> descriptors[m].write_only,
    ensures
        gathers(regions, descriptors, cap, k) == m,
    decreases m - k,
{
    if k < m {
        guest::lemma_offset_step(descriptors, cap, k);
        assert(descriptors.take(m)[k] == descriptors[k]);
        lemma_gathers_all(regions, descriptors, cap, m, k + 1);
    }
}

/// Where guest memory maps the buffers that the device may read, a frame is as long as those
/// buffers together, or as its own buffer where that is shorter.
pub proof fn law_frame_joins_readable_buffers(
    regions: Seq<(u64, u64)>,
    descriptors: Seq<Descriptor>,
    cap: nat,
)
    requires
        guest::all_accessible(
            regions,
            descriptors.take(guest::leading(descriptors, false, 0)),
        ),
    ensures
        gathered(regions, descriptors, cap) == if guest::total_len(
            descriptors.take(guest::leading(descriptors, false, 0)),
        ) <= cap {
            guest::total_len(descriptors.take(guest::leading(descriptors, false, 0)))
        } else {
            cap
        },
{
    guest::lemma_leading(descriptors, false, 0);
    lemma_gathers_all(
        regions,
        descriptors,
        cap,
        guest::leading(descriptors, false, 0),
        0,
    );
}

/// A gathered frame is what the reads brought out of guest memory, one behind the other.
pub proof fn law_gathering_fills_the_frame_in_order(
    regions: Seq<(u64, u64)>,
    descriptors: Seq<Descriptor>,
    frame: Seq<u8>,
)
    ensures
        guest::payload(gathering(regions, descriptors, frame)) == frame.take(
            reads_end(regions, descriptors, frame.len()) as int,
        ),
        gathered(regions, descriptors, frame.len()) <= reads_end(
            regions,
            descriptors,
            frame.len(),
        ) <= frame.len(),
{
    let n = gathers(regions, descriptors, frame.len(), 0);
    lemma_gathers(regions, descriptors, frame.len(), 0);
    guest::lemma_leading(descriptors, false, 0);
    guest::lemma_transfers_payload(regions, descriptors, frame, false, n as nat);
    if n < guest::leading(descriptors, false, 0) {
        guest::lemma_offset_step(descriptors, frame.len(), n);
        guest::lemma_partial_transfer_payload(regions, descriptors, frame, false, n as nat);
    }
}

#[verifier::rlimit(60)]
proof fn lemma_share(
    regions: Seq<(u64, u64)>,
    descriptors: Seq<Descriptor>,
    frame: Seq<u8>,
    i: int,
)
    requires
        0 <= i < gathering(regions, descriptors, frame).len(),
    ensures
        ({
            let log = gathering(regions, descriptors, frame);
            let from = guest::offset(descriptors, frame.len(), i);
            &&& i < guest::leading(descriptors, false, 0) <= descriptors.len()
            &&& i <= gathers(regions, descriptors, frame.len(), 0)
            &&& guest::payload(log.take(i)) == frame.take(from as int)
            &&& from <= frame.len()
            &&& rx::share(descriptors, frame.len(), log, i) == guest::offset(
                descriptors,
                frame.len(),
                i + 1,
            ) - from
            &&& log[i] == guest::transfer(regions, descriptors, frame, false, i)
        }),
{
    let log = gathering(regions, descriptors, frame);
    lemma_gathers(regions, descriptors, frame.len(), 0);
    guest::lemma_leading(descriptors, false, 0);
    guest::lemma_transfers_payload(regions, descriptors, frame, false, i as nat);
    guest::lemma_offset_step(descriptors, frame.len(), i);
    assert(log.take(i) =~= guest::transfers(regions, descriptors, frame, false, i as nat));
}

/// Gathering from descriptor `k` on ends behind it and before the first descriptor that the device
/// may not read.
proof fn lemma_gathers_end(regions: Seq<(u64, u64)>, descriptors: Seq<Descriptor>, cap: nat, k: int)
    requires
        0 <= k <= descriptors.len(),
    ensures
        k <= gathers(regions, descriptors, cap, k) <= guest::leading(descriptors, false, k)
            <= descriptors.len(),
    decreases descriptors.len() - k,
{
    if k < descriptors.len() {
        lemma_gathers_end(regions, descriptors, cap, k + 1);
    }
}

/// Descriptor `i` gives its part where gathering from descriptor `k` on goes beyond it, and where
/// gathering ends at it though the device may read it, guest memory does not map its part.
#[verifier::rlimit(60)]
proof fn lemma_gather_at(
    regions: Seq<(u64, u64)>,
    descriptors: Seq<Descriptor>,
    cap: nat,
    k: int,
    i: int,
)
    requires
        0 <= k <= i < descriptors.len(),
    ensures
        ({
            let n = gathers(regions, descriptors, cap, k);
            let part = (guest::offset(descriptors, cap, i + 1) - guest::offset(
                descriptors,
                cap,
                i,
            )) as nat;
            &&& i < n ==> !descriptors[i].write_only && guest::accessible(
                regions,
                descriptors[i].addr,
                part,
            )
            &&& i == n && !descriptors[i].write_only ==> !guest::accessible(
                regions,
                descriptors[i].addr,
                part,
            )
            &&& i < guest::leading(descriptors, false, k) ==> !descriptors[i].write_only
        }),
    decreases i - k,
{
    if k < i {
        lemma_gather_at(regions, descriptors, cap, k + 1, i);
    } else {
        lemma_gathers_end(regions, descriptors, cap, k + 1);
    }
}

/// What transfer `i` of a gathering moves, by where its part of the frame begins and ends.
#[verifier::rlimit(60)]
proof fn lemma_moved(
    regions: Seq<(u64, u64)>,
    descriptors: Seq<Descriptor>,
    frame: Seq<u8>,
    i: int,
)
    requires
        0 <= i < gathering(regions, descriptors, frame).len(),
    ensures
        ({
            let log = gathering(regions, descriptors, frame);
            let part = guest::offset(descriptors, frame.len(), i + 1) - guest::offset(
                descriptors,
                frame.len(),
                i,
            );
            let moved = log[i].2.len();
            let addr = descriptors[i].addr as int;
            &&& !descriptors[i].write_only
            &&& moved <= part
            &&& forall|a: int| addr <= a < addr + moved ==> #[trigger] guest::mapped(regions, a)
            &&& moved < part ==> i == log.len() - 1 && !guest::mapped(regions, addr + moved)
            &&& i < gathers(regions, descriptors, frame.len(), 0) <==> guest::accessible(
                regions,
                descriptors[i].addr,
                part as nat,
            )
        }),
{
    lemma_gathers_end(regions, descriptors, frame.len(), 0);
    lemma_gather_at(regions, descriptors, frame.len(), 0, i);
    guest::lemma_transfer(regions, descriptors, frame, false, i);
    assert(gathering(regions, descriptors, frame)[i] == guest::transfer(
        regions,
        descriptors,
        frame,
        false,
        i,
    ));
}

/// Gathering goes through the buffers of a chain one by one: transfer `i` reads from the address of
/// buffer `i`, which the device may read, and moves all of the buffer that the frame has room for, or
/// what lies before the first byte that guest memory does not map, and then it is the last.
#[verifier::rlimit(60)]
pub proof fn law_each_buffer_gives_its_share(
    regions: Seq<(u64, u64)>,
    descriptors: Seq<Descriptor>,
    frame: Seq<u8>,
    i: int,
)
    requires
        0 <= i < gathering(regions, descriptors, frame).len(),
    ensures
        ({
            let log = gathering(regions, descriptors, frame);
            let moved = log[i].2.len();
            &&& i < descriptors.len()
            &&& !descriptors[i].write_only
            &&& !log[i].0
            &&& log[i].1 == descriptors[i].addr
            &&& moved <= rx::share(descriptors, frame.len(), log, i)
            &&& forall|a: int|
                descriptors[i].addr <= a < descriptors[i].addr + moved ==> #[trigger] guest::mapped(
                    regions,
                    a,
                )
            &&& moved < rx::share(descriptors, frame.len(), log, i) ==> {
                &&& i == log.len() - 1
                &&& !guest::mapped(regions, descriptors[i].addr + moved)
            }
        }),
{
    lemma_share(regions, descriptors, frame, i);
    lemma_moved(regions, descriptors, frame, i);
}

/// The gathered parts fill a frame up to where the last of them ends.
proof fn lemma_gathered_payload(
    regions: Seq<(u64, u64)>,
    descriptors: Seq<Descriptor>,
    frame: Seq<u8>,
)
    ensures
        ({
            let m = gathers(regions, descriptors, frame.len(), 0);
            let end = guest::offset(descriptors, frame.len(), m);
            &&& end <= frame.len()
            &&& guest::payload(
                guest::transfers(regions, descriptors, frame, false, m as nat),
            ) == frame.take(end as int)
        }),
{
    let m = gathers(regions, descriptors, frame.len(), 0);
    lemma_gathers_end(regions, descriptors, frame.len(), 0);
    lemma_gathers(regions, descriptors, frame.len(), 0);
    guest::lemma_offset_monotonic(descriptors, frame.len(), m, m);
    guest::lemma_transfers_payload(regions, descriptors, frame, false, m as nat);
}

/// Gathering does not stop early: where it stops, the chain is used up, the next buffer is one that
/// the device may not read, or guest memory does not map all that the last buffer was to give.
#[verifier::rlimit(60)]
pub proof fn law_gathering_stops_for_a_reason(
    regions: Seq<(u64, u64)>,
    descriptors: Seq<Descriptor>,
    frame: Seq<u8>,
)
    ensures
        ({
            let log = gathering(regions, descriptors, frame);
            let n = log.len() as int;
            &&& n <= descriptors.len()
            &&& n == descriptors.len() || descriptors[n].write_only || (n > 0
                && !guest::accessible(
                regions,
                descriptors[n - 1].addr,
                rx::share(descriptors, frame.len(), log, n - 1) as nat,
            ))
        }),
{
    let m = gathers(regions, descriptors, frame.len(), 0);
    let leading = guest::leading(descriptors, false, 0);
    lemma_gathers_end(regions, descriptors, frame.len(), 0);
    if m < descriptors.len() {
        lemma_gather_at(regions, descriptors, frame.len(), 0, m);
    }
    if m < leading {
        lemma_share(regions, descriptors, frame, m);
    } else {
        guest::lemma_leading(descriptors, false, 0);
    }
}

/// What counts as gathered is what the transfers moved that found all of their bytes mapped.
#[verifier::rlimit(60)]
pub proof fn law_only_whole_transfers_count(
    regions: Seq<(u64, u64)>,
    descriptors: Seq<Descriptor>,
    frame: Seq<u8>,
)
    ensures
        ({
            let log = gathering(regions, descriptors, frame);
            let n = log.len() as int;
            let whole = n == 0 || guest::accessible(
                regions,
                descriptors[n - 1].addr,
                rx::share(descriptors, frame.len(), log, n - 1) as nat,
            );
            gathered(regions, descriptors, frame.len()) == guest::payload(
                if whole {
                    log
                } else {
                    log.take(n - 1)
                },
            ).len()
        }),
{
    let log = gathering(regions, descriptors, frame);
    let n = log.len() as int;
    let m = gathers(regions, descriptors, frame.len(), 0);
    lemma_gathers_end(regions, descriptors, frame.len(), 0);
    lemma_gathered_payload(regions, descriptors, frame);
    assert(log.take(m) =~= guest::transfers(regions, descriptors, frame, false, m as nat));
    if n > 0 {
        lemma_share(regions, descriptors, frame, n - 1);
        lemma_moved(regions, descriptors, frame, n - 1);
    }
    if n == m {
        assert(log.take(m) =~= log);
    }
}

/// A frame that was placed in buffers of a chain is gathered again from the same buffers in full,
/// where guest memory maps them and they hold the whole frame and no more.
pub proof fn law_gathering_mirrors_placing(
    regions: Seq<(u64, u64)>,
    writable: Seq<Descriptor>,
    readable: Seq<Descriptor>,
    frame_len: nat,
    cap: nat,
)
    requires
        guest::all_accessible(regions, writable),
        writable.len() == readable.len(),
        forall|i: int| 0 <= i < writable.len() ==> (#[trigger] writable[i]).write_only,
        forall|i: int|
            0 <= i < readable.len() ==> !(#[trigger] readable[i]).write_only && readable[i].addr
                == writable[i].addr && readable[i].len == writable[i].len,
        guest::total_len(writable) == frame_len,
        frame_len <= cap,
    ensures
        rx::placed(regions, writable, frame_len) == frame_len,
        gathered(regions, readable, cap) == frame_len,
{
    guest::lemma_leading(writable, true, 0);
    guest::lemma_leading(readable, false, 0);
    assert(writable.take(writable.len() as int) =~= writable);
    assert(readable.take(readable.len() as int) =~= readable);
    rx::law_frame_fills_writable_buffers(regions, writable, frame_len);
    assert forall|i: int| 0 <= i < readable.len() implies guest::accessible(
        regions,
        (#[trigger] readable[i]).addr,
        readable[i].len as nat,
    ) by {
        assert(guest::accessible(regions, writable[i].addr, writable[i].len as nat));
    }
    lemma_same_total(writable, readable);
    law_frame_joins_readable_buffers(regions, readable, cap);
}

proof fn lemma_same_total(a: Seq<Descriptor>, b: Seq<Descriptor>)
    requires
        a.len() == b.len(),
        forall|i: int| 0 <= i < a.len() ==> (#[trigger] a[i]).len == b[i].len,
    ensures
        guest::total_len(a) == guest::total_len(b),
    decreases a.len(),
{
    if a.len() > 0 {
        lemma_same_total(a.drop_last(), b.drop_last());
        assert(a[a.len() - 1].len == b[b.len() - 1].len);
    }
}

} // verus!
