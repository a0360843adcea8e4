//! Guest memory, and the descriptor chains that name buffers in it.
use vm_memory::{Bytes, GuestAddress, GuestMemoryError, GuestMemoryMmap};
use vstd::prelude::*;

verus! {

/// `vm_memory::GuestMemoryMmap`, the memory of a guest: a collection of mapped regions.
#[verifier::external_type_specification]
#[verifier::external_body]
pub struct ExGuestMemoryMmap(vm_memory::GuestMemoryMmap);

/// `vm_memory::GuestMemoryError`, why an access to guest memory failed.
#[verifier::external_type_specification]
#[verifier::external_body]
pub struct ExGuestMemoryError(vm_memory::GuestMemoryError);

/// The regions of `mem`: for each, its first guest address and its length in bytes.
pub uninterp spec fn guest_regions(mem: GuestMemoryMmap) -> Seq<(u64, u64)>;

/// The transfers that have gone through the handle `mem`, oldest first: whether bytes went into
/// guest memory, the guest address, and the bytes. It says nothing of what guest memory holds at
/// any time, which is for the guest to change.
pub uninterp spec fn guest_transfers(mem: GuestMemoryMmap) -> Seq<(bool, u64, Seq<u8>)>;

/// Whether `regions` map the guest address `addr`.
pub open spec fn mapped(regions: Seq<(u64, u64)>, addr: int) -> bool {
    exists|i: int|
        0 <= i < regions.len() && (#[trigger] regions[i]).0 <= addr < regions[i].0 + regions[i].1
}

/// Whether `regions` map `len` bytes from `addr` on, and `addr` itself even where `len` is zero.
pub open spec fn accessible(regions: Seq<(u64, u64)>, addr: u64, len: nat) -> bool {
    mapped(regions, addr as int) && forall|a: int|
        addr <= a < addr + len ==> #[trigger] mapped(regions, a)
}

/// How many of the `len` bytes from `addr` on lie before the first one that `regions` do not map.
pub open spec fn mapped_run(regions: Seq<(u64, u64)>, addr: int, len: nat) -> nat
    decreases len,
{
    if len == 0 || !mapped(regions, addr) {
        0
    } else {
        1 + mapped_run(regions, addr + 1, (len - 1) as nat)
    }
}

/// `<vm_memory::GuestMemoryMmap as vm_memory::Bytes<vm_memory::GuestAddress>>::write_slice`. It
/// copies `data` to `addr` up to the first unmapped byte, and succeeds where it met none. The
/// regions stay as they are.
#[verifier::external_body]
pub(crate) fn write_guest(mem: &mut GuestMemoryMmap, data: &[u8], addr: u64) -> (r: Result<
    (),
    GuestMemoryError,
>)
    ensures
        r is Ok <==> accessible(guest_regions(*old(mem)), addr, data@.len()),
        guest_regions(*final(mem)) == guest_regions(*old(mem)),
        guest_transfers(*final(mem)) == guest_transfers(*old(mem)).push(
            (
                true,
                addr,
                data@.take(mapped_run(guest_regions(*old(mem)), addr as int, data@.len()) as int),
            ),
        ),
{
    mem.write_slice(data, GuestAddress(addr))
}

/// `<vm_memory::GuestMemoryMmap as vm_memory::Bytes<vm_memory::GuestAddress>>::read_slice`. It
/// copies what guest memory holds at `addr` into `data` up to the first unmapped byte, leaves the
/// rest of `data` alone, and succeeds where it met none. The regions stay as they are. Which bytes
/// guest memory holds is left open.
#[verifier::external_body]
pub(crate) fn read_guest(mem: &mut GuestMemoryMmap, data: &mut [u8], addr: u64) -> (r: Result<
    (),
    GuestMemoryError,
>)
    ensures
        r is Ok <==> accessible(guest_regions(*old(mem)), addr, old(data)@.len()),
        final(data)@.len() == old(data)@.len(),
        final(data)@.skip(
            mapped_run(guest_regions(*old(mem)), addr as int, old(data)@.len()) as int,
        ) == old(data)@.skip(
            mapped_run(guest_regions(*old(mem)), addr as int, old(data)@.len()) as int,
        ),
        guest_regions(*final(mem)) == guest_regions(*old(mem)),
        guest_transfers(*final(mem)) == guest_transfers(*old(mem)).push(
            (
                false,
                addr,
                final(data)@.take(
                    mapped_run(guest_regions(*old(mem)), addr as int, old(data)@.len()) as int,
                ),
            ),
        ),
{
    mem.read_slice(data, GuestAddress(addr))
}

/// A run of `mapped_run` covers everything exactly where every byte is mapped.
pub proof fn lemma_mapped_run(regions: Seq<(u64, u64)>, addr: int, len: nat)
    ensures
        mapped_run(regions, addr, len) <= len,
        forall|a: int|
            addr <= a < addr + mapped_run(regions, addr, len) ==> #[trigger] mapped(regions, a),
        mapped_run(regions, addr, len) < len ==> !mapped(
            regions,
            addr + mapped_run(regions, addr, len),
        ),
    decreases len,
{
    if len > 0 && mapped(regions, addr) {
        lemma_mapped_run(regions, addr + 1, (len - 1) as nat);
    }
}

/// What a device reads of one descriptor: a buffer in guest memory, and whether the device may
/// only write to it or only read from it.
#[derive(Clone, Copy, PartialEq, Eq, Structural, Debug)]
pub struct Descriptor {
    pub addr: u64,
    pub len: u32,
    pub write_only: bool,
}

/// A chain of descriptors that the driver made available, under the index of its first one.
pub struct DescriptorChain {
    pub head_index: u16,
    pub descriptors: Vec<Descriptor>,
}

/// The total length of the buffers of `descriptors`.
pub open spec fn total_len(descriptors: Seq<Descriptor>) -> nat
    decreases descriptors.len(),
{
    if descriptors.len() == 0 {
        0
    } else {
        total_len(descriptors.drop_last()) + descriptors.last().len as nat
    }
}

/// Where in a frame of at most `cap` bytes the buffer of descriptor `k` begins, and that of
/// descriptor `k - 1` ends.
pub open spec fn offset(descriptors: Seq<Descriptor>, cap: nat, k: int) -> nat {
    if total_len(descriptors.take(k)) <= cap {
        total_len(descriptors.take(k))
    } else {
        cap
    }
}

/// The offsets of a frame follow from one another.
pub proof fn lemma_offset_step(descriptors: Seq<Descriptor>, cap: nat, k: int)
    requires
        0 <= k < descriptors.len(),
    ensures
        total_len(descriptors.take(k + 1)) == total_len(descriptors.take(k)) + descriptors[k].len,
        offset(descriptors, cap, k) <= offset(descriptors, cap, k + 1) <= cap,
        offset(descriptors, cap, k + 1) - offset(descriptors, cap, k) <= descriptors[k].len,
        offset(descriptors, cap, k + 1) == if offset(descriptors, cap, k) + descriptors[k].len
            <= cap {
            offset(descriptors, cap, k) + descriptors[k].len
        } else {
            cap as int
        },
{
    assert(descriptors.take(k + 1).drop_last() =~= descriptors.take(k));
    assert(descriptors.take(k + 1).last() == descriptors[k]);
}

/// The offsets of a frame never fall.
pub proof fn lemma_offset_monotonic(descriptors: Seq<Descriptor>, cap: nat, i: int, j: int)
    requires
        0 <= i <= j <= descriptors.len(),
    ensures
        offset(descriptors, cap, i) <= offset(descriptors, cap, j) <= cap,
    decreases j - i,
{
    if i < j {
        lemma_offset_monotonic(descriptors, cap, i, j - 1);
        lemma_offset_step(descriptors, cap, j - 1);
    }
}

/// The transfer between descriptor `k` and its part of `frame`, up to the first unmapped byte.
pub open spec fn transfer(
    regions: Seq<(u64, u64)>,
    descriptors: Seq<Descriptor>,
    frame: Seq<u8>,
    into_guest: bool,
    k: int,
) -> (bool, u64, Seq<u8>) {
    let from = offset(descriptors, frame.len(), k);
    let to = offset(descriptors, frame.len(), k + 1);
    let run = mapped_run(regions, descriptors[k].addr as int, (to - from) as nat);
    (into_guest, descriptors[k].addr, frame.subrange(from as int, (from + run) as int))
}

/// The first descriptor from `k` on whose direction is not `write_only`, or the end of the chain.
pub open spec fn leading(descriptors: Seq<Descriptor>, write_only: bool, k: int) -> int
    decreases descriptors.len() - k,
{
    if k < 0 || k >= descriptors.len() || descriptors[k].write_only != write_only {
        k
    } else {
        leading(descriptors, write_only, k + 1)
    }
}

/// Every descriptor before the first of the other direction has the direction asked for.
pub proof fn lemma_leading(descriptors: Seq<Descriptor>, write_only: bool, k: int)
    requires
        0 <= k <= descriptors.len(),
    ensures
        k <= leading(descriptors, write_only, k) <= descriptors.len(),
        forall|i: int|
            k <= i < leading(descriptors, write_only, k) ==> (
            #[trigger] descriptors[i]).write_only == write_only,
        leading(descriptors, write_only, k) < descriptors.len() ==> descriptors[leading(
            descriptors,
            write_only,
            k,
        )].write_only != write_only,
    decreases descriptors.len() - k,
{
    if k < descriptors.len() && descriptors[k].write_only == write_only {
        lemma_leading(descriptors, write_only, k + 1);
    }
}

/// The bytes of `transfers`, one after the other.
pub open spec fn payload(transfers: Seq<(bool, u64, Seq<u8>)>) -> Seq<u8>
    decreases transfers.len(),
{
    if transfers.len() == 0 {
        Seq::empty()
    } else {
        payload(transfers.drop_last()) + transfers.last().2
    }
}

/// The first `n` transfers of a frame.
pub open spec fn transfers(
    regions: Seq<(u64, u64)>,
    descriptors: Seq<Descriptor>,
    frame: Seq<u8>,
    into_guest: bool,
    n: nat,
) -> Seq<(bool, u64, Seq<u8>)> {
    Seq::new(n, |k: int| transfer(regions, descriptors, frame, into_guest, k))
}

/// The bytes of one transfer more come behind those of the others.
pub proof fn lemma_payload_push(
    log: Seq<(bool, u64, Seq<u8>)>,
    last: (bool, u64, Seq<u8>),
)
    ensures
        payload(log.push(last)) == payload(log) + last.2,
{
    assert(log.push(last).drop_last() =~= log);
}

/// Where guest memory maps the parts of the first `n` descriptors, their transfers move the frame
/// up to where the last of them ends.
pub proof fn lemma_transfers_payload(
    regions: Seq<(u64, u64)>,
    descriptors: Seq<Descriptor>,
    frame: Seq<u8>,
    into_guest: bool,
    n: nat,
)
    requires
        n <= descriptors.len(),
        forall|i: int|
            0 <= i < n ==> accessible(
                regions,
                (#[trigger] descriptors[i]).addr,
                (offset(descriptors, frame.len(), i + 1) - offset(
                    descriptors,
                    frame.len(),
                    i,
                )) as nat,
            ),
    ensures
        payload(transfers(regions, descriptors, frame, into_guest, n)) == frame.take(
            offset(descriptors, frame.len(), n as int) as int,
        ),
    decreases n,
{
    let log = transfers(regions, descriptors, frame, into_guest, n);
    if n == 0 {
        assert(descriptors.take(0).len() == 0);
        assert(frame.take(0) =~= Seq::<u8>::empty());
    } else {
        lemma_transfers_payload(regions, descriptors, frame, into_guest, (n - 1) as nat);
        lemma_offset_step(descriptors, frame.len(), n - 1);
        let from = offset(descriptors, frame.len(), n - 1);
        let to = offset(descriptors, frame.len(), n as int);
        let addr = descriptors[n - 1].addr;
        lemma_mapped_run(regions, addr as int, (to - from) as nat);
        assert(accessible(regions, addr, (to - from) as nat));
        assert(log.drop_last() =~= transfers(
            regions,
            descriptors,
            frame,
            into_guest,
            (n - 1) as nat,
        ));
        assert(frame.take(from as int) + frame.subrange(from as int, to as int) =~= frame.take(
            to as int,
        ));
    }
}

/// One transfer more, of a part of which guest memory maps only a beginning, moves that beginning.
pub proof fn lemma_partial_transfer_payload(
    regions: Seq<(u64, u64)>,
    descriptors: Seq<Descriptor>,
    frame: Seq<u8>,
    into_guest: bool,
    n: nat,
)
    requires
        n < descriptors.len(),
        payload(transfers(regions, descriptors, frame, into_guest, n)) == frame.take(
            offset(descriptors, frame.len(), n as int) as int,
        ),
    ensures
        ({
            let from = offset(descriptors, frame.len(), n as int);
            let len = (offset(descriptors, frame.len(), (n + 1) as int) - from) as nat;
            let run = mapped_run(regions, descriptors[n as int].addr as int, len);
            &&& run <= len
            &&& payload(transfers(regions, descriptors, frame, into_guest, n + 1)) == frame.take(
                (from + run) as int,
            )
        }),
{
    let from = offset(descriptors, frame.len(), n as int);
    let len = (offset(descriptors, frame.len(), (n + 1) as int) - from) as nat;
    let run = mapped_run(regions, descriptors[n as int].addr as int, len);
    let log = transfers(regions, descriptors, frame, into_guest, n);
    let last = transfer(regions, descriptors, frame, into_guest, n as int);
    lemma_offset_step(descriptors, frame.len(), n as int);
    lemma_mapped_run(regions, descriptors[n as int].addr as int, len);
    assert(transfers(regions, descriptors, frame, into_guest, n + 1) =~= log.push(last));
    lemma_payload_push(log, last);
    assert(frame.take(from as int) + frame.subrange(from as int, (from + run) as int)
        =~= frame.take((from + run) as int));
}

/// Whether `regions` map all of every buffer of `descriptors`, and the address of each.
pub open spec fn all_accessible(
    regions: Seq<(u64, u64)>,
    descriptors: Seq<Descriptor>,
) -> bool {
    forall|i: int|
        0 <= i < descriptors.len() ==> accessible(
            regions,
            (#[trigger] descriptors[i]).addr,
            descriptors[i].len as nat,
        )
}

/// A transfer moves what lies before the first byte that guest memory does not map, and all of its
/// part where it maps that.
pub proof fn lemma_transfer(
    regions: Seq<(u64, u64)>,
    descriptors: Seq<Descriptor>,
    frame: Seq<u8>,
    into_guest: bool,
    k: int,
)
    requires
        0 <= k < descriptors.len(),
    ensures
        ({
            let part = offset(descriptors, frame.len(), k + 1) - offset(
                descriptors,
                frame.len(),
                k,
            );
            let moved = transfer(regions, descriptors, frame, into_guest, k).2.len();
            let addr = descriptors[k].addr as int;
            &&& 0 <= moved <= part
            &&& forall|a: int| addr <= a < addr + moved ==> #[trigger] mapped(regions, a)
            &&& moved < part ==> !mapped(regions, addr + moved)
            &&& accessible(regions, descriptors[k].addr, part as nat) ==> moved == part
        }),
{
    let part = (offset(descriptors, frame.len(), k + 1) - offset(
        descriptors,
        frame.len(),
        k,
    )) as nat;
    let addr = descriptors[k].addr as int;
    lemma_offset_step(descriptors, frame.len(), k);
    lemma_mapped_run(regions, addr, part);
    let run = mapped_run(regions, addr, part);
    assert(transfer(regions, descriptors, frame, into_guest, k).2.len() == run);
    if accessible(regions, descriptors[k].addr, part) && run < part {
        assert(mapped(regions, addr + run));
    }
}

} // verus!
