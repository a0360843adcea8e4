//! Constants of the kernel and virtio interfaces, and what the backends announce with them.
use vstd::prelude::*;

verus! {

/// `virtio_bindings::bindings::virtio_net::VIRTIO_NET_F_CSUM`: the feature's bit number is 0.
#[verifier::external_body]
fn virtio_net_f_csum() -> (bit: u32)
    ensures
        bit == 0,
{
    virtio_bindings::bindings::virtio_net::VIRTIO_NET_F_CSUM
}

/// `virtio_bindings::bindings::virtio_net::VIRTIO_NET_F_GUEST_CSUM`: the feature's bit number is 1.
#[verifier::external_body]
fn virtio_net_f_guest_csum() -> (bit: u32)
    ensures
        bit == 1,
{
    virtio_bindings::bindings::virtio_net::VIRTIO_NET_F_GUEST_CSUM
}

/// `virtio_bindings::bindings::virtio_net::VIRTIO_NET_F_GUEST_TSO4`: the feature's bit number is 7.
#[verifier::external_body]
fn virtio_net_f_guest_tso4() -> (bit: u32)
    ensures
        bit == 7,
{
    virtio_bindings::bindings::virtio_net::VIRTIO_NET_F_GUEST_TSO4
}

/// `virtio_bindings::bindings::virtio_net::VIRTIO_NET_F_GUEST_UFO`: the feature's bit number is 10.
#[verifier::external_body]
fn virtio_net_f_guest_ufo() -> (bit: u32)
    ensures
        bit == 10,
{
    virtio_bindings::bindings::virtio_net::VIRTIO_NET_F_GUEST_UFO
}

/// `virtio_bindings::bindings::virtio_net::VIRTIO_NET_F_HOST_TSO4`: the feature's bit number is 11.
#[verifier::external_body]
fn virtio_net_f_host_tso4() -> (bit: u32)
    ensures
        bit == 11,
{
    virtio_bindings::bindings::virtio_net::VIRTIO_NET_F_HOST_TSO4
}

/// `virtio_bindings::bindings::virtio_net::VIRTIO_NET_F_HOST_UFO`: the feature's bit number is 14.
#[verifier::external_body]
fn virtio_net_f_host_ufo() -> (bit: u32)
    ensures
        bit == 14,
{
    virtio_bindings::bindings::virtio_net::VIRTIO_NET_F_HOST_UFO
}

/// `virtio_bindings::bindings::virtio_net::VIRTIO_F_VERSION_1`: the feature's bit number is 32.
#[verifier::external_body]
fn virtio_f_version_1() -> (bit: u32)
    ensures
        bit == 32,
{
    virtio_bindings::bindings::virtio_net::VIRTIO_F_VERSION_1
}

/// `vhost::vhost_user::message::VhostUserVirtioFeatures::PROTOCOL_FEATURES`: its one bit is bit 30.
#[verifier::external_body]
fn protocol_features_flag() -> (bits: u64)
    ensures
        bits == 0x4000_0000u64,
{
    vhost::vhost_user::message::VhostUserVirtioFeatures::PROTOCOL_FEATURES.bits()
}

/// `vhost::vhost_user::message::VhostUserProtocolFeatures::all`: the seventeen flags that the crate
/// declares, which are the bits 0 to 16.
#[verifier::external_body]
fn all_protocol_features() -> (bits: u64)
    ensures
        bits == 0x1_ffffu64,
{
    vhost::vhost_user::message::VhostUserProtocolFeatures::all().bits()
}

/// `libc::TUN_F_CSUM`, the tap offload flag for checksums.
#[verifier::external_body]
fn tun_f_csum() -> (flag: u32)
    ensures
        flag == 0x01,
{
    libc::TUN_F_CSUM
}

/// `libc::TUN_F_TSO4`, the tap offload flag for TCP segmentation over IPv4.
#[verifier::external_body]
fn tun_f_tso4() -> (flag: u32)
    ensures
        flag == 0x02,
{
    libc::TUN_F_TSO4
}

/// `libc::TUN_F_UFO`, the tap offload flag for UDP fragmentation.
#[verifier::external_body]
fn tun_f_ufo() -> (flag: u32)
    ensures
        flag == 0x10,
{
    libc::TUN_F_UFO
}

/// `libc::EAGAIN`, the error number of a read that would block. It is 11 on Linux, the only system
/// with the interfaces that a backend needs.
#[verifier::external_body]
fn eagain() -> (errno: i32)
    ensures
        errno == 11,
{
    libc::EAGAIN
}

/// `epoll::Events::EPOLLIN`, the event set of a descriptor that can be read. Its bits are 1.
#[verifier::external_body]
fn epollin() -> (bits: u32)
    ensures
        bits == 1,
{
    epoll::Events::EPOLLIN.bits()
}

/// The size of `virtio_bindings::bindings::virtio_net::virtio_net_hdr_v1`: two bytes and five
/// 16-bit fields.
#[verifier::external_body]
fn virtio_net_hdr_v1_size() -> (size: usize)
    ensures
        size == 12,
{
    std::mem::size_of::<virtio_bindings::bindings::virtio_net::virtio_net_hdr_v1>()
}

/// Whether bit `i` of `word` is set.
pub open spec fn has_bit(word: u64, i: u64) -> bool {
    (word >> i) & 1 == 1
}

/// The virtio feature bits that a backend offers: checksum offload, IPv4 TCP segmentation and UDP
/// fragmentation in both directions, the vhost-user protocol features, and virtio 1.0.
pub open spec fn offered(i: u64) -> bool {
    i == 0 || i == 1 || i == 7 || i == 10 || i == 11 || i == 14 || i == 30 || i == 32
}

/// The virtio features that a backend offers to the guest.
pub fn features() -> (word: u64)
    ensures
        word == 0x1_4000_4c83,
        forall|i: u64| i < 64 ==> #[trigger] has_bit(word, i) == offered(i),
{
    let word: u64 = 1u64 << virtio_net_f_guest_csum()
        | 1u64 << virtio_net_f_csum()
        | 1u64 << virtio_net_f_guest_tso4()
        | 1u64 << virtio_net_f_guest_ufo()
        | 1u64 << virtio_net_f_host_tso4()
        | 1u64 << virtio_net_f_host_ufo()
        | 1u64 << virtio_f_version_1()
        | protocol_features_flag();
    assert(word == 1u64 << 1u32 | 1u64 << 0u32 | 1u64 << 7u32 | 1u64 << 10u32 | 1u64 << 11u32 | 1u64
        << 14u32 | 1u64 << 32u32 | 0x4000_0000u64);
    assert(1u64 << 1u32 | 1u64 << 0u32 | 1u64 << 7u32 | 1u64 << 10u32 | 1u64 << 11u32 | 1u64 << 14u32
        | 1u64 << 32u32 | 0x4000_0000u64 == 0x1_4000_4c83u64) by (bit_vector);
    assert forall|i: u64| i < 64 implies #[trigger] has_bit(word, i) == offered(i) by {
        assert((word >> i) & 1 == 1 <==> i == 0 || i == 1 || i == 7 || i == 10 || i == 11 || i == 14
            || i == 30 || i == 32) by (bit_vector)
            requires
                i < 64,
                word == 0x1_4000_4c83u64,
        ;
    }
    word
}

/// The vhost-user protocol features that a backend supports: all that there are.
pub fn protocol_features() -> (word: u64)
    ensures
        word == 0x1_ffff,
        forall|i: u64| i < 64 ==> #[trigger] has_bit(word, i) == (i < 17),
{
    let word: u64 = all_protocol_features();
    assert forall|i: u64| i < 64 implies #[trigger] has_bit(word, i) == (i < 17) by {
        assert((word >> i) & 1 == 1 <==> i < 17) by (bit_vector)
            requires
                i < 64,
                word == 0x1_ffffu64,
        ;
    }
    word
}

/// The offload flags of a tap device that a backend sets: checksums (bit 0), TCP segmentation over
/// IPv4 (bit 1) and UDP fragmentation (bit 4).
pub open spec fn offloaded(i: u64) -> bool {
    i == 0 || i == 1 || i == 4
}

/// The offload flags for a tap device, which match the virtio features.
pub fn offload_flags() -> (flags: u32)
    ensures
        flags == 0x13,
        forall|i: u64| i < 64 ==> #[trigger] has_bit(flags as u64, i) == offloaded(i),
{
    let flags: u32 = tun_f_csum() | tun_f_ufo() | tun_f_tso4();
    assert(flags == 0x01u32 | 0x10u32 | 0x02u32);
    assert(0x01u32 | 0x10u32 | 0x02u32 == 0x13u32) by (bit_vector);
    assert forall|i: u64| i < 64 implies #[trigger] has_bit(flags as u64, i) == offloaded(i) by {
        assert(((flags as u64) >> i) & 1 == 1 <==> i == 0 || i == 1 || i == 4) by (bit_vector)
            requires
                i < 64,
                flags == 0x01u32 | 0x10u32 | 0x02u32,
        ;
    }
    flags
}

/// The virtio feature by which a guest accepts the frames that tap offload flag `i` allows:
/// checksums left open, TCP segments over IPv4, over IPv6 and with ECN, and UDP fragments.
pub open spec fn accepting_feature(i: u64) -> u64 {
    if i == 0 {
        1
    } else {
        (i + 6) as u64
    }
}

/// A tap device is set to offload exactly what the guest is offered a feature to accept.
pub proof fn law_offloads_match_features(i: u64)
    requires
        i <= 4,
    ensures
        offloaded(i) == offered(accepting_feature(i)),
{
}

/// The length of the header in front of every frame.
pub fn vnet_hdr_len() -> (len: usize)
    ensures
        len == 12,
{
    virtio_net_hdr_v1_size()
}

/// The event set that a backend handles: the descriptor can be read.
pub fn readable_events() -> (bits: u32)
    ensures
        bits == 1,
{
    epollin()
}

/// An entry of an event loop: a descriptor, the events of interest, and what the loop reports for
/// them.
#[derive(Clone, Copy, PartialEq, Eq, Structural, Debug)]
pub struct Interest {
    pub epoll_fd: i32,
    pub fd: i32,
    pub events: u32,
    pub data: u64,
}

impl Interest {
    /// The entries of event loops, by loop and descriptor, once this one is added.
    pub open spec fn added(self, entries: Map<(i32, i32), (u32, u64)>) -> Map<
        (i32, i32),
        (u32, u64),
    > {
        entries.insert((self.epoll_fd, self.fd), (self.events, self.data))
    }

    /// The entries of event loops, by loop and descriptor, once this one is taken out.
    pub open spec fn removed(self, entries: Map<(i32, i32), (u32, u64)>) -> Map<
        (i32, i32),
        (u32, u64),
    > {
        entries.remove((self.epoll_fd, self.fd))
    }
}

/// What a read from a tap device brought.
#[derive(Clone, Copy, PartialEq, Eq, Structural, Debug)]
pub enum TapRead {
    /// A frame of so many bytes.
    Frame(usize),
    /// No frame for now.
    Empty,
    /// An error.
    Failed,
}

/// What the outcome of a read means: its byte count, or the error number of the operating system
/// where it gave one. The device does not block, so an error other than `EAGAIN` is unexpected.
pub open spec fn tap_read(outcome: Result<usize, Option<i32>>) -> TapRead {
    match outcome {
        Ok(count) => TapRead::Frame(count),
        Err(errno) => if errno == Some(11i32) {
            TapRead::Empty
        } else {
            TapRead::Failed
        },
    }
}

/// Tells a frame, an empty device and an error apart.
pub fn classify_tap_read(outcome: Result<usize, Option<i32>>) -> (read: TapRead)
    ensures
        read == tap_read(outcome),
{
    match outcome {
        Ok(count) => TapRead::Frame(count),
        Err(Some(errno)) => if errno == eagain() {
            TapRead::Empty
        } else {
            TapRead::Failed
        },
        Err(None) => TapRead::Failed,
    }
}

/// A read that succeeds brings a frame of exactly the bytes that it reports, whatever their number.
pub proof fn law_read_brings_what_it_reports(count: usize)
    ensures
        tap_read(Ok(count)) == TapRead::Frame(count),
{
}

/// A read that fails finds the device empty where it would have blocked, and has failed on every
/// other error, with a number or without one.
pub proof fn law_only_blocking_is_no_failure(errno: Option<i32>)
    ensures
        tap_read(Err(errno)) is Empty <==> errno == Some(11i32),
        tap_read(Err(errno)) is Failed <==> errno != Some(11i32),
{
}

} // verus!
