use vhost_user_net::guest::{Descriptor, DescriptorChain};
use vhost_user_net::rx::{place_frame, RxVirtio, MAX_BUFFER_SIZE};
use vhost_user_net::tx::TxVirtio;
use vm_memory::{Bytes, GuestAddress, GuestMemoryMmap};

fn memory() -> GuestMemoryMmap {
    GuestMemoryMmap::from_ranges(&[
        (GuestAddress(0x1000), 0x100),
        (GuestAddress(0x1100), 0x100),
        (GuestAddress(0x8000), 0x1_0000),
    ])
    .unwrap()
}

fn chain(descriptors: Vec<(u64, u32, bool)>) -> DescriptorChain {
    DescriptorChain {
        head_index: 7,
        descriptors: descriptors
            .into_iter()
            .map(|(addr, len, write_only)| Descriptor { addr, len, write_only })
            .collect(),
    }
}

fn frame(len: usize) -> Vec<u8> {
    (0..len).map(|i| (i % 251 + 1) as u8).collect()
}

fn held(mem: &GuestMemoryMmap, addr: u64, len: usize) -> Vec<u8> {
    let mut buf = vec![0u8; len];
    mem.read_slice(&mut buf, GuestAddress(addr)).unwrap();
    buf
}

#[test]
fn frame_goes_into_one_buffer() {
    let mut mem = memory();
    let f = frame(60);
    assert_eq!(place_frame(&f, &mut mem, &chain(vec![(0x1010, 100, true)])), 60);
    assert_eq!(held(&mem, 0x1010, 60), f);
    assert_eq!(held(&mem, 0x1010 + 60, 4), vec![0, 0, 0, 0]);
}

#[test]
fn frame_spans_buffers_in_order() {
    let mut mem = memory();
    let f = frame(60);
    let c = chain(vec![(0x1000, 12, true), (0x8000, 20, true), (0x9000, 100, true)]);
    assert_eq!(place_frame(&f, &mut mem, &c), 60);
    assert_eq!(held(&mem, 0x1000, 12), f[..12]);
    assert_eq!(held(&mem, 0x8000, 20), f[12..32]);
    assert_eq!(held(&mem, 0x9000, 28), f[32..]);
    assert_eq!(held(&mem, 0x9000 + 28, 1), vec![0]);
}

#[test]
fn frame_crosses_adjacent_regions() {
    let mut mem = memory();
    let f = frame(32);
    assert_eq!(place_frame(&f, &mut mem, &chain(vec![(0x10f0, 32, true)])), 32);
    assert_eq!(held(&mem, 0x10f0, 32), f);
}

#[test]
fn frame_stops_at_a_readable_descriptor() {
    let mut mem = memory();
    let f = frame(60);
    let c = chain(vec![(0x1000, 12, true), (0x8000, 20, false), (0x9000, 100, true)]);
    assert_eq!(place_frame(&f, &mut mem, &c), 12);
    assert_eq!(held(&mem, 0x8000, 20), vec![0; 20]);
}

#[test]
fn frame_stops_with_the_chain() {
    let mut mem = memory();
    assert_eq!(place_frame(&frame(60), &mut mem, &chain(vec![(0x1000, 12, true)])), 12);
    assert_eq!(place_frame(&frame(60), &mut mem, &chain(vec![])), 0);
}

#[test]
fn frame_stops_outside_guest_memory() {
    let mut mem = memory();
    let f = frame(60);
    let c = chain(vec![(0x1000, 12, true), (0x11f0, 20, true), (0x9000, 100, true)]);
    assert_eq!(place_frame(&f, &mut mem, &c), 12);
    assert_eq!(held(&mem, 0x11f0, 16), f[12..28]);
    assert_eq!(held(&mem, 0x9000, 4), vec![0; 4]);
    assert_eq!(place_frame(&f, &mut mem, &chain(vec![(0x5000, 100, true)])), 0);
    assert_eq!(place_frame(&f, &mut mem, &chain(vec![(u64::MAX, 100, true)])), 0);
}

#[test]
fn empty_frame_is_placed_in_nothing() {
    let mut mem = memory();
    assert_eq!(place_frame(&[], &mut mem, &chain(vec![(0x1000, 12, true)])), 0);
    assert_eq!(place_frame(&[], &mut mem, &chain(vec![(0x5000, 12, true)])), 0);
}

#[test]
fn new_sides_hold_zeroes() {
    let rx = RxVirtio::new();
    assert_eq!(rx.frame_buf, vec![0u8; 65562]);
    assert!(!rx.state.deferred_frame && !rx.state.deferred_irqs && rx.state.bytes_read == 0);
    let tx = TxVirtio::new(256);
    assert_eq!(tx.frame_buf, vec![0u8; MAX_BUFFER_SIZE]);
    assert!(tx.iovec.is_empty());
}

#[test]
fn transmitted_frame_joins_buffers() {
    let mut mem = memory();
    mem.write_slice(&frame(12), GuestAddress(0x1000)).unwrap();
    mem.write_slice(&[9, 8, 7], GuestAddress(0x8000)).unwrap();
    let mut tx = TxVirtio::new(256);
    let c = chain(vec![(0x1000, 12, false), (0x8000, 3, false)]);
    assert_eq!(tx.gather_frame(&mut mem, &c), 15);
    assert_eq!(tx.frame_buf[..12], frame(12)[..]);
    assert_eq!(tx.frame_buf[12..16], [9, 8, 7, 0]);
    assert!(tx.iovec.is_empty());
}

#[test]
fn transmitted_frame_stops_at_a_writable_descriptor() {
    let mut mem = memory();
    let mut tx = TxVirtio::new(256);
    let c = chain(vec![(0x1000, 12, false), (0x8000, 3, true), (0x1000, 5, false)]);
    assert_eq!(tx.gather_frame(&mut mem, &c), 12);
    assert_eq!(tx.gather_frame(&mut mem, &chain(vec![(0x1000, 12, true)])), 0);
}

#[test]
fn transmitted_frame_stops_outside_guest_memory() {
    let mut mem = memory();
    mem.write_slice(&frame(16), GuestAddress(0x11f0)).unwrap();
    let mut tx = TxVirtio::new(256);
    tx.frame_buf[30] = 99;
    let c = chain(vec![(0x1000, 12, false), (0x11f0, 20, false), (0x8000, 5, false)]);
    assert_eq!(tx.gather_frame(&mut mem, &c), 12);
    assert_eq!(tx.frame_buf[12..28], frame(16)[..]);
    assert_eq!(tx.frame_buf[30], 99);
}

#[test]
fn transmitted_frame_is_cut_at_its_buffer() {
    let mut mem = memory();
    let mut tx = TxVirtio::new(256);
    let c = chain(vec![(0x8000, 0x1_0000, false), (0x1000, 0x100, false), (0x8000, 9, false)]);
    assert_eq!(tx.gather_frame(&mut mem, &c), MAX_BUFFER_SIZE);
}

#[test]
fn frame_comes_back_from_guest_memory() {
    let mut mem = memory();
    let f = frame(1500);
    let out = chain(vec![(0x1000, 64, true), (0x8000, 2000, true)]);
    let back = chain(vec![(0x1000, 64, false), (0x8000, 1436, false)]);
    assert_eq!(place_frame(&f, &mut mem, &out), 1500);
    let mut tx = TxVirtio::new(256);
    assert_eq!(tx.gather_frame(&mut mem, &back), 1500);
    assert_eq!(tx.frame_buf[..1500], f[..]);
}

#[test]
fn attempts_start_at_the_first_byte() {
    let mut mem = memory();
    let f = frame(60);
    assert_eq!(place_frame(&f, &mut mem, &chain(vec![(0x1000, 10, true)])), 10);
    assert_eq!(place_frame(&f, &mut mem, &chain(vec![(0x8000, 100, true)])), 60);
    assert_eq!(held(&mem, 0x1000, 10), f[..10]);
    assert_eq!(held(&mem, 0x8000, 60), f);
}
