use vhost_user_net::abi::Interest;
use vhost_user_net::guest::{Descriptor, DescriptorChain};
use vhost_user_net::ipv4::Ipv4Addr;
use vhost_user_net::single_queue::backend::VhostUserNetBackend;
use vhost_user_net::single_queue::flow::{
    Effect, Phase, KILL_EVENT, NET_EVENTS_COUNT, RX_QUEUE_EVENT, RX_TAP_EVENT, TX_QUEUE_EVENT,
};
use vhost_user_net::single_queue::setup::SetupStep;
use vhost_user_net::single_queue::Error;
use vm_memory::{Bytes, GuestAddress, GuestMemoryMmap};

fn memory() -> GuestMemoryMmap {
    GuestMemoryMmap::from_ranges(&[(GuestAddress(0x1000), 0x1000)]).unwrap()
}

fn ready() -> VhostUserNetBackend {
    let mut b = VhostUserNetBackend::new_with_tap(5, 6);
    b.update_memory(Some(memory()));
    b
}

fn chain(head_index: u16, addr: u64, len: u32, write_only: bool) -> Option<DescriptorChain> {
    Some(DescriptorChain { head_index, descriptors: vec![Descriptor { addr, len, write_only }] })
}

#[test]
fn new_backend_is_idle() {
    let b = VhostUserNetBackend::new_with_tap(5, 6);
    assert!(b.mem.is_none());
    assert_eq!((b.tap, b.kill_evt, b.epoll_fd), (5, 6, 0));
    assert!(!b.rx_tap_listening);
    assert_eq!(b.phase, Phase::Idle);
    assert_eq!(b.num_queues(), 2);
    assert_eq!(b.max_queue_size(), vec![256, 256]);
    assert_eq!(b.features(), 0x1_4000_4c83);
}

#[test]
fn tap_listener_names_loop_and_device() {
    let mut b = VhostUserNetBackend::new_with_tap(5, 6);
    b.update_epollfd(9);
    let interest = Interest { epoll_fd: 9, fd: 5, events: 1, data: 2 };
    assert_eq!(b.tap_rx_listener(), interest);
}

#[test]
fn event_numbers() {
    assert_eq!([RX_QUEUE_EVENT, TX_QUEUE_EVENT, RX_TAP_EVENT, KILL_EVENT], [0, 1, 2, 3]);
    assert_eq!(NET_EVENTS_COUNT, 4);
}

#[test]
fn other_event_sets_are_declined() {
    let mut b = ready();
    for evset in [0u32, 4, 5, 0x10] {
        assert_eq!(b.handle_event(RX_TAP_EVENT, evset).unwrap(), vec![Effect::Return(false)]);
    }
    assert_eq!(b.phase, Phase::Idle);
}

#[test]
fn kill_and_unknown_events_do_nothing() {
    let mut b = ready();
    assert_eq!(b.handle_event(KILL_EVENT, 1).unwrap(), vec![Effect::Return(true)]);
    assert_eq!(b.handle_event(4, 1).unwrap(), vec![Effect::Return(true)]);
    assert_eq!(b.handle_event(65535, 1).unwrap(), vec![Effect::Return(true)]);
}

#[test]
fn queue_event_has_the_tap_listened_to() {
    let mut b = ready();
    assert_eq!(b.handle_event(RX_QUEUE_EVENT, 1).unwrap(), vec![Effect::RegisterTap]);
    assert_eq!(b.registered(true).unwrap(), vec![Effect::Return(true)]);
    assert!(b.rx_tap_listening);
    assert_eq!(b.handle_event(RX_QUEUE_EVENT, 1).unwrap(), vec![Effect::Return(true)]);
}

#[test]
fn refused_registration_is_reported_and_repeated() {
    let mut b = ready();
    assert_eq!(b.handle_event(RX_QUEUE_EVENT, 1).unwrap(), vec![Effect::RegisterTap]);
    assert_eq!(b.registered(false).unwrap(), vec![Effect::ReturnError]);
    assert!(!b.rx_tap_listening);
    assert_eq!(b.handle_event(RX_QUEUE_EVENT, 1).unwrap(), vec![Effect::RegisterTap]);
}

#[test]
fn frames_are_received_until_the_tap_is_empty() {
    let mut b = ready();
    assert_eq!(b.handle_event(RX_TAP_EVENT, 1).unwrap(), vec![Effect::ReadTap]);
    b.rx.frame_buf[..4].copy_from_slice(&[1, 2, 3, 4]);
    assert_eq!(b.tap_read(Ok(4)).unwrap(), vec![Effect::TakeRxChain]);
    assert_eq!(
        b.rx_chain(chain(9, 0x1000, 64, true)).unwrap(),
        vec![Effect::AddUsedRx { head_index: 9, written: 4 }, Effect::ReadTap]
    );
    let mut got = [0u8; 5];
    b.mem.as_ref().unwrap().read_slice(&mut got, GuestAddress(0x1000)).unwrap();
    assert_eq!(got, [1, 2, 3, 4, 0]);
    assert!(b.rx.state.deferred_irqs);
    assert_eq!(b.tap_read(Err(Some(11))).unwrap(), vec![Effect::SignalRx]);
    assert_eq!(b.signalled(true).unwrap(), vec![Effect::Return(true)]);
    assert!(!b.rx.state.deferred_irqs);
}

#[test]
fn frame_waits_without_a_chain() {
    let mut b = ready();
    b.handle_event(RX_QUEUE_EVENT, 1).unwrap();
    b.registered(true).unwrap();
    b.handle_event(RX_TAP_EVENT, 1).unwrap();
    b.tap_read(Ok(4)).unwrap();
    assert_eq!(b.rx_chain(None).unwrap(), vec![Effect::UnregisterTap, Effect::Return(true)]);
    assert!(b.rx.state.deferred_frame && !b.rx_tap_listening);

    // The frame that waits comes before the tap device.
    assert_eq!(b.handle_event(RX_TAP_EVENT, 1).unwrap(), vec![Effect::TakeRxChain]);
    assert_eq!(b.rx_chain(None).unwrap(), vec![Effect::Return(true)]);

    // A queue event without a buffer ends with the tap device listened to again.
    assert_eq!(b.handle_event(RX_QUEUE_EVENT, 1).unwrap(), vec![Effect::TakeRxChain]);
    assert_eq!(b.rx_chain(None).unwrap(), vec![Effect::RegisterTap]);
    b.registered(true).unwrap();

    assert_eq!(b.handle_event(RX_QUEUE_EVENT, 1).unwrap(), vec![Effect::TakeRxChain]);
    assert_eq!(
        b.rx_chain(chain(3, 0x1000, 4, true)).unwrap(),
        vec![Effect::AddUsedRx { head_index: 3, written: 4 }, Effect::ReadTap]
    );
    assert_eq!(b.tap_read(Err(Some(11))).unwrap(), vec![Effect::SignalRx]);
    assert_eq!(b.signalled(true).unwrap(), vec![Effect::Return(true)]);
    assert!(!b.rx.state.deferred_frame);
}

#[test]
fn chain_that_is_too_small_ends_the_frame() {
    let mut b = ready();
    b.handle_event(RX_TAP_EVENT, 1).unwrap();
    b.rx.frame_buf[..11].copy_from_slice(&[1, 2, 3, 4, 5, 6, 7, 8, 9, 10, 11]);
    b.tap_read(Ok(100)).unwrap();
    assert_eq!(
        b.rx_chain(chain(3, 0x1000, 10, true)).unwrap(),
        vec![Effect::AddUsedRx { head_index: 3, written: 10 }, Effect::ReadTap]
    );
    let mut got = [0u8; 11];
    b.mem.as_ref().unwrap().read_slice(&mut got, GuestAddress(0x1000)).unwrap();
    assert_eq!(got, [1, 2, 3, 4, 5, 6, 7, 8, 9, 10, 0]);
    assert!(!b.rx.state.deferred_frame && b.rx.state.deferred_irqs);
    assert_eq!(b.tap_read(Err(Some(11))).unwrap(), vec![Effect::SignalRx]);
}

#[test]
fn waiting_frame_ends_with_a_chain_that_is_too_small() {
    let mut b = ready();
    b.handle_event(RX_TAP_EVENT, 1).unwrap();
    b.tap_read(Ok(100)).unwrap();
    b.rx_chain(None).unwrap();
    assert!(b.rx.state.deferred_frame);
    assert_eq!(b.handle_event(RX_QUEUE_EVENT, 1).unwrap(), vec![Effect::TakeRxChain]);
    assert_eq!(
        b.rx_chain(chain(3, 0x9000, 100, true)).unwrap(),
        vec![Effect::AddUsedRx { head_index: 3, written: 0 }, Effect::ReadTap]
    );
    assert!(!b.rx.state.deferred_frame);
    assert_eq!(b.tap_read(Err(Some(11))).unwrap(), vec![Effect::SignalRx]);
    assert_eq!(b.signalled(true).unwrap(), vec![Effect::RegisterTap]);
}

#[test]
fn failed_signal_fails_the_backend() {
    let mut b = ready();
    b.handle_event(RX_TAP_EVENT, 1).unwrap();
    b.tap_read(Ok(4)).unwrap();
    b.rx_chain(chain(3, 0x1000, 4, true)).unwrap();
    b.tap_read(Err(Some(11))).unwrap();
    assert!(!b.rx.state.deferred_irqs);
    assert!(matches!(b.signalled(false), Err(Error::FailedSignalingUsedQueue)));
    assert_eq!(b.phase, Phase::Failed);
}

#[test]
fn more_frames_than_chains_leave_the_next_frame_waiting() {
    let mut b = ready();
    let mut done = b.handle_event(RX_TAP_EVENT, 1).unwrap();
    for (i, len) in [4usize, 5].into_iter().enumerate() {
        done.extend(b.tap_read(Ok(len)).unwrap());
        done.extend(b.rx_chain(chain(i as u16, 0x1000, 64, true)).unwrap());
    }
    done.extend(b.tap_read(Ok(6)).unwrap());
    done.extend(b.rx_chain(None).unwrap());
    done.extend(b.signalled(true).unwrap());
    assert_eq!(
        done,
        vec![
            Effect::ReadTap,
            Effect::TakeRxChain,
            Effect::AddUsedRx { head_index: 0, written: 4 },
            Effect::ReadTap,
            Effect::TakeRxChain,
            Effect::AddUsedRx { head_index: 1, written: 5 },
            Effect::ReadTap,
            Effect::TakeRxChain,
            Effect::SignalRx,
            Effect::Return(true),
        ]
    );
    assert!(b.rx.state.deferred_frame);
    assert_eq!(b.rx.state.bytes_read, 6);
}

#[test]
fn frame_waits_without_memory() {
    let mut b = VhostUserNetBackend::new_with_tap(5, 6);
    b.handle_event(RX_TAP_EVENT, 1).unwrap();
    assert_eq!(b.tap_read(Ok(4)).unwrap(), vec![Effect::Return(true)]);
    assert!(b.rx.state.deferred_frame);
    b.update_memory(Some(memory()));
    assert_eq!(b.handle_event(RX_TAP_EVENT, 1).unwrap(), vec![Effect::TakeRxChain]);
}

#[test]
fn tap_error_fails_the_backend() {
    let mut b = ready();
    b.handle_event(RX_TAP_EVENT, 1).unwrap();
    assert!(matches!(b.tap_read(Err(Some(5))), Err(Error::FailedReadTap)));
    assert_eq!(b.phase, Phase::Failed);
}

#[test]
fn transmission_without_memory_fails() {
    let mut b = VhostUserNetBackend::new_with_tap(5, 6);
    assert!(matches!(b.handle_event(TX_QUEUE_EVENT, 1), Err(Error::NoMemoryForTx)));
}

#[test]
fn transmission_sends_and_returns_every_chain_in_order() {
    let mut b = ready();
    b.mem.as_ref().unwrap().write_slice(&[7, 8, 9], GuestAddress(0x1100)).unwrap();
    assert_eq!(b.handle_event(TX_QUEUE_EVENT, 1).unwrap(), vec![Effect::TakeTxChain]);
    assert_eq!(
        b.tx_chain(chain(4, 0x1100, 3, false)).unwrap(),
        vec![Effect::WriteTap { len: 3 }]
    );
    assert_eq!(b.tx.frame_buf[..3], [7, 8, 9]);
    assert_eq!(b.tap_written(true).unwrap(), vec![Effect::TakeTxChain]);
    assert_eq!(
        b.tx_chain(chain(2, 0x1000, 9, true)).unwrap(),
        vec![Effect::WriteTap { len: 0 }]
    );
    assert_eq!(b.tap_written(true).unwrap(), vec![Effect::TakeTxChain]);
    assert_eq!(
        b.tx_chain(None).unwrap(),
        vec![
            Effect::AddUsedTx { head_index: 4, written: 0 },
            Effect::AddUsedTx { head_index: 2, written: 0 },
            Effect::SignalTx,
            Effect::Return(true)
        ]
    );
    assert_eq!(b.phase, Phase::Idle);
    assert!(b.used_desc_heads.is_empty());
}

#[test]
fn empty_transmit_queue_is_signalled() {
    let mut b = ready();
    b.handle_event(TX_QUEUE_EVENT, 1).unwrap();
    assert_eq!(b.tx_chain(None).unwrap(), vec![Effect::SignalTx, Effect::Return(true)]);
}

#[test]
fn transmission_holds_a_full_queue() {
    let mut b = ready();
    b.handle_event(TX_QUEUE_EVENT, 1).unwrap();
    for i in 0..256u16 {
        b.tx_chain(chain(i, 0x1000, 1, false)).unwrap();
        b.tap_written(true).unwrap();
    }
    assert_eq!(b.tx_chain(None).unwrap().len(), 258);
}

#[test]
fn failed_writes_change_nothing() {
    let run = |written: [bool; 2]| {
        let mut b = ready();
        let mut done = b.handle_event(TX_QUEUE_EVENT, 1).unwrap();
        for (i, ok) in written.into_iter().enumerate() {
            done.extend(b.tx_chain(chain(i as u16, 0x1000, 3, false)).unwrap());
            done.extend(b.tap_written(ok).unwrap());
        }
        done.extend(b.tx_chain(None).unwrap());
        done
    };
    assert_eq!(run([true, true]), run([false, true]));
    assert_eq!(run([true, true]), run([false, false]));
    assert_eq!(run([true, true]).len(), 9);
}

#[test]
fn setup_steps_in_order() {
    let ip_addr = Ipv4Addr { a: 1, b: 2, c: 3, d: 4 };
    let netmask = Ipv4Addr { a: 255, b: 0, c: 0, d: 0 };
    let mut steps = vec![VhostUserNetBackend::new(ip_addr, netmask)];
    while let Some(step) = steps[steps.len() - 1].next(Ok(())).unwrap() {
        steps.push(step);
    }
    assert_eq!(
        steps,
        vec![
            SetupStep::Open { ip_addr, netmask },
            SetupStep::SetIp { ip_addr, netmask },
            SetupStep::SetNetmask { netmask },
            SetupStep::Enable,
            SetupStep::SetOffload { flags: 0x13 },
            SetupStep::SetVnetHdrSize { size: 12 },
            SetupStep::CreateKillEvent,
        ]
    );
    assert_eq!(steps[4], SetupStep::with_tap());
}

#[test]
fn each_setup_step_has_its_error() {
    let ip_addr = Ipv4Addr { a: 1, b: 2, c: 3, d: 4 };
    let netmask = ip_addr;
    let fail = |s: SetupStep| s.next(Err(String::from("why"))).err().unwrap();
    assert!(matches!(fail(SetupStep::Open { ip_addr, netmask }), Error::TapOpen(w) if w == "why"));
    assert!(matches!(fail(SetupStep::SetIp { ip_addr, netmask }), Error::TapSetIp(_)));
    assert!(matches!(fail(SetupStep::SetNetmask { netmask }), Error::TapSetNetmask(_)));
    assert!(matches!(fail(SetupStep::Enable), Error::TapEnable(_)));
    assert!(matches!(fail(SetupStep::SetOffload { flags: 0x13 }), Error::TapSetOffload(_)));
    assert!(matches!(fail(SetupStep::SetVnetHdrSize { size: 12 }), Error::TapSetVnetHdrSize(_)));
    assert!(matches!(fail(SetupStep::CreateKillEvent), Error::CreateKillEventFd));
}
