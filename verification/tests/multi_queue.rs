use vhost_user_net::abi::Interest;
use vhost_user_net::ipv4::{AddrKind, AddrParseError, Ipv4Addr};
use vhost_user_net::multi_queue::backend::{
    listener_registered, listener_unregistered, memory_sent, queue_pairs, VhostUserNetBackend,
    WorkerPlan,
};
use vhost_user_net::multi_queue::flow::{Effect, Fault, Phase, Placing};
use vhost_user_net::multi_queue::worker::{worker_reset_index, NetEpollHandler, WaitOutcome};
use vhost_user_net::multi_queue::Error;

fn io_error() -> std::io::Error {
    std::io::Error::from_raw_os_error(24)
}

fn backend() -> VhostUserNetBackend {
    VhostUserNetBackend::new(Ok(vec![50, 51]), 4, 128, Ok(vec![60, 61]), Ok(70)).unwrap()
}

/// A worker that has registered its own events.
fn waiting(num_queues: usize, tap_index: usize) -> NetEpollHandler {
    let (mut w, _) = NetEpollHandler::new(num_queues, tap_index);
    w.registered(true);
    w.registered(true);
    w
}

/// The worker of a backend with one queue pair, where the tap device reports 2, the reset event 3
/// and the kill event 4, with guest memory and the tap device listened to.
fn listening() -> NetEpollHandler {
    let mut w = waiting(2, 2);
    w.waited(WaitOutcome::Events(vec![3, 0]));
    w.memory_reset(Some(true));
    assert_eq!(w.vring_checked(Some(true)), vec![Effect::RegisterTap { data: 2 }]);
    assert_eq!(w.registered(true), vec![Effect::Wait]);
    w
}

#[test]
fn backend_holds_what_it_was_made_of() {
    let b = backend();
    assert_eq!(b.kill_evt, 70);
    assert_eq!(b.taps, vec![50, 51]);
    assert_eq!(b.epoll_fds, vec![60, 61]);
    assert_eq!((b.num_queues(), b.max_queue_size()), (4, 128));
    assert_eq!(b.features(), 0x1_4000_4c83);
    assert_eq!(b.protocol_features(), 0x1_ffff);
    assert_eq!([queue_pairs(0), queue_pairs(1), queue_pairs(4), queue_pairs(5)], [0, 0, 2, 2]);
}

#[test]
fn backend_errors_in_order() {
    let make = |taps, epoll, kill| VhostUserNetBackend::new(taps, 2, 256, epoll, kill).err();
    assert!(matches!(
        make(Err(String::from("no tap")), Err(io_error()), Err(io_error())),
        Some(Error::OpenTap(report)) if report == "no tap"
    ));
    assert!(matches!(
        make(Ok(vec![1]), Err(io_error()), Err(io_error())),
        Some(Error::EpollCreateFd(e)) if e.raw_os_error() == Some(24)
    ));
    assert!(matches!(
        make(Ok(vec![1]), Ok(vec![2]), Err(io_error())),
        Some(Error::CreateKillEventFd(e)) if e.raw_os_error() == Some(24)
    ));
    assert!(make(Ok(vec![1]), Ok(vec![2]), Ok(3)).is_none());
}

#[test]
fn tap_request_asks_for_one_device_per_pair() {
    let ip = Ipv4Addr { a: 1, b: 2, c: 3, d: 4 };
    let mask = Ipv4Addr { a: 255, b: 255, c: 0, d: 0 };
    let request = VhostUserNetBackend::tap_request(ip, mask, 7, Some("tap0"));
    assert_eq!(request.ifname, Some("tap0"));
    assert_eq!((request.ip_addr, request.netmask, request.count), (Some(ip), Some(mask), 3));
}

#[test]
fn workers_are_apart() {
    let plans = backend().start_worker_thread(4);
    assert_eq!(
        plans,
        vec![
            WorkerPlan {
                rx_vring: 0,
                tx_vring: 1,
                tap: 50,
                tap_index: 4,
                epoll_fd: 60,
                num_queues: 4,
                worker_reset: 0
            },
            WorkerPlan {
                rx_vring: 2,
                tx_vring: 3,
                tap: 51,
                tap_index: 5,
                epoll_fd: 61,
                num_queues: 4,
                worker_reset: 1
            },
        ]
    );
}

#[test]
fn vrings_are_in_the_loop_of_their_worker() {
    let b = backend();
    let plans = b.start_worker_thread(4);
    for index in 0..4u64 {
        let interest = b.register_listener(33, index);
        let plan = plans[(index / 2) as usize];
        assert_eq!(interest, Interest { epoll_fd: plan.epoll_fd, fd: 33, events: 1, data: index });
        assert_eq!(b.unregister_listener(33, index), interest);
    }
}

#[test]
fn worker_registers_its_events_first() {
    let (mut w, effects) = NetEpollHandler::new(4, 5);
    assert_eq!(effects, vec![Effect::RegisterReset { data: 6 }]);
    assert_eq!(w.registered(true), vec![Effect::RegisterKill { data: 7 }]);
    assert_eq!(w.registered(true), vec![Effect::Wait]);
    assert_eq!(w.phase, Phase::Wait);
    assert_eq!(worker_reset_index(4), 6);
    assert_eq!(worker_reset_index(5), 7);
    assert_eq!(worker_reset_index(0x1_0000), 0x8000);
}

#[test]
fn refused_registration_ends_the_worker() {
    let (mut w, _) = NetEpollHandler::new(4, 5);
    assert_eq!(w.registered(false), vec![Effect::FailRegister]);
    assert_eq!(w.phase, Phase::Ended);

    let (mut w, _) = NetEpollHandler::new(4, 5);
    w.registered(true);
    assert_eq!(w.registered(false), vec![Effect::FailRegister]);
    assert_eq!(w.phase, Phase::Ended);

    let mut w = waiting(4, 5);
    w.waited(WaitOutcome::Events(vec![0, 1]));
    assert_eq!(w.vring_checked(Some(true)), vec![Effect::RegisterTap { data: 5 }]);
    assert!(!w.rx_tap_listening);
    assert_eq!(w.registered(false), vec![Effect::FailRegister]);
    assert!(!w.rx_tap_listening);
    assert_eq!(w.phase, Phase::Ended);
}

#[test]
fn memory_goes_to_every_worker_in_order() {
    let mut told = Vec::new();
    let mut next = backend().update_memory();
    while let Some(worker) = next {
        told.push(worker);
        next = memory_sent(worker, 2, true).unwrap();
    }
    assert_eq!(told, vec![0, 1]);
    assert!(matches!(memory_sent(0, 2, false), Err(Error::FailedUpdateMemory)));
    let none = VhostUserNetBackend::new(Ok(vec![]), 1, 128, Ok(vec![]), Ok(70)).unwrap();
    assert_eq!(none.update_memory(), None);
}

#[test]
fn listeners_have_their_errors() {
    assert!(listener_registered(true).is_ok() && listener_unregistered(true).is_ok());
    assert!(matches!(listener_registered(false), Err(Error::FailedRegisterListener)));
    assert!(matches!(listener_unregistered(false), Err(Error::FailedUnRegisterListener)));
}

#[test]
fn errors_have_their_text() {
    assert_eq!(Error::BadActivate.text(), "vhost_user_net_error: BadActivate");
    assert_eq!(Error::FailedReadTap.text(), "vhost_user_net_error: FailedReadTap");
    assert_eq!(
        Error::OpenTap(String::from("OpenFailed")).text(),
        "vhost_user_net_error: OpenTap(OpenFailed)"
    );
    let e = Error::EpollWait(io_error());
    assert_eq!(e.text(), format!("vhost_user_net_error: {:?}", e));
    let e = Error::ParseQueueNumParam("x".parse::<usize>().unwrap_err());
    assert_eq!(e.text(), format!("vhost_user_net_error: {:?}", e));
    let e = Error::ParseIpParam(AddrParseError(AddrKind::Ipv4));
    assert_eq!(e.text(), format!("vhost_user_net_error: {:?}", e));
    let e = Error::EpollCtl(io_error());
    assert_eq!(e.message_for("why"), "vhost_user_net_error: EpollCtl(why)");
    let e = Error::NoMemoryConfigured;
    assert_eq!(e.message_for("why"), "vhost_user_net_error: NoMemoryConfigured");
}

#[test]
fn events_are_told_apart() {
    let first = |data: u64| {
        let mut w = waiting(4, 4);
        w.waited(WaitOutcome::Events(vec![data]))
    };
    assert_eq!(first(0), vec![Effect::CheckVring { vring: 0 }]);
    assert_eq!(first(1), vec![Effect::CheckVring { vring: 1 }]);
    assert_eq!(first(4), vec![Effect::ReadTap]);
    assert_eq!(first(5), vec![Effect::Fail(Fault::UnknownEvent)]);
    assert_eq!(first(6), vec![Effect::ReadReset]);
    assert_eq!(first(7), vec![Effect::Stop]);
    assert_eq!(first(8), vec![Effect::Fail(Fault::UnknownEvent)]);
    assert_eq!(first(0x1_0007), vec![Effect::Stop]);
}

#[test]
fn kicks_of_the_first_pair_are_in_reach() {
    let w = waiting(4, 4);
    assert!(w.in_reach(&vec![]));
    assert!(w.in_reach(&vec![0, 1, 4, 6, 0x1_0001]));
    assert!(!w.in_reach(&vec![2]));
    assert!(!w.in_reach(&vec![4, 0, 6, 3]));
    assert!(!w.in_reach(&vec![0x1_0002]));
    // Nothing is handled behind the kill event or an unknown one.
    assert!(w.in_reach(&vec![0, 7, 2]));
    assert!(w.in_reach(&vec![9, 2]));
}

#[test]
fn worker_reception_delivers_in_order() {
    let mut w = listening();
    let mut done = w.waited(WaitOutcome::Events(vec![2, 1]));
    for len in [60usize, 70] {
        done.extend(w.tap_read(Ok(len)));
        done.extend(w.frame_placed(Placing::Chain { complete: true, irqs: true }));
    }
    done.extend(w.tap_read(Ok(80)));
    done.extend(w.frame_placed(Placing::NoChain));
    assert_eq!(
        done,
        vec![
            Effect::ReadTap,
            Effect::PlaceFrame { bytes_read: 60 },
            Effect::ReadTap,
            Effect::PlaceFrame { bytes_read: 70 },
            Effect::ReadTap,
            Effect::PlaceFrame { bytes_read: 80 },
            Effect::UnregisterTap { data: 2 },
            Effect::SignalRx,
            Effect::CheckVring { vring: 1 },
        ]
    );
    assert!(w.rx.deferred_frame && !w.rx.deferred_irqs && !w.rx_tap_listening);
    assert_eq!(w.rx.bytes_read, 80);
}

#[test]
fn interrupted_wait_is_repeated_and_failed_wait_ends() {
    let mut w = waiting(2, 2);
    assert_eq!(w.waited(WaitOutcome::Interrupted), vec![Effect::Wait]);
    assert_eq!(w.waited(WaitOutcome::Events(vec![])), vec![Effect::Wait]);
    assert_eq!(w.waited(WaitOutcome::Failed), vec![Effect::FailWait]);
    assert_eq!(w.phase, Phase::Ended);
}

#[test]
fn events_are_handled_in_order() {
    let mut w = listening();
    assert_eq!(
        w.waited(WaitOutcome::Events(vec![1, 0, 2, 4, 9])),
        vec![Effect::CheckVring { vring: 1 }]
    );
    assert_eq!(
        w.vring_checked(Some(true)),
        vec![Effect::ProcessTx, Effect::CheckVring { vring: 0 }]
    );
    assert_eq!(w.vring_checked(Some(true)), vec![Effect::ReadTap]);
    assert_eq!(w.tap_read(Err(Some(11))), vec![Effect::Stop]);
    assert_eq!(w.pending, vec![9]);
}

#[test]
fn kicks_of_disabled_vrings_are_passed_over() {
    let mut w = waiting(2, 2);
    w.waited(WaitOutcome::Events(vec![0, 1]));
    assert_eq!(w.vring_checked(Some(false)), vec![Effect::CheckVring { vring: 1 }]);
    assert_eq!(w.vring_checked(Some(false)), vec![Effect::Wait]);
    assert!(!w.rx_tap_listening);
}

#[test]
fn unread_kick_and_reset_end_the_worker() {
    let mut w = waiting(2, 2);
    w.waited(WaitOutcome::Events(vec![0]));
    assert_eq!(w.vring_checked(None), vec![Effect::Fail(Fault::ReadKick)]);
    let mut w = waiting(2, 2);
    w.waited(WaitOutcome::Events(vec![3]));
    assert_eq!(w.memory_reset(None), vec![Effect::Fail(Fault::ReadWorkerReset)]);
    assert_eq!(w.phase, Phase::Ended);
}

#[test]
fn work_without_memory_ends_the_worker() {
    let mut w = waiting(2, 2);
    w.waited(WaitOutcome::Events(vec![1]));
    assert_eq!(w.vring_checked(Some(true)), vec![Effect::Fail(Fault::NoMemory)]);
    let mut w = waiting(2, 2);
    w.waited(WaitOutcome::Events(vec![2]));
    assert_eq!(w.tap_read(Ok(60)), vec![Effect::Fail(Fault::NoMemory)]);
}

#[test]
fn tap_error_ends_the_worker() {
    let mut w = listening();
    w.waited(WaitOutcome::Events(vec![2]));
    assert_eq!(w.tap_read(Err(None)), vec![Effect::Fail(Fault::ReadTap)]);
}

#[test]
fn faults_have_their_errors() {
    assert!(matches!(Fault::ReadTap.error(), Error::FailedReadTap));
    assert!(matches!(Fault::ReadKick.error(), Error::HandleEventReadKick));
    assert!(matches!(Fault::ReadWorkerReset.error(), Error::FailedReadWorkerReset));
    assert!(matches!(Fault::UnknownEvent.error(), Error::HandleEventUnknownEvent));
    assert!(matches!(Fault::NoMemory.error(), Error::NoMemoryConfigured));
}

#[test]
fn worker_receives_until_the_tap_is_empty() {
    let mut w = listening();
    w.waited(WaitOutcome::Events(vec![2]));
    assert_eq!(w.tap_read(Ok(60)), vec![Effect::PlaceFrame { bytes_read: 60 }]);
    assert_eq!(
        w.frame_placed(Placing::Chain { complete: true, irqs: true }),
        vec![Effect::ReadTap]
    );
    assert_eq!(w.tap_read(Err(Some(11))), vec![Effect::SignalRx, Effect::Wait]);
    assert!(!w.rx.deferred_irqs);
}

#[test]
fn worker_keeps_a_frame_until_it_is_placed() {
    let mut w = listening();
    w.waited(WaitOutcome::Events(vec![2]));
    w.tap_read(Ok(60));
    assert_eq!(
        w.frame_placed(Placing::Chain { complete: false, irqs: true }),
        vec![Effect::SignalRx, Effect::Wait]
    );
    assert!(w.rx.deferred_frame);
    assert_eq!(
        w.waited(WaitOutcome::Events(vec![2])),
        vec![Effect::PlaceFrame { bytes_read: 60 }]
    );
    assert_eq!(
        w.frame_placed(Placing::NoChain),
        vec![Effect::UnregisterTap { data: 2 }, Effect::Wait]
    );
    assert!(!w.rx_tap_listening);
    w.waited(WaitOutcome::Events(vec![0]));
    assert_eq!(w.vring_checked(Some(true)), vec![Effect::PlaceFrame { bytes_read: 60 }]);
    assert_eq!(
        w.frame_placed(Placing::Chain { complete: true, irqs: true }),
        vec![Effect::ReadTap]
    );
    assert_eq!(
        w.tap_read(Err(Some(11))),
        vec![Effect::SignalRx, Effect::RegisterTap { data: 2 }]
    );
    assert_eq!(w.registered(true), vec![Effect::Wait]);
    assert!(!w.rx.deferred_frame && w.rx_tap_listening);
}

#[test]
fn queue_event_without_a_chain_registers_the_tap_anew() {
    let mut w = listening();
    w.waited(WaitOutcome::Events(vec![2]));
    w.tap_read(Ok(60));
    w.frame_placed(Placing::Chain { complete: false, irqs: false });
    w.waited(WaitOutcome::Events(vec![0]));
    w.vring_checked(Some(true));
    assert_eq!(
        w.frame_placed(Placing::NoChain),
        vec![Effect::UnregisterTap { data: 2 }, Effect::RegisterTap { data: 2 }]
    );
    assert!(!w.rx_tap_listening);
    assert_eq!(w.registered(true), vec![Effect::Wait]);
    assert!(w.rx_tap_listening);
}
