//! The backend: what it opens, what it hands to its workers, and which event loop a vring is in.
use crate::abi;
use crate::abi::Interest;
use crate::ipv4::Ipv4Addr;
use crate::multi_queue::flow;
use crate::multi_queue::Error;
use vstd::prelude::*;

verus! {

/// A backend with queue pairs. The tap devices, the kill event and the event loops are held by their
/// descriptors.
#[derive(Debug)]
pub struct VhostUserNetBackend {
    pub kill_evt: i32,
    pub taps: Vec<i32>,
    pub num_queues: usize,
    pub queue_size: u16,
    pub epoll_fds: Vec<i32>,
}

/// The tap devices that a backend asks for.
pub struct TapRequest<'a> {
    pub ifname: Option<&'a str>,
    pub ip_addr: Option<Ipv4Addr>,
    pub netmask: Option<Ipv4Addr>,
    pub count: usize,
}

/// What a worker is made of: its two vrings and its reset event by their places, its tap device and
/// what the event loop reports for it, and its event loop.
#[derive(Clone, Copy, PartialEq, Eq, Structural, Debug)]
pub struct WorkerPlan {
    pub rx_vring: usize,
    pub tx_vring: usize,
    pub tap: i32,
    pub tap_index: usize,
    pub epoll_fd: i32,
    pub num_queues: usize,
    pub worker_reset: usize,
}

/// The tap devices that a backend with an address, a netmask and a number of queues asks for.
pub open spec fn taps_for<'a>(
    ip_addr: Ipv4Addr,
    netmask: Ipv4Addr,
    num_queues: usize,
    ifname: Option<&'a str>,
) -> TapRequest<'a> {
    TapRequest {
        ifname,
        ip_addr: Some(ip_addr),
        netmask: Some(netmask),
        count: num_queues / 2,
    }
}

/// The backend that tap devices, event loops and a kill event make, or the first of them that is
/// missing.
pub open spec fn made_of(
    taps: Result<Vec<i32>, String>,
    num_queues: usize,
    queue_size: u16,
    epoll_fds: Result<Vec<i32>, std::io::Error>,
    kill_evt: Result<i32, std::io::Error>,
) -> Result<VhostUserNetBackend, Error> {
    match (taps, epoll_fds, kill_evt) {
        (Err(report), _, _) => Err(Error::OpenTap(report)),
        (Ok(_), Err(e), _) => Err(Error::EpollCreateFd(e)),
        (Ok(_), Ok(_), Err(e)) => Err(Error::CreateKillEventFd(e)),
        (Ok(taps), Ok(epoll_fds), Ok(kill_evt)) => Ok(
            VhostUserNetBackend { kill_evt, taps, num_queues, queue_size, epoll_fds },
        ),
    }
}

/// How many queue pairs there are, each with a tap device, an event loop and a reset event.
pub fn queue_pairs(num_queues: usize) -> (n: usize)
    ensures
        n == num_queues / 2,
{
    num_queues / 2
}

/// Whom to send guest memory to next, once worker `sent` of `workers` was sent it or could not be.
pub open spec fn memory_next(sent: usize, workers: usize, ok: bool) -> Result<
    Option<usize>,
    Error,
> {
    if !ok {
        Err(Error::FailedUpdateMemory)
    } else if sent + 1 < workers {
        Ok(Some((sent + 1) as usize))
    } else {
        Ok(None)
    }
}

/// The first of `workers` workers, if there are any.
pub open spec fn first_worker(workers: nat) -> Option<usize> {
    if workers > 0 {
        Some(0)
    } else {
        None
    }
}

/// Goes on with the outcome of sending guest memory to worker `sent` of `workers`.
pub fn memory_sent(sent: usize, workers: usize, ok: bool) -> (r: Result<Option<usize>, Error>)
    requires
        sent < workers,
    ensures
        r == memory_next(sent, workers, ok),
{
    if !ok {
        Err(Error::FailedUpdateMemory)
    } else if sent + 1 < workers {
        Ok(Some(sent + 1))
    } else {
        Ok(None)
    }
}

/// What becomes of adding a vring to an event loop.
pub fn listener_registered(ok: bool) -> (r: Result<(), Error>)
    ensures
        r == if ok {
            Ok::<(), Error>(())
        } else {
            Err(Error::FailedRegisterListener)
        },
{
    if ok {
        Ok(())
    } else {
        Err(Error::FailedRegisterListener)
    }
}

/// What becomes of taking a vring out of an event loop.
pub fn listener_unregistered(ok: bool) -> (r: Result<(), Error>)
    ensures
        r == if ok {
            Ok::<(), Error>(())
        } else {
            Err(Error::FailedUnRegisterListener)
        },
{
    if ok {
        Ok(())
    } else {
        Err(Error::FailedUnRegisterListener)
    }
}

impl VhostUserNetBackend {
    /// What holds of a backend: every queue pair has its event loop.
    pub open spec fn wf(self) -> bool {
        self.epoll_fds@.len() == self.num_queues / 2
    }

    /// The tap devices for a backend with an address, a netmask and a number of queues.
    pub fn tap_request<'a>(
        ip_addr: Ipv4Addr,
        netmask: Ipv4Addr,
        num_queues: usize,
        ifname: Option<&'a str>,
    ) -> (request: TapRequest<'a>)
        ensures
            request == (TapRequest {
                ifname,
                ip_addr: Some(ip_addr),
                netmask: Some(netmask),
                count: num_queues / 2,
            }),
            request == taps_for(ip_addr, netmask, num_queues, ifname),
    {
        TapRequest {
            ifname,
            ip_addr: Some(ip_addr),
            netmask: Some(netmask),
            count: queue_pairs(num_queues),
        }
    }

    /// A backend on tap devices, with an event loop for each queue pair and a kill event, where
    /// those could be created.
    pub fn new_with_tap(
        taps: Vec<i32>,
        num_queues: usize,
        queue_size: u16,
        epoll_fds: Result<Vec<i32>, std::io::Error>,
        kill_evt: Result<i32, std::io::Error>,
    ) -> (r: Result<VhostUserNetBackend, Error>)
        requires
            epoll_fds matches Ok(fds) ==> fds@.len() == num_queues / 2,
        ensures
            r == made_of(Ok(taps), num_queues, queue_size, epoll_fds, kill_evt),
            r is Ok ==> r->Ok_0.wf(),
            match (epoll_fds, kill_evt) {
                (Err(e), _) => r == Err::<VhostUserNetBackend, Error>(Error::EpollCreateFd(e)),
                (Ok(_), Err(e)) => r == Err::<VhostUserNetBackend, Error>(
                    Error::CreateKillEventFd(e),
                ),
                (Ok(fds), Ok(kill)) => r == Ok::<VhostUserNetBackend, Error>(
                    VhostUserNetBackend {
                        kill_evt: kill,
                        taps,
                        num_queues,
                        queue_size,
                        epoll_fds: fds,
                    },
                ),
            },
    {
        match epoll_fds {
            Err(e) => Err(Error::EpollCreateFd(e)),
            Ok(epoll_fds) => match kill_evt {
                Err(e) => Err(Error::CreateKillEventFd(e)),
                Ok(kill_evt) => Ok(
                    VhostUserNetBackend { kill_evt, taps, num_queues, queue_size, epoll_fds },
                ),
            },
        }
    }

    /// A backend on the tap devices that were asked for, where they could be opened.
    pub fn new(
        taps: Result<Vec<i32>, String>,
        num_queues: usize,
        queue_size: u16,
        epoll_fds: Result<Vec<i32>, std::io::Error>,
        kill_evt: Result<i32, std::io::Error>,
    ) -> (r: Result<VhostUserNetBackend, Error>)
        requires
            taps is Ok ==> (epoll_fds matches Ok(fds) ==> fds@.len() == num_queues / 2),
        ensures
            r == made_of(taps, num_queues, queue_size, epoll_fds, kill_evt),
            r is Ok ==> r->Ok_0.wf(),
            match (taps, epoll_fds, kill_evt) {
                (Err(report), _, _) => r == Err::<VhostUserNetBackend, Error>(
                    Error::OpenTap(report),
                ),
                (Ok(_), Err(e), _) => r == Err::<VhostUserNetBackend, Error>(
                    Error::EpollCreateFd(e),
                ),
                (Ok(_), Ok(_), Err(e)) => r == Err::<VhostUserNetBackend, Error>(
                    Error::CreateKillEventFd(e),
                ),
                (Ok(taps), Ok(fds), Ok(kill)) => r == Ok::<VhostUserNetBackend, Error>(
                    VhostUserNetBackend {
                        kill_evt: kill,
                        taps,
                        num_queues,
                        queue_size,
                        epoll_fds: fds,
                    },
                ),
            },
    {
        match taps {
            Err(report) => Err(Error::OpenTap(report)),
            Ok(taps) => VhostUserNetBackend::new_with_tap(
                taps,
                num_queues,
                queue_size,
                epoll_fds,
                kill_evt,
            ),
        }
    }

    /// Worker `i`.
    pub open spec fn plan(self, i: int) -> WorkerPlan {
        WorkerPlan {
            rx_vring: (2 * i) as usize,
            tx_vring: (2 * i + 1) as usize,
            tap: self.taps@[i],
            tap_index: (self.num_queues + i) as usize,
            epoll_fd: self.epoll_fds@[i],
            num_queues: self.num_queues,
            worker_reset: i as usize,
        }
    }

    /// Whether there is an event loop for every tap device, and among `num_vrings` vrings two for
    /// each.
    pub open spec fn serves(self, num_vrings: nat) -> bool {
        &&& self.taps@.len() <= self.epoll_fds@.len()
        &&& 2 * self.taps@.len() <= num_vrings <= usize::MAX
        &&& self.num_queues + self.taps@.len() <= usize::MAX
    }

    /// The workers to start, one for each tap device.
    pub fn start_worker_thread(&self, num_vrings: usize) -> (plans: Vec<WorkerPlan>)
        requires
            self.serves(num_vrings as nat),
        ensures
            plans@ == Seq::new(self.taps@.len(), |i: int| self.plan(i)),
    {
        let mut plans: Vec<WorkerPlan> = Vec::new();
        let mut i: usize = 0;
        while i < self.taps.len()
            invariant
                i <= self.taps@.len(),
                self.serves(num_vrings as nat),
                plans@ =~= Seq::new(i as nat, |j: int| self.plan(j)),
            decreases self.taps@.len() - i,
        {
            plans.push(
                WorkerPlan {
                    rx_vring: 2 * i,
                    tx_vring: 2 * i + 1,
                    tap: self.taps[i],
                    tap_index: self.num_queues + i,
                    epoll_fd: self.epoll_fds[i],
                    num_queues: self.num_queues,
                    worker_reset: i,
                },
            );
            i = i + 1;
        }
        plans
    }

    /// The number of queues.
    pub fn num_queues(&self) -> (n: usize)
        ensures
            n == self.num_queues,
    {
        self.num_queues
    }

    /// The length of each queue.
    pub fn max_queue_size(&self) -> (n: usize)
        ensures
            n == self.queue_size,
    {
        self.queue_size as usize
    }

    /// The virtio features that the backend offers.
    pub fn features(&self) -> (word: u64)
        ensures
            word == 0x1_4000_4c83,
            forall|i: u64| i < 64 ==> #[trigger] abi::has_bit(word, i) == abi::offered(i),
    {
        abi::features()
    }

    /// The vhost-user protocol features that the backend supports.
    pub fn protocol_features(&self) -> (word: u64)
        ensures
            word == 0x1_ffff,
            forall|i: u64| i < 64 ==> #[trigger] abi::has_bit(word, i) == (i < 17),
    {
        abi::protocol_features()
    }

    /// Starts to hand guest memory to the workers: whom to send it to first, if there are any. There
    /// is a worker for each event loop.
    pub fn update_memory(&self) -> (first: Option<usize>)
        ensures
            first == first_worker(self.epoll_fds@.len()),
    {
        if self.epoll_fds.len() > 0 {
            Some(0)
        } else {
            None
        }
    }

    /// How vring `index` is listened to: in the event loop of its queue pair, where it reports its
    /// place.
    pub open spec fn vring_interest(self, fd: i32, index: u64) -> Interest {
        Interest { epoll_fd: self.epoll_fds@[index as int / 2], fd, events: 1, data: index }
    }

    /// What to add to an event loop for vring `index`.
    pub fn register_listener(&self, fd: i32, index: u64) -> (interest: Interest)
        requires
            index / 2 < self.epoll_fds@.len(),
        ensures
            interest == self.vring_interest(fd, index),
    {
        assert(self.epoll_fds@.len() == self.epoll_fds.len());
        Interest {
            epoll_fd: self.epoll_fds[(index / 2) as usize],
            fd,
            events: abi::readable_events(),
            data: index,
        }
    }

    /// What to take out of an event loop for vring `index`: what was added for it.
    pub fn unregister_listener(&self, fd: i32, index: u64) -> (interest: Interest)
        requires
            index / 2 < self.epoll_fds@.len(),
        ensures
            interest == self.vring_interest(fd, index),
    {
        self.register_listener(fd, index)
    }
}

/// No two workers share a vring, a code of the tap device or a reset event.
pub proof fn law_workers_are_apart(backend: VhostUserNetBackend, num_vrings: nat, i: int, j: int)
    requires
        backend.serves(num_vrings),
        0 <= i < backend.taps@.len(),
        0 <= j < backend.taps@.len(),
        i != j,
    ensures
        ({
            let a = backend.plan(i);
            let b = backend.plan(j);
            &&& a.rx_vring != b.rx_vring && a.rx_vring != b.tx_vring
            &&& a.tx_vring != b.rx_vring && a.tx_vring != b.tx_vring
            &&& a.rx_vring != a.tx_vring
            &&& a.tap_index != b.tap_index
            &&& a.worker_reset != b.worker_reset
        }),
{
}

/// A vring is listened to in the event loop of the worker that serves it.
pub proof fn law_vrings_reach_their_worker(
    backend: VhostUserNetBackend,
    num_vrings: nat,
    fd: i32,
    index: u64,
)
    requires
        backend.serves(num_vrings),
        index / 2 < backend.taps@.len(),
    ensures
        ({
            let plan = backend.plan(index as int / 2);
            &&& backend.vring_interest(fd, index).epoll_fd == plan.epoll_fd
            &&& backend.vring_interest(fd, index).data == if index % 2 == 0 {
                plan.rx_vring
            } else {
                plan.tx_vring
            }
        }),
{
}

/// What is taken out of the event loops for a vring is what was added for it, and nothing else: the
/// entries are again as they were, where there was none for it before.
pub proof fn law_unregistering_undoes_registering(
    backend: VhostUserNetBackend,
    fd: i32,
    index: u64,
    entries: Map<(i32, i32), (u32, u64)>,
)
    requires
        index / 2 < backend.epoll_fds@.len(),
        !entries.contains_key((backend.epoll_fds@[index as int / 2], fd)),
    ensures
        ({
            let interest = backend.vring_interest(fd, index);
            &&& interest.removed(interest.added(entries)) == entries
            &&& interest.added(entries).contains_key((interest.epoll_fd, fd))
        }),
{
    let interest = backend.vring_interest(fd, index);
    assert(interest.removed(interest.added(entries)) =~= entries);
}

/// The workers that are sent guest memory from worker `next` on, as long as each can be.
pub open spec fn recipients(next: Option<usize>, workers: usize) -> Seq<usize>
    decreases
            if next is Some {
                workers - next->0
            } else {
                0
            },
{
    match next {
        Some(i) => if i < workers {
            seq![i] + recipients(memory_next(i, workers, true)->Ok_0, workers)
        } else {
            seq![]
        },
        None => seq![],
    }
}

proof fn lemma_recipients(i: usize, workers: usize)
    requires
        i < workers,
    ensures
        recipients(Some(i), workers) == Seq::new(
            (workers - i) as nat,
            |k: int| (i + k) as usize,
        ),
    decreases workers - i,
{
    reveal_with_fuel(recipients, 2);
    if i + 1 < workers {
        lemma_recipients((i + 1) as usize, workers);
    }
    assert(recipients(Some(i), workers) =~= Seq::new(
        (workers - i) as nat,
        |k: int| (i + k) as usize,
    ));
}

/// Guest memory reaches every worker once, in order, where each can be sent it.
pub proof fn law_memory_reaches_every_worker(workers: usize)
    ensures
        recipients(first_worker(workers as nat), workers) == Seq::new(
            workers as nat,
            |i: int| i as usize,
        ),
{
    if workers > 0 {
        lemma_recipients(0, workers);
    }
    assert(recipients(first_worker(workers as nat), workers) =~= Seq::new(
        workers as nat,
        |i: int| i as usize,
    ));
}

/// Worker `i` is made of vring pair `i`, tap device `i`, event loop `i` and reset event `i`, and its
/// tap device reports the number of queues and `i` together, however many tap devices there are.
pub proof fn law_worker_is_made_of_its_parts(
    backend: VhostUserNetBackend,
    num_vrings: nat,
    i: int,
)
    requires
        backend.serves(num_vrings),
        0 <= i < backend.taps@.len(),
    ensures
        ({
            let plan = backend.plan(i);
            &&& plan.rx_vring == 2 * i
            &&& plan.tx_vring == 2 * i + 1
            &&& plan.tx_vring < num_vrings
            &&& plan.tap == backend.taps@[i]
            &&& plan.tap_index == backend.num_queues + i
            &&& plan.epoll_fd == backend.epoll_fds@[i]
            &&& plan.num_queues == backend.num_queues
            &&& plan.worker_reset == i
        }),
{
}

/// A planned worker tells its events apart: the code of its tap device lies behind those of the vrings
/// and before that of the reset event, so vrings, tap device, reset event and kill event each come
/// back as what they are.
pub proof fn law_planned_worker_tells_its_events_apart(
    backend: VhostUserNetBackend,
    num_vrings: nat,
    i: int,
    vring: usize,
)
    requires
        backend.wf(),
        backend.serves(num_vrings),
        0 <= i < backend.taps@.len(),
        backend.num_queues + backend.num_queues / 2 < 0xffff,
        vring < backend.num_queues,
    ensures
        ({
            let plan = backend.plan(i);
            let n = plan.num_queues;
            let reset = n + n / 2;
            &&& n <= plan.tap_index < reset
            &&& flow::codes_fit(n)
            &&& flow::event_of(n, plan.tap_index, plan.tap_index as u64) is Tap
            &&& flow::event_of(n, plan.tap_index, reset as u64) is Reset
            &&& flow::event_of(n, plan.tap_index, (reset + 1) as u64) is Kill
            &&& vring % 2 == 0 ==> flow::event_of(n, plan.tap_index, vring as u64) is Rx
            &&& vring % 2 == 1 ==> flow::event_of(n, plan.tap_index, vring as u64) is Tx
        }),
{
}

/// A backend with a vring pair and an event loop for each tap device serves them all.
pub proof fn law_backend_serves_its_taps(backend: VhostUserNetBackend, num_vrings: usize)
    requires
        backend.taps@.len() <= backend.epoll_fds@.len(),
        2 * backend.taps@.len() <= num_vrings,
        backend.num_queues + backend.taps@.len() <= usize::MAX,
    ensures
        backend.serves(num_vrings as nat),
{
}

/// A backend is well made exactly where it has an event loop for each queue pair.
pub proof fn law_backend_has_a_loop_for_each_pair(backend: VhostUserNetBackend)
    ensures
        backend.wf() <==> backend.epoll_fds@.len() == backend.num_queues / 2,
{
}

/// A vring is listened to for readability in the event loop of its pair, by its own descriptor, and
/// reports its place.
pub proof fn law_vring_reports_its_place(backend: VhostUserNetBackend, fd: i32, index: u64)
    requires
        index / 2 < backend.epoll_fds@.len(),
    ensures
        ({
            let interest = backend.vring_interest(fd, index);
            &&& interest.epoll_fd == backend.epoll_fds@[index as int / 2]
            &&& interest.fd == fd
            &&& interest.events == 1
            &&& interest.data == index
        }),
{
}

/// Guest memory goes from each worker to the next, stops behind the last, and stops with the error at
/// the first that cannot be sent it.
pub proof fn law_memory_goes_from_worker_to_worker(sent: usize, workers: usize, ok: bool)
    requires
        sent < workers,
    ensures
        !ok <==> memory_next(sent, workers, ok) == Err::<Option<usize>, Error>(
            Error::FailedUpdateMemory,
        ),
        ok && sent + 1 == workers <==> memory_next(sent, workers, ok) == Ok::<Option<usize>, Error>(
            None,
        ),
        ok && sent + 1 < workers ==> memory_next(sent, workers, ok) == Ok::<Option<usize>, Error>(
            Some((sent + 1) as usize),
        ),
{
}

/// Guest memory goes to the first worker first, where there is one.
pub proof fn law_memory_starts_with_the_first_worker(workers: nat)
    ensures
        first_worker(workers) is Some <==> workers > 0,
        first_worker(workers) is Some ==> first_worker(workers)->0 == 0,
{
}

/// A backend asks for a tap device for every two queues, and for no more, under the name and with the
/// address and the netmask that it was given.
pub proof fn law_a_tap_for_every_two_queues(
    ip_addr: Ipv4Addr,
    netmask: Ipv4Addr,
    num_queues: usize,
    ifname: Option<&str>,
)
    ensures
        ({
            let request = taps_for(ip_addr, netmask, num_queues, ifname);
            &&& 2 * request.count <= num_queues < 2 * request.count + 2
            &&& request.ip_addr == Some(ip_addr)
            &&& request.netmask == Some(netmask)
            &&& request.ifname == ifname
        }),
{
}

/// A backend is made exactly where its tap devices, its event loops and its kill event are there, and
/// holds them with the number and the length of its queues; otherwise the first that is missing is
/// told, with its reason.
pub proof fn law_backend_holds_what_it_is_made_of(
    taps: Result<Vec<i32>, String>,
    num_queues: usize,
    queue_size: u16,
    epoll_fds: Result<Vec<i32>, std::io::Error>,
    kill_evt: Result<i32, std::io::Error>,
)
    ensures
        ({
            let r = made_of(taps, num_queues, queue_size, epoll_fds, kill_evt);
            &&& r is Ok <==> taps is Ok && epoll_fds is Ok && kill_evt is Ok
            &&& r matches Ok(backend) ==> {
                &&& backend.taps == taps->Ok_0
                &&& backend.epoll_fds == epoll_fds->Ok_0
                &&& backend.kill_evt == kill_evt->Ok_0
                &&& backend.num_queues == num_queues
                &&& backend.queue_size == queue_size
            }
            &&& taps is Err ==> r == Err::<VhostUserNetBackend, Error>(
                Error::OpenTap(taps->Err_0),
            )
            &&& taps is Ok && epoll_fds is Err ==> r == Err::<VhostUserNetBackend, Error>(
                Error::EpollCreateFd(epoll_fds->Err_0),
            )
            &&& taps is Ok && epoll_fds is Ok && kill_evt is Err ==> r == Err::<
                VhostUserNetBackend,
                Error,
            >(Error::CreateKillEventFd(kill_evt->Err_0))
        }),
{
}

} // verus!
