# vhost_user_net

The decisions of a vhost-user network backend, verified with Verus.

- `src/abi.rs`: kernel and virtio constants, and what a backend announces with them.
- `src/params.rs`, `src/ipv4.rs`: `key=value` parameters, numbers and addresses.
- `src/guest.rs`: guest memory and descriptor chains.
- `src/rx.rs`, `src/tx.rs`: the copying of frames into and out of guest memory.
- `src/single_queue/`: a backend with one receive queue and one transmit queue.
- `src/multi_queue/`: a backend with queue pairs and a worker for each tap device. Kicks are handled
  for the first pair alone.

Both backends work by effects: a call says what is to be done, and the outcome goes into the next
call. `app/` does the work: tap devices, vrings, event loops, threads and the command line.
