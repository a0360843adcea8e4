[package]
name = "vhost_user_net"
version = "0.1.0"
edition = "2021"
publish = false

[dependencies]
clap = "=2.34.0"
epoll = "=4.1.0"
libc = "=0.2.191"
log = "=0.4.35"
vhost = { version = "0.6", features = ["vhost-user-slave"] }
virtio-bindings = "=0.1.0"
vm-memory = { version = "0.5", features = ["backend-mmap", "backend-atomic"] }
vmm-sys-util = "=0.4.0"
