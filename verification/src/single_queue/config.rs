//! The parameters of the backend.
use crate::ipv4;
use crate::ipv4::Ipv4Addr;
use crate::params;
use crate::params::{lookup, split};
use crate::single_queue::Error;
use vstd::prelude::*;

verus! {

/// The parameters of a backend: the address and the netmask of its tap device, and the socket on
/// which it serves the guest.
pub struct VhostUserNetBackendConfig<'a> {
    pub ip: Ipv4Addr,
    pub mask: Ipv4Addr,
    pub sock: &'a str,
}

/// What parameters set: an address, a netmask and a socket.
pub struct Settings {
    pub ip: Ipv4Addr,
    pub mask: Ipv4Addr,
    pub sock: Seq<char>,
}

/// What `text` sets. The socket is mandatory; an address has to be one.
pub open spec fn settings(text: Seq<char>) -> Result<Settings, Error> {
    let given = params::split_on(text, ',');
    let sock = params::value_of(given, "sock="@);
    let ip = ipv4::address_or(given, "ip="@, ipv4::default_ip());
    let mask = ipv4::address_or(given, "mask="@, ipv4::default_mask());
    if sock.len() == 0 {
        Err(Error::ParseSockParam)
    } else if ip is None {
        Err(Error::ParseIpParam)
    } else if mask is None {
        Err(Error::ParseMaskParam)
    } else {
        Ok(Settings { ip: ip->0, mask: mask->0, sock })
    }
}

impl<'a> VhostUserNetBackendConfig<'a> {
    /// What the parameters set.
    pub open spec fn view(self) -> Settings {
        Settings { ip: self.ip, mask: self.mask, sock: self.sock@ }
    }

    /// Reads parameters of the form `ip=<ip_addr>,mask=<net_mask>,sock=<socket_path>`, in any
    /// order. Of several with one key the last holds, and those with another key are passed over.
    pub fn parse(backend: &'a str) -> (r: Result<VhostUserNetBackendConfig<'a>, Error>)
        ensures
            match r {
                Ok(config) => settings(backend@) == Ok::<Settings, Error>(config.view()),
                Err(e) => settings(backend@) == Err::<Settings, Error>(e),
            },
    {
        let given = split(backend, ',');
        let ip_str = lookup(&given, "ip=");
        let mask_str = lookup(&given, "mask=");
        let sock = lookup(&given, "sock=");

        let mut ip = Ipv4Addr { a: 192, b: 168, c: 100, d: 1 };
        let mut mask = Ipv4Addr { a: 255, b: 255, c: 255, d: 0 };
        if sock.is_empty() {
            return Err(Error::ParseSockParam);
        }
        if !ip_str.is_empty() {
            match Ipv4Addr::parse(ip_str) {
                Ok(addr) => ip = addr,
                Err(_) => return Err(Error::ParseIpParam),
            }
        }
        if !mask_str.is_empty() {
            match Ipv4Addr::parse(mask_str) {
                Ok(addr) => mask = addr,
                Err(_) => return Err(Error::ParseMaskParam),
            }
        }
        Ok(VhostUserNetBackendConfig { ip, mask, sock })
    }
}

/// How parameters are written, each with its key in front.
pub open spec fn written_params(set: Settings) -> Seq<Seq<char>> {
    seq![
        "ip="@ + ipv4::written(set.ip),
        "mask="@ + ipv4::written(set.mask),
        "sock="@ + set.sock,
    ]
}

/// A configuration that is written out as parameters reads back as itself. The socket is not empty
/// and holds no comma.
pub proof fn law_settings_read_back(set: Settings)
    requires
        set.sock.len() > 0,
        !set.sock.contains(','),
    ensures
        settings(params::joined(written_params(set), ',')) == Ok::<Settings, Error>(set),
{
    let given = written_params(set);
    reveal_strlit("ip=");
    reveal_strlit("mask=");
    reveal_strlit("sock=");
    ipv4::law_address_reads_back(set.ip);
    ipv4::law_address_reads_back(set.mask);
    params::lemma_param_lacks_comma("ip="@, ipv4::written(set.ip));
    params::lemma_param_lacks_comma("mask="@, ipv4::written(set.mask));
    params::lemma_param_lacks_comma("sock="@, set.sock);
    params::law_split_undoes_join(given, ',');
    params::lemma_value_of(given, "ip="@, ipv4::written(set.ip), 0);
    params::lemma_value_of(given, "mask="@, ipv4::written(set.mask), 1);
    params::lemma_value_of(given, "sock="@, set.sock, 2);
}

/// Each setting follows its own parameter, whatever the others are: the socket is the value of its
/// key, and an address is the one that its value writes, or its default where the value is empty.
pub proof fn law_settings_follow_their_parameters(text: Seq<char>)
    requires
        settings(text) is Ok,
    ensures
        ({
            let set = settings(text)->Ok_0;
            let given = params::split_on(text, ',');
            let ip = params::value_of(given, "ip="@);
            let mask = params::value_of(given, "mask="@);
            &&& set.sock == params::value_of(given, "sock="@)
            &&& set.sock.len() > 0
            &&& ip.len() > 0 ==> ipv4::written(set.ip) == ip
            &&& ip.len() == 0 ==> set.ip == (Ipv4Addr { a: 192, b: 168, c: 100, d: 1 })
            &&& mask.len() > 0 ==> ipv4::written(set.mask) == mask
            &&& mask.len() == 0 ==> set.mask == (Ipv4Addr { a: 255, b: 255, c: 255, d: 0 })
        }),
{
    let set = settings(text)->Ok_0;
    let given = params::split_on(text, ',');
    ipv4::law_addresses_are_read_as_written(params::value_of(given, "ip="@), set.ip);
    ipv4::law_addresses_are_read_as_written(params::value_of(given, "mask="@), set.mask);
}

/// Parameters are refused on account of the first fault in the order of the socket, the address and
/// the netmask, and only where there is one: a socket that is missing, or a value that writes no
/// address.
pub proof fn law_first_fault_is_told(text: Seq<char>)
    ensures
        ({
            let given = params::split_on(text, ',');
            let sock = params::value_of(given, "sock="@);
            let ip = params::value_of(given, "ip="@);
            let mask = params::value_of(given, "mask="@);
            let bad_ip = ip.len() > 0 && forall|addr: Ipv4Addr|
                #[trigger] ipv4::written(addr) != ip;
            let bad_mask = mask.len() > 0 && forall|addr: Ipv4Addr|
                #[trigger] ipv4::written(addr) != mask;
            &&& sock.len() == 0 <==> settings(text) == Err::<Settings, Error>(Error::ParseSockParam)
            &&& sock.len() > 0 && bad_ip <==> settings(text) == Err::<Settings, Error>(
                Error::ParseIpParam,
            )
            &&& sock.len() > 0 && !bad_ip && bad_mask <==> settings(text) == Err::<Settings, Error>(
                Error::ParseMaskParam,
            )
            &&& sock.len() > 0 && !bad_ip && !bad_mask <==> settings(text) is Ok
        }),
{
    let given = params::split_on(text, ',');
    let ip = params::value_of(given, "ip="@);
    let mask = params::value_of(given, "mask="@);
    ipv4::lemma_address_exists(ip);
    ipv4::lemma_address_exists(mask);
}

/// A configuration shows what it holds.
pub proof fn law_configuration_shows_its_settings(config: VhostUserNetBackendConfig)
    ensures
        config.view().ip == config.ip,
        config.view().mask == config.mask,
        config.view().sock == config.sock@,
{
}

} // verus!
