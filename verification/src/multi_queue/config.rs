//! The parameters of the backend.
use crate::ipv4;
use crate::ipv4::{AddrKind, AddrParseError, Ipv4Addr};
use crate::multi_queue::Error;
use crate::params;
use crate::params::{lookup, parse_u16, parse_usize, split};
use vstd::prelude::*;

verus! {

/// The parameters of a backend: the address and the netmask of its tap device, the socket on which
/// it serves the guest, how many queues it has and of which length, and the name of the tap device
/// where there is one.
pub struct VhostUserNetBackendConfig<'a> {
    pub ip: Ipv4Addr,
    pub mask: Ipv4Addr,
    pub sock: &'a str,
    pub num_queues: usize,
    pub queue_size: u16,
    pub tap: Option<&'a str>,
}

/// What parameters set.
pub struct Settings {
    pub ip: Ipv4Addr,
    pub mask: Ipv4Addr,
    pub sock: Seq<char>,
    pub num_queues: usize,
    pub queue_size: u16,
    pub tap: Option<Seq<char>>,
}

/// The configuration that the values of the parameters make. The socket is mandatory, and a value
/// that could not be read is refused; of several faults the first counts, in the order of the socket,
/// the address, the netmask, the number of queues and their length. A value that is not given has
/// its default.
pub open spec fn assembled(
    sock: Seq<char>,
    ip: Option<Result<Ipv4Addr, AddrParseError>>,
    mask: Option<Result<Ipv4Addr, AddrParseError>>,
    num_queues: Option<Result<usize, std::num::ParseIntError>>,
    queue_size: Option<Result<u16, std::num::ParseIntError>>,
    tap: Seq<char>,
) -> Result<Settings, Error> {
    if sock.len() == 0 {
        Err(Error::ParseSockParam)
    } else if let Some(Err(e)) = ip {
        Err(Error::ParseIpParam(e))
    } else if let Some(Err(e)) = mask {
        Err(Error::ParseMaskParam(e))
    } else if let Some(Err(e)) = num_queues {
        Err(Error::ParseQueueNumParam(e))
    } else if let Some(Err(e)) = queue_size {
        Err(Error::ParseQueueSizeParam(e))
    } else {
        Ok(
            Settings {
                ip: match ip {
                    Some(Ok(ip)) => ip,
                    _ => ipv4::default_ip(),
                },
                mask: match mask {
                    Some(Ok(mask)) => mask,
                    _ => ipv4::default_mask(),
                },
                sock,
                num_queues: match num_queues {
                    Some(Ok(n)) => n,
                    _ => 2,
                },
                queue_size: match queue_size {
                    Some(Ok(n)) => n,
                    _ => 256,
                },
                tap: if tap.len() == 0 {
                    None
                } else {
                    Some(tap)
                },
            },
        )
    }
}

/// What the address that the parameter `key` gives reads as.
pub open spec fn given_address(given: Seq<Seq<char>>, key: Seq<char>) -> Option<
    Result<Ipv4Addr, AddrParseError>,
> {
    let value = params::value_of(given, key);
    if value.len() == 0 {
        None
    } else {
        Some(ipv4::read_address(value))
    }
}

/// What the number of queues that is given reads as.
pub open spec fn given_num_queues(given: Seq<Seq<char>>) -> Option<
    Result<usize, std::num::ParseIntError>,
> {
    let value = params::value_of(given, "num_queues="@);
    if value.len() == 0 {
        None
    } else {
        Some(params::read_usize(value))
    }
}

/// What the length of the queues that is given reads as.
pub open spec fn given_queue_size(given: Seq<Seq<char>>) -> Option<
    Result<u16, std::num::ParseIntError>,
> {
    let value = params::value_of(given, "queue_size="@);
    if value.len() == 0 {
        None
    } else {
        Some(params::read_u16(value))
    }
}

/// What `text` sets.
pub open spec fn settings(text: Seq<char>) -> Result<Settings, Error> {
    let given = params::split_on(text, ',');
    assembled(
        params::value_of(given, "sock="@),
        given_address(given, "ip="@),
        given_address(given, "mask="@),
        given_num_queues(given),
        given_queue_size(given),
        params::value_of(given, "tap="@),
    )
}

/// What a call sets.
pub open spec fn set_by(r: Result<VhostUserNetBackendConfig, Error>) -> Result<Settings, Error> {
    match r {
        Ok(config) => Ok(config.view()),
        Err(e) => Err(e),
    }
}

impl<'a> VhostUserNetBackendConfig<'a> {
    /// What the parameters set.
    pub open spec fn view(self) -> Settings {
        Settings {
            ip: self.ip,
            mask: self.mask,
            sock: self.sock@,
            num_queues: self.num_queues,
            queue_size: self.queue_size,
            tap: match self.tap {
                Some(tap) => Some(tap@),
                None => None,
            },
        }
    }

    /// Makes a configuration out of the values of the parameters, as they were read.
    pub fn assemble(
        sock: &'a str,
        ip: Option<Result<Ipv4Addr, AddrParseError>>,
        mask: Option<Result<Ipv4Addr, AddrParseError>>,
        num_queues: Option<Result<usize, std::num::ParseIntError>>,
        queue_size: Option<Result<u16, std::num::ParseIntError>>,
        tap: &'a str,
    ) -> (r: Result<VhostUserNetBackendConfig<'a>, Error>)
        ensures
            set_by(r) == assembled(sock@, ip, mask, num_queues, queue_size, tap@),
    {
        if sock.is_empty() {
            return Err(Error::ParseSockParam);
        }
        let ip = match ip {
            None => Ipv4Addr { a: 192, b: 168, c: 100, d: 1 },
            Some(Ok(ip)) => ip,
            Some(Err(e)) => return Err(Error::ParseIpParam(e)),
        };
        let mask = match mask {
            None => Ipv4Addr { a: 255, b: 255, c: 255, d: 0 },
            Some(Ok(mask)) => mask,
            Some(Err(e)) => return Err(Error::ParseMaskParam(e)),
        };
        let num_queues: usize = match num_queues {
            None => 2,
            Some(Ok(n)) => n,
            Some(Err(e)) => return Err(Error::ParseQueueNumParam(e)),
        };
        let queue_size: u16 = match queue_size {
            None => 256,
            Some(Ok(n)) => n,
            Some(Err(e)) => return Err(Error::ParseQueueSizeParam(e)),
        };
        let tap = if tap.is_empty() {
            None
        } else {
            Some(tap)
        };
        Ok(VhostUserNetBackendConfig { ip, mask, sock, num_queues, queue_size, tap })
    }

    /// Reads parameters with the keys `ip`, `mask`, `sock`, `num_queues`, `queue_size` and `tap`,
    /// in any order. Of several with one key the last holds, and those with another key are passed
    /// over.
    pub fn parse(backend: &'a str) -> (r: Result<VhostUserNetBackendConfig<'a>, Error>)
        ensures
            set_by(r) == settings(backend@),
    {
        let given = split(backend, ',');
        let ip_str = lookup(&given, "ip=");
        let mask_str = lookup(&given, "mask=");
        let sock = lookup(&given, "sock=");
        let num_queues_str = lookup(&given, "num_queues=");
        let queue_size_str = lookup(&given, "queue_size=");
        let tap_str = lookup(&given, "tap=");

        let ip = if ip_str.is_empty() {
            None
        } else {
            Some(Ipv4Addr::parse(ip_str))
        };
        let mask = if mask_str.is_empty() {
            None
        } else {
            Some(Ipv4Addr::parse(mask_str))
        };
        let num_queues = if num_queues_str.is_empty() {
            None
        } else {
            Some(parse_usize(num_queues_str))
        };
        let queue_size = if queue_size_str.is_empty() {
            None
        } else {
            Some(parse_u16(queue_size_str))
        };
        VhostUserNetBackendConfig::assemble(sock, ip, mask, num_queues, queue_size, tap_str)
    }
}

/// How parameters are written, each with its key in front.
pub open spec fn written_params(set: Settings, tap: Seq<char>) -> Seq<Seq<char>> {
    seq![
        "ip="@ + ipv4::written(set.ip),
        "mask="@ + ipv4::written(set.mask),
        "sock="@ + set.sock,
        "num_queues="@ + params::decimal(set.num_queues as nat),
        "queue_size="@ + params::decimal(set.queue_size as nat),
        "tap="@ + tap,
    ]
}

/// A configuration that is written out as parameters reads back as itself. The socket is not empty,
/// the name of the tap device is where there is none, and neither holds a comma.
pub proof fn law_settings_read_back(set: Settings, tap: Seq<char>)
    requires
        set.tap == if tap.len() == 0 {
            None
        } else {
            Some(tap)
        },
        !tap.contains(','),
        set.sock.len() > 0,
        !set.sock.contains(','),
    ensures
        settings(params::joined(written_params(set, tap), ',')) == Ok::<Settings, Error>(set),
{
    let given = written_params(set, tap);
    let text = params::joined(given, ',');
    reveal_strlit("ip=");
    reveal_strlit("mask=");
    reveal_strlit("sock=");
    reveal_strlit("num_queues=");
    reveal_strlit("queue_size=");
    reveal_strlit("tap=");
    ipv4::law_address_reads_back(set.ip);
    ipv4::law_address_reads_back(set.mask);
    params::lemma_decimal(set.num_queues as nat);
    params::lemma_decimal(set.queue_size as nat);
    params::law_number_reads_back(set.num_queues as nat, usize::MAX as nat);
    params::law_number_reads_back(set.queue_size as nat, u16::MAX as nat);
    params::lemma_param_lacks_comma("ip="@, ipv4::written(set.ip));
    params::lemma_param_lacks_comma("mask="@, ipv4::written(set.mask));
    params::lemma_param_lacks_comma("sock="@, set.sock);
    params::lemma_param_lacks_comma("num_queues="@, params::decimal(set.num_queues as nat));
    params::lemma_param_lacks_comma("queue_size="@, params::decimal(set.queue_size as nat));
    params::lemma_param_lacks_comma("tap="@, tap);
    params::law_split_undoes_join(given, ',');
    params::lemma_value_of(given, "ip="@, ipv4::written(set.ip), 0);
    params::lemma_value_of(given, "mask="@, ipv4::written(set.mask), 1);
    params::lemma_value_of(given, "sock="@, set.sock, 2);
    params::lemma_value_of(given, "num_queues="@, params::decimal(set.num_queues as nat), 3);
    params::lemma_value_of(given, "queue_size="@, params::decimal(set.queue_size as nat), 4);
    params::lemma_value_of(given, "tap="@, tap, 5);
    assert(params::split_on(text, ',') == given);
}

/// Each setting follows its own value alone, whatever the others are: what was read where it was
/// given, and its default where it was not.
pub proof fn law_each_setting_follows_its_own_value(
    sock: Seq<char>,
    ip: Option<Result<Ipv4Addr, AddrParseError>>,
    mask: Option<Result<Ipv4Addr, AddrParseError>>,
    num_queues: Option<Result<usize, std::num::ParseIntError>>,
    queue_size: Option<Result<u16, std::num::ParseIntError>>,
    tap: Seq<char>,
)
    requires
        assembled(sock, ip, mask, num_queues, queue_size, tap) is Ok,
    ensures
        ({
            let set = assembled(sock, ip, mask, num_queues, queue_size, tap)->Ok_0;
            &&& set.sock == sock
            &&& ip is None ==> set.ip == (Ipv4Addr { a: 192, b: 168, c: 100, d: 1 })
            &&& ip is Some ==> ip == Some(Ok::<Ipv4Addr, AddrParseError>(set.ip))
            &&& mask is None ==> set.mask == (Ipv4Addr { a: 255, b: 255, c: 255, d: 0 })
            &&& mask is Some ==> mask == Some(Ok::<Ipv4Addr, AddrParseError>(set.mask))
            &&& num_queues is None ==> set.num_queues == 2
            &&& num_queues is Some ==> num_queues == Some(
                Ok::<usize, std::num::ParseIntError>(set.num_queues),
            )
            &&& queue_size is None ==> set.queue_size == 256
            &&& queue_size is Some ==> queue_size == Some(
                Ok::<u16, std::num::ParseIntError>(set.queue_size),
            )
            &&& set.tap is None <==> tap.len() == 0
            &&& set.tap is Some ==> set.tap->0 == tap
        }),
{
}

/// Values make a configuration exactly where there is a socket and all that were given could be read;
/// otherwise the first fault is told, with its reason, in the order of the socket, the address, the
/// netmask, the number of queues and their length.
pub proof fn law_first_fault_is_told(
    sock: Seq<char>,
    ip: Option<Result<Ipv4Addr, AddrParseError>>,
    mask: Option<Result<Ipv4Addr, AddrParseError>>,
    num_queues: Option<Result<usize, std::num::ParseIntError>>,
    queue_size: Option<Result<u16, std::num::ParseIntError>>,
    tap: Seq<char>,
)
    ensures
        ({
            let r = assembled(sock, ip, mask, num_queues, queue_size, tap);
            let bad_ip = ip is Some && ip->0 is Err;
            let bad_mask = mask is Some && mask->0 is Err;
            let bad_num = num_queues is Some && num_queues->0 is Err;
            let bad_size = queue_size is Some && queue_size->0 is Err;
            &&& r is Ok <==> sock.len() > 0 && !bad_ip && !bad_mask && !bad_num && !bad_size
            &&& sock.len() == 0 ==> r == Err::<Settings, Error>(Error::ParseSockParam)
            &&& sock.len() > 0 && bad_ip ==> r == Err::<Settings, Error>(
                Error::ParseIpParam((ip->0)->Err_0),
            )
            &&& sock.len() > 0 && !bad_ip && bad_mask ==> r == Err::<Settings, Error>(
                Error::ParseMaskParam((mask->0)->Err_0),
            )
            &&& sock.len() > 0 && !bad_ip && !bad_mask && bad_num ==> r == Err::<Settings, Error>(
                Error::ParseQueueNumParam((num_queues->0)->Err_0),
            )
            &&& sock.len() > 0 && !bad_ip && !bad_mask && !bad_num && bad_size ==> r == Err::<
                Settings,
                Error,
            >(Error::ParseQueueSizeParam((queue_size->0)->Err_0))
        }),
{
}

/// Each setting follows its own parameter, whatever the others are: an address is the one that its
/// value writes, a number the one that its value writes, and each has its default where its value is
/// empty.
pub proof fn law_settings_follow_their_parameters(text: Seq<char>)
    requires
        settings(text) is Ok,
    ensures
        ({
            let set = settings(text)->Ok_0;
            let given = params::split_on(text, ',');
            let ip = params::value_of(given, "ip="@);
            let mask = params::value_of(given, "mask="@);
            let num_queues = params::value_of(given, "num_queues="@);
            let queue_size = params::value_of(given, "queue_size="@);
            let tap = params::value_of(given, "tap="@);
            &&& set.sock == params::value_of(given, "sock="@)
            &&& set.sock.len() > 0
            &&& ip.len() > 0 ==> ipv4::written(set.ip) == ip
            &&& ip.len() == 0 ==> set.ip == (Ipv4Addr { a: 192, b: 168, c: 100, d: 1 })
            &&& mask.len() > 0 ==> ipv4::written(set.mask) == mask
            &&& mask.len() == 0 ==> set.mask == (Ipv4Addr { a: 255, b: 255, c: 255, d: 0 })
            &&& num_queues.len() > 0 ==> params::number(num_queues, usize::MAX as nat) == Some(
                set.num_queues as nat,
            )
            &&& num_queues.len() == 0 ==> set.num_queues == 2
            &&& queue_size.len() > 0 ==> params::number(queue_size, 65535) == Some(
                set.queue_size as nat,
            )
            &&& queue_size.len() == 0 ==> set.queue_size == 256
            &&& set.tap is None <==> tap.len() == 0
            &&& set.tap is Some ==> set.tap->0 == tap
        }),
{
    let set = settings(text)->Ok_0;
    let given = params::split_on(text, ',');
    ipv4::law_addresses_are_read_as_written(params::value_of(given, "ip="@), set.ip);
    ipv4::law_addresses_are_read_as_written(params::value_of(given, "mask="@), set.mask);
}

/// Parameters are refused on account of the first fault, and only where there is one: a socket that
/// is missing, or a value that writes no address or no number that fits.
pub proof fn law_faults_of_parameters(text: Seq<char>)
    ensures
        ({
            let given = params::split_on(text, ',');
            let sock = params::value_of(given, "sock="@);
            let ip = params::value_of(given, "ip="@);
            let mask = params::value_of(given, "mask="@);
            let num_queues = params::value_of(given, "num_queues="@);
            let queue_size = params::value_of(given, "queue_size="@);
            let bad_ip = ip.len() > 0 && forall|addr: Ipv4Addr|
                #[trigger] ipv4::written(addr) != ip;
            let bad_mask = mask.len() > 0 && forall|addr: Ipv4Addr|
                #[trigger] ipv4::written(addr) != mask;
            let bad_num = num_queues.len() > 0 && params::number(
                num_queues,
                usize::MAX as nat,
            ) is None;
            let bad_size = queue_size.len() > 0 && params::number(queue_size, 65535) is None;
            let r = settings(text);
            let addr_error = AddrParseError(AddrKind::Ipv4);
            &&& r is Ok <==> sock.len() > 0 && !bad_ip && !bad_mask && !bad_num && !bad_size
            &&& sock.len() == 0 ==> r == Err::<Settings, Error>(Error::ParseSockParam)
            &&& sock.len() > 0 && bad_ip ==> r == Err::<Settings, Error>(
                Error::ParseIpParam(addr_error),
            )
            &&& sock.len() > 0 && !bad_ip && bad_mask ==> r == Err::<Settings, Error>(
                Error::ParseMaskParam(addr_error),
            )
            &&& sock.len() > 0 && !bad_ip && !bad_mask && bad_num ==> r == Err::<Settings, Error>(
                Error::ParseQueueNumParam(params::usize_error(num_queues)),
            )
            &&& sock.len() > 0 && !bad_ip && !bad_mask && !bad_num && bad_size ==> r == Err::<
                Settings,
                Error,
            >(Error::ParseQueueSizeParam(params::u16_error(queue_size)))
        }),
{
    let given = params::split_on(text, ',');
    ipv4::lemma_address_exists(params::value_of(given, "ip="@));
    ipv4::lemma_address_exists(params::value_of(given, "mask="@));
}

/// A configuration shows what it holds, and a call sets what it returns.
pub proof fn law_configuration_shows_its_settings(config: VhostUserNetBackendConfig, e: Error)
    ensures
        config.view().ip == config.ip,
        config.view().mask == config.mask,
        config.view().sock == config.sock@,
        config.view().num_queues == config.num_queues,
        config.view().queue_size == config.queue_size,
        config.view().tap is Some <==> config.tap is Some,
        config.tap is Some ==> config.view().tap->0 == config.tap->0@,
        set_by(Ok(config)) == Ok::<Settings, Error>(config.view()),
        set_by(Err(e)) == Err::<Settings, Error>(e),
{
}

} // verus!
