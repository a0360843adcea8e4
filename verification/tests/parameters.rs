use vhost_user_net::ipv4::{AddrKind, AddrParseError, Ipv4Addr};
use vhost_user_net::multi_queue;
use vhost_user_net::params::{lookup, split};
use vhost_user_net::single_queue;

fn addr(a: u8, b: u8, c: u8, d: u8) -> Ipv4Addr {
    Ipv4Addr { a, b, c, d }
}

#[test]
fn split_keeps_empty_parts() {
    assert_eq!(split("", ','), vec![""]);
    assert_eq!(split(",", ','), vec!["", ""]);
    assert_eq!(split("a,,b", ','), vec!["a", "", "b"]);
    assert_eq!(split("ip=1,sock=\u{fc}\u{20ac}", ','), vec!["ip=1", "sock=\u{fc}\u{20ac}"]);
}

#[test]
fn joining_the_parts_gives_the_text_back() {
    for text in ["", "a", "a,b,", ",,", "sock=\u{20ac},tap=x"] {
        let parts = split(text, ',');
        assert_eq!(parts.join(","), text);
        assert!(parts.iter().all(|p| !p.contains(',')));
    }
}

#[test]
fn last_parameter_decides_its_key_alone() {
    let given = split("tap=a,sock=s,tap=b", ',');
    assert_eq!(lookup(&given, "tap="), "b");
    assert_eq!(lookup(&given, "sock="), "s");
    assert_eq!(lookup(&given, "ip="), "");
}

#[test]
fn addresses() {
    assert_eq!(Ipv4Addr::parse("192.168.100.1"), Ok(addr(192, 168, 100, 1)));
    assert_eq!(Ipv4Addr::parse("0.0.0.0"), Ok(addr(0, 0, 0, 0)));
    assert_eq!(Ipv4Addr::parse("255.255.255.255"), Ok(addr(255, 255, 255, 255)));
    let bad = [
        "", "1.2.3", "1.2.3.4.5", "256.1.1.1", "1.2.3.4 ", "01.2.3.4", "1.2.3.0004", "1..3.4",
        "a.b.c.d", "0.00.0.0", "9.8.7.6x", "1.2.3.-4", "+1.2.3.4", "1.2.3.999", "\u{661}.2.3.4", "1.2.3.4.",
    ];
    for text in bad {
        assert_eq!(Ipv4Addr::parse(text), Err(AddrParseError(AddrKind::Ipv4)), "{}", text);
    }
}

#[test]
fn single_queue_defaults() {
    let config = single_queue::config::VhostUserNetBackendConfig::parse("sock=/tmp/s").ok().unwrap();
    assert_eq!(config.ip, addr(192, 168, 100, 1));
    assert_eq!(config.mask, addr(255, 255, 255, 0));
    assert_eq!(config.sock, "/tmp/s");
}

#[test]
fn single_queue_all_parameters_in_any_order() {
    let text = "mask=255.0.0.0,sock=/a=b,other=1,ip=10.0.0.2";
    let config = single_queue::config::VhostUserNetBackendConfig::parse(text).ok().unwrap();
    assert_eq!(config.ip, addr(10, 0, 0, 2));
    assert_eq!(config.mask, addr(255, 0, 0, 0));
    assert_eq!(config.sock, "/a=b");
}

#[test]
fn single_queue_refusals() {
    let parse = |t: &'static str| {
        single_queue::config::VhostUserNetBackendConfig::parse(t).err().unwrap()
    };
    assert!(matches!(parse(""), single_queue::Error::ParseSockParam));
    assert!(matches!(parse("ip=x,mask=y"), single_queue::Error::ParseSockParam));
    assert!(matches!(parse("sock=a,sock="), single_queue::Error::ParseSockParam));
    assert!(matches!(parse("sock=a,ip=x,mask=y"), single_queue::Error::ParseIpParam));
    assert!(matches!(parse("sock=a,mask=y"), single_queue::Error::ParseMaskParam));
}

#[test]
fn multi_queue_defaults() {
    let config = multi_queue::config::VhostUserNetBackendConfig::parse("sock=s").ok().unwrap();
    assert_eq!(config.ip, addr(192, 168, 100, 1));
    assert_eq!(config.mask, addr(255, 255, 255, 0));
    assert_eq!(config.sock, "s");
    assert_eq!(config.num_queues, 2);
    assert_eq!(config.queue_size, 256);
    assert_eq!(config.tap, None);
}

#[test]
fn multi_queue_all_parameters() {
    let text = "tap=tap7,num_queues=+8,queue_size=0512,sock=s,ip=1.2.3.4,mask=4.3.2.1";
    let config = multi_queue::config::VhostUserNetBackendConfig::parse(text).ok().unwrap();
    assert_eq!(config.ip, addr(1, 2, 3, 4));
    assert_eq!(config.mask, addr(4, 3, 2, 1));
    assert_eq!(config.num_queues, 8);
    assert_eq!(config.queue_size, 512);
    assert_eq!(config.tap, Some("tap7"));
}

#[test]
fn multi_queue_largest_numbers() {
    let text = format!("sock=s,num_queues={},queue_size=65535", usize::MAX);
    let config = multi_queue::config::VhostUserNetBackendConfig::parse(&text).ok().unwrap();
    assert_eq!(config.num_queues, usize::MAX);
    assert_eq!(config.queue_size, 65535);
}

#[test]
fn multi_queue_refusals() {
    let parse = |t: &'static str| {
        multi_queue::config::VhostUserNetBackendConfig::parse(t).err().unwrap()
    };
    assert!(matches!(parse("tap=t"), multi_queue::Error::ParseSockParam));
    assert!(matches!(
        parse("sock=s,ip=1,mask=2,num_queues=x"),
        multi_queue::Error::ParseIpParam(AddrParseError(AddrKind::Ipv4))
    ));
    assert!(matches!(
        parse("sock=s,mask=2,num_queues=x"),
        multi_queue::Error::ParseMaskParam(AddrParseError(AddrKind::Ipv4))
    ));
    for text in [
        "sock=s,num_queues=x,queue_size=y", "sock=s,num_queues=-1", "sock=s,num_queues=+",
        "sock=s,num_queues= 2", "sock=s,num_queues=18446744073709551616",
    ] {
        assert!(matches!(parse(text), multi_queue::Error::ParseQueueNumParam(_)), "{}", text);
    }
    for text in ["sock=s,queue_size=y", "sock=s,queue_size=65536", "sock=s,queue_size=1_000"] {
        assert!(matches!(parse(text), multi_queue::Error::ParseQueueSizeParam(_)), "{}", text);
    }
}

#[test]
fn number_errors_are_those_of_the_text() {
    let parse = |t: &'static str| {
        multi_queue::config::VhostUserNetBackendConfig::parse(t).err().unwrap()
    };
    assert!(matches!(
        parse("sock=s,queue_size=70000,num_queues=x"),
        multi_queue::Error::ParseQueueNumParam(e) if e == "x".parse::<usize>().unwrap_err()
    ));
    assert!(matches!(
        parse("sock=s,queue_size=70000,num_queues=1"),
        multi_queue::Error::ParseQueueSizeParam(e) if e == "70000".parse::<u16>().unwrap_err()
    ));
}

#[test]
fn first_fault_counts() {
    let assemble = multi_queue::config::VhostUserNetBackendConfig::assemble;
    let bad_addr = || Some(Err(AddrParseError(AddrKind::Ipv4)));
    let bad_num = || Some(Err("x".parse::<usize>().unwrap_err()));
    let bad_size = || Some(Err("70000".parse::<u16>().unwrap_err()));
    let fault = |sock, ip, mask, num, size| assemble(sock, ip, mask, num, size, "t").err().unwrap();
    assert!(matches!(
        fault("", bad_addr(), bad_addr(), bad_num(), bad_size()),
        multi_queue::Error::ParseSockParam
    ));
    assert!(matches!(
        fault("s", bad_addr(), bad_addr(), bad_num(), bad_size()),
        multi_queue::Error::ParseIpParam(_)
    ));
    assert!(matches!(
        fault("s", Some(Ok(addr(1, 2, 3, 4))), bad_addr(), bad_num(), bad_size()),
        multi_queue::Error::ParseMaskParam(_)
    ));
    assert!(matches!(
        fault("s", None, None, bad_num(), bad_size()),
        multi_queue::Error::ParseQueueNumParam(e) if e == "x".parse::<usize>().unwrap_err()
    ));
    assert!(matches!(
        fault("s", None, None, Some(Ok(4)), bad_size()),
        multi_queue::Error::ParseQueueSizeParam(_)
    ));
    let config = assemble("s", None, None, Some(Ok(4)), Some(Ok(7)), "").ok().unwrap();
    assert_eq!((config.num_queues, config.queue_size, config.tap), (4, 7, None));
}

#[test]
fn configurations_read_back() {
    let text = format!(
        "ip={},mask={},sock={},num_queues={},queue_size={},tap={}",
        "10.0.200.9", "255.255.0.0", "/run/net=1", 40, 1024, "tap0"
    );
    let config = multi_queue::config::VhostUserNetBackendConfig::parse(&text).ok().unwrap();
    assert_eq!((config.ip, config.mask), (addr(10, 0, 200, 9), addr(255, 255, 0, 0)));
    assert_eq!((config.sock, config.tap), ("/run/net=1", Some("tap0")));
    assert_eq!((config.num_queues, config.queue_size), (40, 1024));

    let text = format!("ip={},mask={},sock={}", "10.0.200.9", "255.255.0.0", "/run/net=1");
    let config = single_queue::config::VhostUserNetBackendConfig::parse(&text).ok().unwrap();
    assert_eq!((config.ip, config.mask), (addr(10, 0, 200, 9), addr(255, 255, 0, 0)));
    assert_eq!(config.sock, "/run/net=1");
}
