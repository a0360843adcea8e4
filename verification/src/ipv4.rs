//! IPv4 addresses.
use crate::params;
use crate::params::split;
use vstd::prelude::*;
use vstd::string::StrSliceExecFns;

verus! {

/// An IPv4 address, by its four octets.
#[derive(Clone, Copy, PartialEq, Eq, Structural, Debug)]
pub struct Ipv4Addr {
    pub a: u8,
    pub b: u8,
    pub c: u8,
    pub d: u8,
}

/// What kind of address a text is not.
#[derive(Clone, Copy, PartialEq, Eq, Structural, Debug)]
pub enum AddrKind {
    Ipv4,
}

/// A text is not an address.
#[derive(Clone, Copy, PartialEq, Eq, Structural, Debug)]
pub struct AddrParseError(pub AddrKind);

/// The octet that `text` writes: one to three digits, the first of several not zero, and a value
/// of at most 255.
pub open spec fn octet(text: Seq<char>) -> Option<u8> {
    if 1 <= text.len() <= 3 && (forall|i: int|
        0 <= i < text.len() ==> params::is_digit(#[trigger] text[i])) && (text.len() > 1
        ==> text[0] != '0') && params::digits_value(text) <= 255 {
        Some(params::digits_value(text) as u8)
    } else {
        None
    }
}

/// The address that `text` writes: four octets with dots between them.
pub open spec fn address(text: Seq<char>) -> Option<Ipv4Addr> {
    let parts = params::split_on(text, '.');
    if parts.len() == 4 && octet(parts[0]) is Some && octet(parts[1]) is Some && octet(
        parts[2],
    ) is Some && octet(parts[3]) is Some {
        Some(
            Ipv4Addr {
                a: octet(parts[0])->0,
                b: octet(parts[1])->0,
                c: octet(parts[2])->0,
                d: octet(parts[3])->0,
            },
        )
    } else {
        None
    }
}

/// What reading `text` as an address gives.
pub open spec fn read_address(text: Seq<char>) -> Result<Ipv4Addr, AddrParseError> {
    match address(text) {
        Some(addr) => Ok(addr),
        None => Err(AddrParseError(AddrKind::Ipv4)),
    }
}

/// The address that the parameter `key` sets, or `default` where it sets none.
pub open spec fn address_or(
    given: Seq<Seq<char>>,
    key: Seq<char>,
    default: Ipv4Addr,
) -> Option<Ipv4Addr> {
    let value = params::value_of(given, key);
    if value.len() == 0 {
        Some(default)
    } else {
        address(value)
    }
}

/// The address of a tap device for which none is given.
pub open spec fn default_ip() -> Ipv4Addr {
    Ipv4Addr { a: 192, b: 168, c: 100, d: 1 }
}

/// The netmask of a tap device for which none is given.
pub open spec fn default_mask() -> Ipv4Addr {
    Ipv4Addr { a: 255, b: 255, c: 255, d: 0 }
}

/// Reads an octet.
fn parse_octet(text: &str) -> (value: Option<u8>)
    ensures
        value == octet(text@),
{
    let len: usize = text.unicode_len();
    if len == 0 || len > 3 {
        return None;
    }
    if len > 1 && text.get_char(0) == '0' {
        return None;
    }
    let mut value: u32 = 0;
    let mut i: usize = 0;
    assert(text@.take(0).len() == 0);
    while i < len
        invariant
            len == text@.len(),
            len <= 3,
            i <= len,
            value == params::digits_value(text@.take(i as int)),
            i == 0 ==> value == 0,
            i == 1 ==> value <= 9,
            i == 2 ==> value <= 99,
            i == 3 ==> value <= 999,
            forall|j: int| 0 <= j < i ==> params::is_digit(#[trigger] text@[j]),
        decreases len - i,
    {
        let c = text.get_char(i);
        if c < '0' || c > '9' {
            assert(!params::is_digit(text@[i as int]));
            return None;
        }
        assert(text@.take(i + 1).drop_last() =~= text@.take(i as int));
        value = value * 10 + (c as u32 - '0' as u32);
        i = i + 1;
    }
    assert(text@.take(len as int) =~= text@);
    if value <= 255 {
        Some(value as u8)
    } else {
        None
    }
}

impl Ipv4Addr {
    /// Reads an address.
    pub fn parse(text: &str) -> (r: Result<Ipv4Addr, AddrParseError>)
        ensures
            r == read_address(text@),
    {
        let parts = split(text, '.');
        let ghost seen = params::texts(parts@);
        if parts.len() != 4 {
            assert(seen.len() != 4);
            return Err(AddrParseError(AddrKind::Ipv4));
        }
        assert(seen[0] == parts@[0]@ && seen[1] == parts@[1]@ && seen[2] == parts@[2]@ && seen[3]
            == parts@[3]@);
        match (
            parse_octet(parts[0]),
            parse_octet(parts[1]),
            parse_octet(parts[2]),
            parse_octet(parts[3]),
        ) {
            (Some(a), Some(b), Some(c), Some(d)) => Ok(Ipv4Addr { a, b, c, d }),
            _ => Err(AddrParseError(AddrKind::Ipv4)),
        }
    }
}

/// The octets of an address, each in decimal digits.
pub open spec fn octets_of(addr: Ipv4Addr) -> Seq<Seq<char>> {
    seq![
        params::decimal(addr.a as nat),
        params::decimal(addr.b as nat),
        params::decimal(addr.c as nat),
        params::decimal(addr.d as nat),
    ]
}

/// How an address is written: its four octets in decimal digits, with dots between them.
pub open spec fn written(addr: Ipv4Addr) -> Seq<char> {
    params::joined(octets_of(addr), '.')
}

proof fn lemma_octet_reads_back(n: u8)
    ensures
        octet(params::decimal(n as nat)) == Some(n),
{
    params::lemma_decimal(n as nat);
}

/// An address that is written out is read back, and holds no comma.
pub proof fn law_address_reads_back(addr: Ipv4Addr)
    ensures
        address(written(addr)) == Some(addr),
        !written(addr).contains(','),
        written(addr).len() > 0,
{
    let parts = octets_of(addr);
    params::lemma_decimal(addr.a as nat);
    params::lemma_decimal(addr.b as nat);
    params::lemma_decimal(addr.c as nat);
    params::lemma_decimal(addr.d as nat);
    params::law_split_undoes_join(parts, '.');
    lemma_octet_reads_back(addr.a);
    lemma_octet_reads_back(addr.b);
    lemma_octet_reads_back(addr.c);
    lemma_octet_reads_back(addr.d);
    let text = parts[0].push('.') + parts[1];
    let text3 = text.push('.') + parts[2];
    let text4 = text3.push('.') + parts[3];
    assert(written(addr) =~= text4) by {
        reveal_with_fuel(params::joined, 4);
        assert(parts.drop_last().drop_last().drop_last() =~= seq![parts[0]]);
        assert(parts.drop_last().last() == parts[2]);
        assert(parts.drop_last().drop_last().last() == parts[1]);
    }
    lemma_joined_lacks(parts[0], '.', parts[1], ',');
    lemma_joined_lacks(text, '.', parts[2], ',');
    lemma_joined_lacks(text3, '.', parts[3], ',');
}

proof fn lemma_joined_lacks(front: Seq<char>, sep: char, back: Seq<char>, c: char)
    requires
        !front.contains(c),
        !back.contains(c),
        sep != c,
    ensures
        !(front.push(sep) + back).contains(c),
{
    let whole = front.push(sep) + back;
    assert forall|i: int| 0 <= i < whole.len() implies whole[i] != c by {
        if i < front.len() {
            assert(front.contains(front[i]));
        } else if i > front.len() {
            assert(back.contains(back[i - front.len() - 1]));
        }
    }
}

/// An octet is read from its decimal digits, and from nothing else.
pub proof fn law_octets_are_their_digits(text: Seq<char>, n: u8)
    ensures
        octet(text) == Some(n) <==> text == params::decimal(n as nat),
{
    lemma_octet_reads_back(n);
    if octet(text) == Some(n) {
        params::law_numbers_are_what_their_digits_write(text, 255, n as nat);
        assert(params::is_digit(text[0]));
        assert(params::unsigned(text) == text);
        let k = choose|k: nat|
            text == #[trigger] params::zeros(k) + params::decimal(n as nat) || text == seq!['+'] + (
            params::zeros(k) + params::decimal(n as nat));
        params::lemma_decimal(n as nat);
        if text != params::zeros(k) + params::decimal(n as nat) {
            assert(text[0] == '+');
        }
        if k > 0 {
            assert(text[0] == '0');
        } else {
            assert(text =~= params::decimal(n as nat));
        }
    }
}

/// An address is read from the one way in which it is written, and from nothing else.
pub proof fn law_addresses_are_read_as_written(text: Seq<char>, addr: Ipv4Addr)
    ensures
        address(text) == Some(addr) <==> text == written(addr),
        read_address(text) == Ok::<Ipv4Addr, AddrParseError>(addr) <==> text == written(addr),
        read_address(text) is Err ==> read_address(text)->Err_0 == AddrParseError(AddrKind::Ipv4),
{
    law_address_reads_back(addr);
    if address(text) == Some(addr) {
        let parts = params::split_on(text, '.');
        params::law_join_undoes_split(text, '.');
        law_octets_are_their_digits(parts[0], addr.a);
        law_octets_are_their_digits(parts[1], addr.b);
        law_octets_are_their_digits(parts[2], addr.c);
        law_octets_are_their_digits(parts[3], addr.d);
        assert(parts =~= octets_of(addr));
    }
}

/// Addresses are written apart: two that are written alike are the same.
pub proof fn law_addresses_are_written_apart(a: Ipv4Addr, b: Ipv4Addr)
    requires
        written(a) == written(b),
    ensures
        a == b,
{
    law_address_reads_back(a);
    law_address_reads_back(b);
}

/// A text writes an address exactly where one is read from it.
pub proof fn lemma_address_exists(text: Seq<char>)
    ensures
        address(text) is Some <==> exists|addr: Ipv4Addr| #[trigger] written(addr) == text,
{
    if address(text) is Some {
        law_addresses_are_read_as_written(text, address(text)->0);
    }
    if exists|addr: Ipv4Addr| #[trigger] written(addr) == text {
        let addr = choose|addr: Ipv4Addr| #[trigger] written(addr) == text;
        law_addresses_are_read_as_written(text, addr);
    }
}

} // verus!
