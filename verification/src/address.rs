//! Client addresses and the networks that cover them.

use vstd::arithmetic::power2::pow2;
use vstd::prelude::*;

use crate::text::decimal_text;

verus! {

/// An address as a number, the first octet most significant.
#[derive(Clone, Copy, Debug, PartialEq, Eq, Structural)]
pub enum IpAddr {
    V4(u32),
    V6(u128),
}

/// A network: an address and the number of its leading bits that count.
#[derive(Clone, Copy, Debug, PartialEq, Eq, Structural)]
pub struct Network {
    pub addr: IpAddr,
    pub prefix_len: u8,
}

impl IpAddr {
    /// How many bits an address of this family has.
    pub open spec fn width(self) -> nat {
        match self {
            IpAddr::V4(_) => 32,
            IpAddr::V6(_) => 128,
        }
    }

    /// The address as a number.
    pub open spec fn number(self) -> nat {
        match self {
            IpAddr::V4(bits) => bits as nat,
            IpAddr::V6(bits) => bits as nat,
        }
    }
}

impl Network {
    /// Whether the prefix is no longer than the address.
    pub open spec fn valid(self) -> bool {
        self.prefix_len <= self.addr.width()
    }

    /// How many addresses the network has.
    pub open spec fn size(self) -> nat {
        pow2((self.addr.width() - self.prefix_len) as nat)
    }

    /// Whether an address lies in the network: it is of the same family and
    /// begins with the same `prefix_len` bits.
    pub open spec fn covers(self, ip: IpAddr) -> bool {
        &&& self.addr.width() == ip.width()
        &&& self.addr.number() / self.size() == ip.number() / self.size()
    }

    /// The number of the first address of the network.
    pub open spec fn first(self) -> nat {
        (self.addr.number() / self.size()) * self.size()
    }

    /// The number of the last address of the network.
    pub open spec fn last(self) -> int {
        self.first() + self.size() - 1
    }
}

/// A name for what the parser of `core::net::IpAddr` makes of a text: the
/// address, where the text is one.
pub uninterp spec fn parsed_address(text: Seq<char>) -> Option<IpAddr>;

/// A name for what the parser of `ipnet::IpNet` makes of a text: the address
/// and the prefix length, where the text is a network in CIDR notation.
pub uninterp spec fn parsed_cidr(text: Seq<char>) -> Option<(IpAddr, u8)>;

/// A name for the text that an IPv6 address is displayed as by
/// `core::net::IpAddr`.
pub uninterp spec fn ipv6_text(bits: u128) -> Seq<char>;

/// The four octets of an IPv4 address in decimal, with points between them.
pub open spec fn dotted_text(bits: u32) -> Seq<char> {
    decimal_text((bits / 0x100_0000) as nat) + seq!['.'] + decimal_text(
        (bits / 0x1_0000 % 0x100) as nat,
    ) + seq!['.'] + decimal_text((bits / 0x100 % 0x100) as nat) + seq!['.'] + decimal_text(
        (bits % 0x100) as nat,
    )
}

/// The text that an address is shown as.
pub open spec fn address_text(ip: IpAddr) -> Seq<char> {
    match ip {
        IpAddr::V4(bits) => dotted_text(bits),
        IpAddr::V6(bits) => ipv6_text(bits),
    }
}

/// The network that a text stands for, where it stands for one.
pub open spec fn parsed_network(text: Seq<char>) -> Option<Network> {
    match parsed_cidr(text) {
        Some((addr, prefix_len)) => Some(Network { addr, prefix_len }),
        None => None,
    }
}

/// Calls the parser of `core::net::IpAddr`. What it makes of a text goes by the
/// name `parsed_address`.
#[verifier::external_body]
pub(crate) fn parse_address(text: &str) -> (parsed: Option<IpAddr>)
    ensures
        parsed == parsed_address(text@),
{
    match text.parse::<core::net::IpAddr>() {
        Ok(core::net::IpAddr::V4(v4)) => Some(IpAddr::V4(v4.to_bits())),
        Ok(core::net::IpAddr::V6(v6)) => Some(IpAddr::V6(v6.to_bits())),
        Err(_) => None,
    }
}

/// Displays a `core::net::IpAddr`: an IPv4 address in dotted decimal form. The
/// text of an IPv6 address goes by the name `ipv6_text`.
#[verifier::external_body]
pub(crate) fn show_address(ip: IpAddr) -> (text: String)
    ensures
        match ip {
            IpAddr::V4(bits) => text@ == dotted_text(bits),
            IpAddr::V6(bits) => text@ == ipv6_text(bits),
        },
{
    match ip {
        IpAddr::V4(bits) => core::net::IpAddr::V4(core::net::Ipv4Addr::from_bits(bits)).to_string(),
        IpAddr::V6(bits) => core::net::IpAddr::V6(core::net::Ipv6Addr::from_bits(bits)).to_string(),
    }
}

/// Calls the parser of `ipnet::IpNet`, whose prefix lengths are no longer than
/// the address. What it makes of a text goes by the name `parsed_cidr`; the
/// words of its one error are "invalid IP address syntax".
#[verifier::external_body]
pub(crate) fn parse_cidr(text: &str) -> (parsed: Result<(IpAddr, u8), String>)
    ensures
        match parsed {
            Ok((addr, prefix_len)) => parsed_cidr(text@) == Some((addr, prefix_len)) && prefix_len
                <= addr.width(),
            Err(words) => parsed_cidr(text@) is None && words@ == "invalid IP address syntax"@,
        },
{
    match text.parse::<ipnet::IpNet>() {
        Ok(ipnet::IpNet::V4(net)) => Ok((IpAddr::V4(net.addr().to_bits()), net.prefix_len())),
        Ok(ipnet::IpNet::V6(net)) => Ok((IpAddr::V6(net.addr().to_bits()), net.prefix_len())),
        Err(error) => Err(error.to_string()),
    }
}

/// Calls `ipnet::IpNet::contains` for an address: whether it lies between the
/// first and the last address of the network, and is of the same family.
#[verifier::external_body]
pub(crate) fn network_contains(network: &Network, ip: &IpAddr) -> (contained: bool)
    requires
        network.valid(),
    ensures
        contained == network.covers(*ip),
{
    let net = match network.addr {
        IpAddr::V4(bits) => ipnet::IpNet::new_assert(bits.to_be_bytes().into(), network.prefix_len),
        IpAddr::V6(bits) => ipnet::IpNet::new_assert(bits.to_be_bytes().into(), network.prefix_len),
    };
    match *ip {
        IpAddr::V4(bits) => net.contains(&core::net::IpAddr::from(bits.to_be_bytes())),
        IpAddr::V6(bits) => net.contains(&core::net::IpAddr::from(bits.to_be_bytes())),
    }
}

/// Reads a network in CIDR notation.
pub fn parse_network(text: &str) -> (parsed: Result<Network, String>)
    ensures
        match parsed {
            Ok(network) => parsed_network(text@) == Some(network) && network.valid(),
            Err(words) => parsed_network(text@) is None && words@ == "invalid IP address syntax"@,
        },
{
    match parse_cidr(text) {
        Ok((addr, prefix_len)) => Ok(Network { addr, prefix_len }),
        Err(words) => Err(words),
    }
}

/// The IPv6 form `::ffff:a.b.c.d` of an IPv4 address.
pub open spec fn mapped(v4: u32) -> nat {
    0xffff_0000_0000 + v4 as nat
}

/// An address as it is matched against networks: an IPv4 address in its IPv6
/// form stands for the IPv4 address.
pub open spec fn normalized(ip: IpAddr) -> IpAddr {
    match ip {
        IpAddr::V6(bits) => if 0xffff_0000_0000 <= bits <= 0xffff_ffff_ffff {
            IpAddr::V4((bits - 0xffff_0000_0000) as u32)
        } else {
            ip
        },
        IpAddr::V4(_) => ip,
    }
}

/// Turns an IPv4 address in its IPv6 form (`::ffff:a.b.c.d`) into the IPv4
/// address, so that an IPv4 network covers a client that arrives over a
/// dual-stack hop.
pub fn normalize_mapped_ipv4(ip: IpAddr) -> (plain: IpAddr)
    ensures
        plain == normalized(ip),
{
    match ip {
        IpAddr::V6(bits) => {
            if 0xffff_0000_0000 <= bits && bits <= 0xffff_ffff_ffff {
                IpAddr::V4((bits - 0xffff_0000_0000) as u32)
            } else {
                IpAddr::V6(bits)
            }
        },
        v4 => v4,
    }
}

/// A network covers exactly the addresses of its family from its first to its
/// last one.
pub proof fn network_is_a_range(network: Network, ip: IpAddr)
    requires
        network.valid(),
    ensures
        network.covers(ip) <==> network.addr.width() == ip.width() && network.first()
            <= ip.number() <= network.last(),
{
    let size = network.size() as int;
    vstd::arithmetic::power2::lemma_pow2_pos((network.addr.width() - network.prefix_len) as nat);
    let a = network.addr.number() as int;
    let b = ip.number() as int;
    assert(a / size == b / size <==> (a / size) * size <= b < (a / size) * size + size)
        by (nonlinear_arith)
        requires
            size > 0,
    ;
}

/// The address of a network lies in it; a prefix of length zero covers the
/// whole family, and a prefix of full length the one address alone.
pub proof fn network_extremes(network: Network, ip: IpAddr)
    requires
        network.valid(),
    ensures
        network.covers(network.addr),
        network.prefix_len == 0 ==> (network.covers(ip) <==> network.addr.width() == ip.width()),
        network.prefix_len == network.addr.width() ==> (network.covers(ip) <==> ip == network.addr),
{
    network_is_a_range(network, ip);
    network_is_a_range(network, network.addr);
    vstd::arithmetic::power2::lemma2_to64();
    vstd::arithmetic::power2::lemma_pow2_adds(64, 64);
    if network.prefix_len == 0 && network.addr.width() == ip.width() {
        vstd::arithmetic::div_mod::lemma_basic_div(
            network.addr.number() as int,
            network.size() as int,
        );
        vstd::arithmetic::div_mod::lemma_basic_div(ip.number() as int, network.size() as int);
    }
}

/// The IPv6 form of an IPv4 address is matched as that IPv4 address.
pub proof fn mapped_address_is_plain(v4: u32)
    ensures
        normalized(IpAddr::V6(mapped(v4) as u128)) == IpAddr::V4(v4),
        normalized(IpAddr::V4(v4)) == IpAddr::V4(v4),
{
}

/// Normalising twice changes nothing more, and touches no other address than
/// the IPv6 form of an IPv4 address.
pub proof fn normalizing_settles(ip: IpAddr)
    ensures
        normalized(normalized(ip)) == normalized(ip),
        normalized(ip) == ip <==> !(ip is V6 && exists|v4: u32| ip.number() == #[trigger] mapped(v4)),
{
    if let IpAddr::V6(bits) = ip {
        if 0xffff_0000_0000 <= bits <= 0xffff_ffff_ffff {
            assert(ip.number() == mapped((bits - 0xffff_0000_0000) as u32));
        }
    }
}

/// Only the IPv6 addresses whose leading bits are those of `::ffff:0:0` are
/// matched as IPv4 addresses, by their last 32 bits; every other address is
/// matched as it is.
pub proof fn only_mapped_addresses_change(bits: u128, v4: u32)
    ensures
        bits / 0x1_0000_0000 == 0xffff ==> normalized(IpAddr::V6(bits)) == IpAddr::V4(
            (bits % 0x1_0000_0000) as u32,
        ),
        bits / 0x1_0000_0000 != 0xffff ==> normalized(IpAddr::V6(bits)) == IpAddr::V6(bits),
        normalized(IpAddr::V4(v4)) == IpAddr::V4(v4),
{
}

/// A text stands for the network that the CIDR parser reads from it, and for
/// none where the parser refuses it.
pub proof fn network_is_what_was_parsed(text: Seq<char>)
    ensures
        parsed_cidr(text) is Some <==> parsed_network(text) is Some,
        parsed_network(text) matches Some(network) ==> parsed_cidr(text) == Some(
            (network.addr, network.prefix_len),
        ),
{
}

/// An IPv4 address is shown by its four octets, in decimal, the first octet
/// first and points between them; an IPv6 address as the standard library shows
/// it.
#[verifier::spinoff_prover]
pub proof fn address_is_shown_by_its_octets(a: u8, b: u8, c: u8, d: u8, v6: u128)
    ensures
        address_text(
            IpAddr::V4((a * 0x100_0000 + b * 0x1_0000 + c * 0x100 + d) as u32),
        ) == decimal_text(a as nat) + seq!['.'] + decimal_text(b as nat) + seq!['.']
            + decimal_text(c as nat) + seq!['.'] + decimal_text(d as nat),
        address_text(IpAddr::V6(v6)) == ipv6_text(v6),
{
    let number: int = a * 0x100_0000 + b * 0x1_0000 + c * 0x100 + d;
    let bits = number as u32;
    assert(bits == number);
    assert(bits / 0x100_0000 == a);
    assert(bits / 0x1_0000 == a * 0x100 + b);
    assert(bits / 0x100 == a * 0x1_0000 + b * 0x100 + c);
    assert(bits / 0x1_0000 % 0x100 == b);
    assert(bits / 0x100 % 0x100 == c);
    assert(bits % 0x100 == d);
}

/// The bit of a number with the weight `pow2(place)`.
pub open spec fn bit_at(number: nat, place: nat) -> int {
    (number as int / pow2(place) as int) % 2
}

/// Numbers below `pow2(width)` have the same quotient by `pow2(low)` exactly if
/// they agree in the bits from `low` on.
proof fn equal_quotients_are_equal_bits(a: nat, b: nat, low: nat, width: nat)
    requires
        a < pow2(width),
        b < pow2(width),
        low <= width,
    ensures
        a as int / pow2(low) as int == b as int / pow2(low) as int <==> forall|place: nat|
            low <= place < width ==> #[trigger] bit_at(a, place) == bit_at(b, place),
    decreases width - low,
{
    vstd::arithmetic::power2::lemma_pow2_pos(low);
    vstd::arithmetic::power2::lemma_pow2_pos(width);
    if low == width {
        vstd::arithmetic::div_mod::lemma_basic_div(a as int, pow2(width) as int);
        vstd::arithmetic::div_mod::lemma_basic_div(b as int, pow2(width) as int);
    } else {
        equal_quotients_are_equal_bits(a, b, low + 1, width);
        vstd::arithmetic::power2::lemma_pow2_unfold(low + 1);
        let size = pow2(low) as int;
        vstd::arithmetic::div_mod::lemma_div_denominator(a as int, size, 2);
        vstd::arithmetic::div_mod::lemma_div_denominator(b as int, size, 2);
        assert(pow2(low + 1) == size * 2);
        assert(a as int / pow2(low + 1) as int == (a as int / size) / 2);
        assert(b as int / pow2(low + 1) as int == (b as int / size) / 2);
        assert(bit_at(a, low) == (a as int / size) % 2);
        assert(bit_at(b, low) == (b as int / size) % 2);
        if forall|place: nat|
            low <= place < width ==> #[trigger] bit_at(a, place) == bit_at(b, place) {
            assert(bit_at(a, low) == bit_at(b, low));
        }
        if a as int / size == b as int / size {
            assert forall|place: nat| low <= place < width implies #[trigger] bit_at(a, place)
                == bit_at(b, place) by {
                if place > low {
                    assert(low + 1 <= place);
                }
            }
        }
    }
}

/// A network covers the addresses of its family whose leading bits, as many as
/// the prefix is long, are those of its own address: of 32 bits in an IPv4
/// network and of 128 in an IPv6 network.
pub proof fn prefix_bits_decide(network: Network, ip: IpAddr)
    requires
        network.valid(),
    ensures
        network.covers(ip) <==> match (network.addr, ip) {
            (IpAddr::V4(own), IpAddr::V4(bits)) => forall|place: nat|
                32 - network.prefix_len <= place < 32 ==> #[trigger] bit_at(own as nat, place)
                    == bit_at(bits as nat, place),
            (IpAddr::V6(own), IpAddr::V6(bits)) => forall|place: nat|
                128 - network.prefix_len <= place < 128 ==> #[trigger] bit_at(own as nat, place)
                    == bit_at(bits as nat, place),
            _ => false,
        },
{
    vstd::arithmetic::power2::lemma2_to64();
    vstd::arithmetic::power2::lemma_pow2_adds(64, 64);
    if network.addr.width() == ip.width() {
        equal_quotients_are_equal_bits(
            network.addr.number(),
            ip.number(),
            (network.addr.width() - network.prefix_len) as nat,
            network.addr.width(),
        );
    }
}

}
