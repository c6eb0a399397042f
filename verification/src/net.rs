//! Universe numbers, network addresses and the multicast group of a universe.

use crate::text::{decimal, decimal_string, hexadecimal, hexadecimal_string};
use vstd::prelude::*;
use vstd::string::StringExecFns;

verus! {

/// UDP port on which streaming lighting-control data is sent and received.
pub const ACN_SDT_MULTICAST_PORT: u16 = 5568;

/// Lowest universe number that carries data.
pub const MIN_UNIVERSE: u16 = 1;

/// Highest universe number that carries data.
pub const MAX_UNIVERSE: u16 = 63999;

/// Highest priority that a source can claim.
pub const MAX_PRIORITY: u8 = 200;

/// A network address, as plain numbers.
#[derive(Clone, Copy, Debug, PartialEq, Eq, Hash, Structural)]
pub enum IpAddress {
    /// The four octets of an IPv4 address, first octet first.
    V4(u8, u8, u8, u8),
    /// The 128 bits of an IPv6 address, in network order.
    V6(u128),
}

/// The `index`-th 16-bit group of an IPv6 address, the first group being
/// the most significant.
pub open spec fn v6_group(bits: u128, index: int) -> u64 {
    if index == 0 {
        ((bits >> 112) & 0xffff) as u64
    } else if index == 1 {
        ((bits >> 96) & 0xffff) as u64
    } else if index == 2 {
        ((bits >> 80) & 0xffff) as u64
    } else if index == 3 {
        ((bits >> 64) & 0xffff) as u64
    } else if index == 4 {
        ((bits >> 48) & 0xffff) as u64
    } else if index == 5 {
        ((bits >> 32) & 0xffff) as u64
    } else if index == 6 {
        ((bits >> 16) & 0xffff) as u64
    } else {
        (bits & 0xffff) as u64
    }
}

/// The eight groups of an IPv6 address, the most significant first.
pub open spec fn v6_groups(bits: u128) -> Seq<u64> {
    Seq::new(8, |i: int| v6_group(bits, i))
}

/// How many groups from `start` on are zero without a break.
pub open spec fn zero_run(groups: Seq<u64>, start: int) -> int
    decreases groups.len() - start,
{
    if 0 <= start < groups.len() && groups[start] == 0 {
        1 + zero_run(groups, start + 1)
    } else {
        0
    }
}

/// Where the longest run of zero groups begins, among the groups before
/// `upto`; of several runs of that length, the first.
pub open spec fn longest_zero_run(groups: Seq<u64>, upto: int) -> int
    decreases upto,
{
    if upto <= 1 {
        0
    } else {
        let before = longest_zero_run(groups, upto - 1);
        if zero_run(groups, upto - 1) > zero_run(groups, before) {
            upto - 1
        } else {
            before
        }
    }
}

/// The groups in hexadecimal with a colon between each two.
pub open spec fn join_hex(groups: Seq<u64>) -> Seq<char>
    decreases groups.len(),
{
    if groups.len() == 0 {
        Seq::empty()
    } else if groups.len() == 1 {
        hexadecimal(groups[0] as nat)
    } else {
        join_hex(groups.drop_last()) + seq![':'] + hexadecimal(groups.last() as nat)
    }
}

/// Four numbers in decimal with a dot between each two.
pub open spec fn dotted(a: nat, b: nat, c: nat, d: nat) -> Seq<char> {
    decimal(a) + seq!['.'] + decimal(b) + seq!['.'] + decimal(c) + seq!['.'] + decimal(d)
}

/// Whether the groups are those of an IPv4 address mapped into IPv6: five
/// zero groups and one of `ffff` in front of the address.
pub open spec fn is_v4_mapped(groups: Seq<u64>) -> bool {
    &&& groups.len() == 8
    &&& groups[0] == 0
    &&& groups[1] == 0
    &&& groups[2] == 0
    &&& groups[3] == 0
    &&& groups[4] == 0
    &&& groups[5] == 0xffff
}

/// An IPv6 address as text. A mapped IPv4 address is `::ffff:` and that
/// address with dots. Of any other address the groups are written in
/// hexadecimal with colons between them, and the longest run of two or more
/// zero groups, the first of several, is left out and marked by `::`.
pub open spec fn v6_text(bits: u128) -> Seq<char> {
    let groups = v6_groups(bits);
    if is_v4_mapped(groups) {
        "::ffff:"@ + dotted(
            (groups[6] / 256) as nat,
            (groups[6] % 256) as nat,
            (groups[7] / 256) as nat,
            (groups[7] % 256) as nat,
        )
    } else {
        let start = longest_zero_run(groups, 8);
        let len = zero_run(groups, start);
        if len > 1 {
            join_hex(groups.subrange(0, start)) + "::"@ + join_hex(groups.subrange(start + len, 8))
        } else {
            join_hex(groups)
        }
    }
}

/// Writes four numbers with dots between them.
fn dotted_string(a: u64, b: u64, c: u64, d: u64) -> (s: String)
    ensures
        s@ == dotted(a as nat, b as nat, c as nat, d as nat),
{
    proof {
        reveal_strlit(".");
    }
    let mut s = decimal_string(a);
    s.append(".");
    s.append(decimal_string(b).as_str());
    s.append(".");
    s.append(decimal_string(c).as_str());
    s.append(".");
    s.append(decimal_string(d).as_str());
    assert(s@ =~= dotted(a as nat, b as nat, c as nat, d as nat));
    s
}

/// Writes the groups from `from` up to `to` with colons between them.
fn join_hex_string(groups: &[u64; 8], from: usize, to: usize) -> (s: String)
    requires
        from <= to <= 8,
    ensures
        s@ == join_hex(groups@.subrange(from as int, to as int)),
{
    let mut s = String::new();
    let mut i: usize = from;
    assert(groups@.subrange(from as int, from as int) =~= Seq::empty());
    while i < to
        invariant
            from <= i <= to <= 8,
            s@ == join_hex(groups@.subrange(from as int, i as int)),
        decreases to - i,
    {
        let ghost next = groups@.subrange(from as int, i + 1);
        proof {
            reveal_strlit(":");
            assert(next.drop_last() =~= groups@.subrange(from as int, i as int));
            assert(next.last() == groups@[i as int]);
        }
        if i > from {
            s.append(":");
        }
        s.append(hexadecimal_string(groups[i]).as_str());
        assert(s@ =~= join_hex(next));
        i = i + 1;
    }
    s
}

/// Writes an IPv6 address.
fn v6_string(bits: u128) -> (s: String)
    ensures
        s@ == v6_text(bits),
{
    proof {
        reveal_strlit("::ffff:");
        reveal_strlit("::");
    }
    let groups: [u64; 8] = [
        ((bits >> 112) & 0xffff) as u64,
        ((bits >> 96) & 0xffff) as u64,
        ((bits >> 80) & 0xffff) as u64,
        ((bits >> 64) & 0xffff) as u64,
        ((bits >> 48) & 0xffff) as u64,
        ((bits >> 32) & 0xffff) as u64,
        ((bits >> 16) & 0xffff) as u64,
        (bits & 0xffff) as u64,
    ];
    assert(groups@ =~= v6_groups(bits));
    if groups[0] == 0 && groups[1] == 0 && groups[2] == 0 && groups[3] == 0 && groups[4] == 0
        && groups[5] == 0xffff {
        let mut s = String::from_str("::ffff:");
        s.append(
            dotted_string(
                groups[6] / 256,
                groups[6] % 256,
                groups[7] / 256,
                groups[7] % 256,
            ).as_str(),
        );
        return s;
    }
    let mut runs: [usize; 9] = [0; 9];
    let mut i: usize = 8;
    while i > 0
        invariant
            i <= 8,
            forall|k: int| i <= k <= 8 ==> runs@[k] == zero_run(groups@, k) && runs@[k] <= 8 - k,
        decreases i,
    {
        i = i - 1;
        if groups[i] == 0 {
            runs[i] = runs[i + 1] + 1;
        } else {
            runs[i] = 0;
        }
    }
    let mut start: usize = 0;
    let mut j: usize = 1;
    while j < 8
        invariant
            1 <= j <= 8,
            start < 8,
            start == longest_zero_run(groups@, j as int),
            forall|k: int| 0 <= k <= 8 ==> runs@[k] == zero_run(groups@, k) && runs@[k] <= 8 - k,
        decreases 8 - j,
    {
        if runs[j] > runs[start] {
            start = j;
        }
        j = j + 1;
    }
    let len = runs[start];
    if len > 1 {
        let mut s = join_hex_string(&groups, 0, start);
        s.append("::");
        s.append(join_hex_string(&groups, start + len, 8).as_str());
        s
    } else {
        proof {
            assert(groups@.subrange(0, 8) =~= groups@);
        }
        join_hex_string(&groups, 0, 8)
    }
}

impl IpAddress {
    /// The IPv4 wildcard address `0.0.0.0`.
    pub open spec fn unspecified() -> IpAddress {
        IpAddress::V4(0, 0, 0, 0)
    }

    /// The address as text: an IPv4 address as four decimal numbers with
    /// dots between them, an IPv6 address in its short form.
    pub open spec fn text(self) -> Seq<char> {
        match self {
            IpAddress::V4(a, b, c, d) => dotted(a as nat, b as nat, c as nat, d as nat),
            IpAddress::V6(bits) => v6_text(bits),
        }
    }

    /// The address with a port as text: the address, a colon and the port,
    /// an IPv6 address in square brackets.
    pub open spec fn socket_text(self, port: u16) -> Seq<char> {
        match self {
            IpAddress::V4(..) => self.text() + ":"@ + decimal(port as nat),
            IpAddress::V6(..) => "["@ + self.text() + "]:"@ + decimal(port as nat),
        }
    }

    /// Writes the address as text.
    pub fn to_text(&self) -> (s: String)
        ensures
            s@ == self.text(),
    {
        match *self {
            IpAddress::V4(a, b, c, d) => dotted_string(a as u64, b as u64, c as u64, d as u64),
            IpAddress::V6(bits) => v6_string(bits),
        }
    }

    /// Writes the address with a port as text.
    pub fn to_socket_text(&self, port: u16) -> (s: String)
        ensures
            s@ == self.socket_text(port),
    {
        match *self {
            IpAddress::V4(..) => {
                let mut s = self.to_text();
                s.append(":");
                s.append(decimal_string(port as u64).as_str());
                s
            },
            IpAddress::V6(..) => {
                let mut s = String::from_str("[");
                s.append(self.to_text().as_str());
                s.append("]:");
                s.append(decimal_string(port as u64).as_str());
                s
            },
        }
    }
}

/// The universe numbers that the protocol allows for data.
pub open spec fn valid_universe(universe: u16) -> bool {
    MIN_UNIVERSE <= universe <= MAX_UNIVERSE
}

/// Whether `universe` lies in the range that the protocol allows.
pub fn is_valid_universe(universe: u16) -> (ok: bool)
    ensures
        ok == valid_universe(universe),
{
    MIN_UNIVERSE <= universe && universe <= MAX_UNIVERSE
}

/// The priorities that the protocol allows.
pub open spec fn valid_priority(priority: u8) -> bool {
    priority <= MAX_PRIORITY
}

/// Whether `priority` lies in the range that the protocol allows.
pub fn is_valid_priority(priority: u8) -> (ok: bool)
    ensures
        ok == valid_priority(priority),
{
    priority <= MAX_PRIORITY
}

/// The multicast group of a universe: `239.255.hi.lo`, with `hi` and `lo`
/// the high and the low byte of the universe number.
pub open spec fn multicast_group(universe: u16) -> IpAddress {
    IpAddress::V4(239, 255, (universe / 256) as u8, (universe % 256) as u8)
}

/// Computes the multicast group address on which `universe` is carried.
pub fn universe_to_multicast(universe: u16) -> (group: IpAddress)
    ensures
        group == multicast_group(universe),
        group == IpAddress::V4(239, 255, (universe >> 8) as u8, (universe & 0xff) as u8),
{
    assert(universe >> 8 == universe / 256) by (bit_vector);
    assert(universe & 0xff == universe % 256) by (bit_vector);
    let hi: u8 = (universe >> 8) as u8;
    let lo: u8 = (universe & 0xff) as u8;
    IpAddress::V4(239, 255, hi, lo)
}

} // verus!
