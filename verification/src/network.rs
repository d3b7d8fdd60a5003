//! Which hosts may be visited: private and internal addresses and names are off limits.

use vstd::prelude::*;

use crate::text::{chars_of, ends_with, same_text, split, starts_with};
#[allow(unused_imports)]
use crate::text::{
    all_digits, decimal_text, digit_char, digits_value, lemma_decimal_digits, lemma_split_last,
    lemma_split_none, split_on, texts,
};

verus! {

/// An address that a name was resolved to: four octets or eight segments.
#[derive(Clone, Copy, Debug, PartialEq, Eq)]
pub enum IpAddress {
    V4([u8; 4]),
    V6([u16; 8]),
}

/// The blocks of IPv4 addresses that are off limits.
pub open spec fn private_ipv4(ip: [u8; 4]) -> bool {
    let (a, b, c, d) = (ip@[0], ip@[1], ip@[2], ip@[3]);
    // Loopback, 127.0.0.0/8
    ||| a == 127
    // Private use, 10.0.0.0/8, 172.16.0.0/12 and 192.168.0.0/16
    ||| a == 10
    ||| a == 172 && 16 <= b <= 31
    ||| a == 192 && b == 168
    // Link-local, 169.254.0.0/16
    ||| a == 169 && b == 254
    // Multicast, 224.0.0.0/4
    ||| 224 <= a <= 239
    // Reserved, 240.0.0.0/4, with the broadcast address in it
    ||| a >= 240
    // The unspecified address
    ||| a == 0 && b == 0 && c == 0 && d == 0
}

/// The blocks of IPv6 addresses that are off limits.
pub open spec fn private_ipv6(ip: [u16; 8]) -> bool {
    // The loopback address ::1 and the unspecified address ::
    ||| (forall|i: int| 0 <= i < 7 ==> #[trigger] ip@[i] == 0) && ip@[7] <= 1
    // Multicast, ff00::/8
    ||| 0xff00 <= ip@[0]
    // Link-local, fe80::/10
    ||| 0xfe80 <= ip@[0] <= 0xfebf
    // Unique local, fc00::/7
    ||| 0xfc00 <= ip@[0] <= 0xfdff
}

/// The IPv4 addresses of cloud providers' metadata services.
pub open spec fn metadata_ipv4(ip: [u8; 4]) -> bool {
    // AWS, Azure and DigitalOcean
    ||| ip@ == seq![169u8, 254, 169, 254]
    // Alibaba Cloud
    ||| ip@ == seq![100u8, 100, 100, 200]
    // Oracle Cloud
    ||| ip@ == seq![192u8, 0, 0, 192]
}

pub open spec fn private_address(ip: IpAddress) -> bool {
    match ip {
        IpAddress::V4(octets) => private_ipv4(octets),
        IpAddress::V6(segments) => private_ipv6(segments),
    }
}

pub fn is_private_ipv4(ip: [u8; 4]) -> (r: bool)
    ensures
        r == private_ipv4(ip),
{
    let is_loopback = ip[0] == 127;
    let is_private = ip[0] == 10 || (ip[0] == 172 && 16 <= ip[1] && ip[1] <= 31) || (ip[0] == 192
        && ip[1] == 168);
    let is_link_local = ip[0] == 169 && ip[1] == 254;
    let is_multicast = 224 <= ip[0] && ip[0] <= 239;
    let is_broadcast = ip[0] == 255 && ip[1] == 255 && ip[2] == 255 && ip[3] == 255;
    let is_unspecified = ip[0] == 0 && ip[1] == 0 && ip[2] == 0 && ip[3] == 0;
    is_loopback || is_private || is_link_local || is_multicast || is_broadcast || is_unspecified
        || ip[0] >= 240
}

pub fn is_metadata_ipv4(ip: [u8; 4]) -> (r: bool)
    ensures
        r == metadata_ipv4(ip),
{
    let is_common = ip[0] == 169 && ip[1] == 254 && ip[2] == 169 && ip[3] == 254;
    let is_alibaba = ip[0] == 100 && ip[1] == 100 && ip[2] == 100 && ip[3] == 200;
    let is_oracle = ip[0] == 192 && ip[1] == 0 && ip[2] == 0 && ip[3] == 192;
    proof {
        assert(is_common ==> ip@ =~= seq![169u8, 254, 169, 254]);
        assert(is_alibaba ==> ip@ =~= seq![100u8, 100, 100, 200]);
        assert(is_oracle ==> ip@ =~= seq![192u8, 0, 0, 192]);
    }
    is_common || is_alibaba || is_oracle
}

pub fn is_private_ipv6(ip: [u16; 8]) -> (r: bool)
    ensures
        r == private_ipv6(ip),
{
    let first: u16 = ip[0];
    let high_zero = ip[0] == 0 && ip[1] == 0 && ip[2] == 0 && ip[3] == 0 && ip[4] == 0 && ip[5] == 0
        && ip[6] == 0;
    let is_loopback = high_zero && ip[7] == 1;
    let is_unspecified = high_zero && ip[7] == 0;
    let is_multicast = (first & 0xff00) == 0xff00;
    let is_link_local = (first & 0xffc0) == 0xfe80;
    let is_unique_local = (first & 0xfe00) == 0xfc00;
    proof {
        assert((first & 0xff00) == 0xff00 <==> 0xff00 <= first) by (bit_vector);
        assert((first & 0xffc0) == 0xfe80 <==> 0xfe80 <= first && first <= 0xfebf)
            by (bit_vector);
        assert((first & 0xfe00) == 0xfc00 <==> 0xfc00 <= first && first <= 0xfdff)
            by (bit_vector);
        assert(high_zero <==> forall|i: int| 0 <= i < 7 ==> #[trigger] ip@[i] == 0);
    }
    is_loopback || is_multicast || is_unspecified || is_link_local || is_unique_local
}

pub fn is_private_address(ip: &IpAddress) -> (r: bool)
    ensures
        r == private_address(*ip),
{
    match ip {
        IpAddress::V4(octets) => is_private_ipv4(*octets),
        IpAddress::V6(segments) => is_private_ipv6(*segments),
    }
}

/// The names of this machine, in lower case.
pub open spec fn localhost_domain(domain: Seq<char>) -> bool {
    ||| domain == "localhost"@
    ||| domain == "127.0.0.1"@
    ||| domain == "::1"@
    ||| domain == "0.0.0.0"@
    ||| domain == "::"@
    ||| ".localhost"@.is_suffix_of(domain)
}

/// The names of cloud providers' metadata services, in lower case.
pub open spec fn cloud_metadata_domain(domain: Seq<char>) -> bool {
    ||| domain == "169.254.169.254"@
    ||| domain == "metadata.google.internal"@
    ||| domain == "metadata"@
    ||| domain == "metadata.azure.com"@
    ||| domain == "100.100.100.200"@
    ||| domain == "192.0.0.192"@
    ||| ".internal"@.is_suffix_of(domain)
    ||| "metadata."@.is_prefix_of(domain)
}

pub fn is_localhost_domain(domain: &str) -> (r: bool)
    ensures
        r == localhost_domain(domain@),
{
    same_text(domain, "localhost") || same_text(domain, "127.0.0.1") || same_text(domain, "::1")
        || same_text(domain, "0.0.0.0") || same_text(domain, "::") || ends_with(
        domain,
        ".localhost",
    )
}

pub fn is_cloud_metadata_domain(domain: &str) -> (r: bool)
    ensures
        r == cloud_metadata_domain(domain@),
{
    same_text(domain, "169.254.169.254") || same_text(domain, "metadata.google.internal")
        || same_text(domain, "metadata") || same_text(domain, "metadata.azure.com") || same_text(
        domain,
        "100.100.100.200",
    ) || same_text(domain, "192.0.0.192") || ends_with(domain, ".internal") || starts_with(
        domain,
        "metadata.",
    )
}

/// An octet in decimal notation: up to three digits, without a leading zero, not above 255.
pub open spec fn octet_text(s: Seq<char>) -> bool {
    &&& 1 <= s.len() <= 3
    &&& all_digits(s)
    &&& s.len() > 1 ==> s[0] != '0'
    &&& digits_value(s) <= 255
}

/// An IPv4 address in dotted decimal notation.
pub open spec fn ipv4_text(s: Seq<char>) -> bool {
    let parts = split_on(s, '.');
    parts.len() == 4 && forall|i: int| 0 <= i < 4 ==> octet_text(#[trigger] parts[i])
}

fn is_octet_text(s: &str) -> (r: bool)
    ensures
        r == octet_text(s@),
{
    let v = chars_of(s);
    if v.len() < 1 || v.len() > 3 || (v.len() > 1 && v[0] == '0') {
        return false;
    }
    let mut n: u32 = 0;
    let mut i: usize = 0;
    while i < v.len()
        invariant
            i <= v@.len() <= 3,
            v@ == s@,
            all_digits(s@.take(i as int)),
            n == digits_value(s@.take(i as int)),
            i == 0 ==> n == 0,
            i == 1 ==> n <= 9,
            i == 2 ==> n <= 99,
            i == 3 ==> n <= 999,
        decreases v@.len() - i,
    {
        let c = v[i];
        if c < '0' || '9' < c {
            assert(!all_digits(s@));
            return false;
        }
        proof {
            assert(s@.take(i + 1).drop_last() == s@.take(i as int));
            assert forall|j: int| 0 <= j < i + 1 implies crate::text::is_digit(
                #[trigger] s@.take(i + 1)[j],
            ) by {
                if j < i {
                    assert(s@.take(i as int)[j] == s@[j]);
                }
            }
        }
        n = n * 10 + (c as u32 - 48);
        i += 1;
    }
    proof {
        assert(s@.take(s@.len() as int) == s@);
    }
    n <= 255
}

/// The text is an IPv4 address.
pub fn is_ipv4_text(s: &str) -> (r: bool)
    ensures
        r == ipv4_text(s@),
{
    let parts = split(s, '.');
    let ghost model = split_on(s@, '.');
    if parts.len() != 4 {
        return false;
    }
    let mut i: usize = 0;
    while i < 4
        invariant
            i <= 4,
            parts@.len() == 4,
            texts(parts@) == model,
            model == split_on(s@, '.'),
            forall|j: int| 0 <= j < i ==> octet_text(#[trigger] model[j]),
        decreases 4 - i,
    {
        proof {
            assert(model[i as int] == parts@[i as int]@);
        }
        if !is_octet_text(parts[i].as_str()) {
            return false;
        }
        i += 1;
    }
    true
}

/// Four numbers in decimal notation with dots between them.
pub open spec fn dotted(a: nat, b: nat, c: nat, d: nat) -> Seq<char> {
    decimal_text(a).push('.') + decimal_text(b).push('.') + decimal_text(c).push('.')
        + decimal_text(d)
}

/// An IPv4 address in dotted decimal notation, octet by octet.
pub open spec fn dotted_text(ip: [u8; 4]) -> Seq<char> {
    dotted(ip@[0] as nat, ip@[1] as nat, ip@[2] as nat, ip@[3] as nat)
}

proof fn lemma_octet_text(n: nat)
    requires
        n <= 255,
    ensures
        octet_text(decimal_text(n)),
        !decimal_text(n).contains('.'),
{
    lemma_decimal_digits(n);
    let s = decimal_text(n);
    assert(s.len() <= 3) by {
        reveal_with_fuel(decimal_text, 4);
    }
    assert(n < 10 ==> s.len() == 1);
    assert forall|i: int| 0 <= i < s.len() implies s[i] != '.' by {
        assert(crate::text::is_digit(s[i]));
    }
}

proof fn lemma_dotted_parts(a: nat, b: nat, c: nat, d: nat)
    requires
        a <= 255 && b <= 255 && c <= 255 && d <= 255,
    ensures
        split_on(dotted(a, b, c, d), '.') == seq![
            decimal_text(a),
            decimal_text(b),
            decimal_text(c),
            decimal_text(d),
        ],
{
    let (ta, tb, tc, td) = (decimal_text(a), decimal_text(b), decimal_text(c), decimal_text(d));
    lemma_octet_text(a);
    lemma_octet_text(b);
    lemma_octet_text(c);
    lemma_octet_text(d);
    lemma_split_none(ta, '.');
    let ab = ta.push('.') + tb;
    lemma_split_last(ta, '.', tb);
    let abc = ab.push('.') + tc;
    lemma_split_last(ab, '.', tc);
    lemma_split_last(abc, '.', td);
    assert(abc.push('.') + td =~= dotted(a, b, c, d));
    assert(split_on(dotted(a, b, c, d), '.') =~= seq![ta, tb, tc, td]);
}

/// An address that is written in dotted decimal notation is recognised as one.
pub proof fn law_dotted_text(ip: [u8; 4])
    ensures
        ipv4_text(dotted_text(ip)),
{
    lemma_dotted_parts(ip@[0] as nat, ip@[1] as nat, ip@[2] as nat, ip@[3] as nat);
    lemma_octet_text(ip@[0] as nat);
    lemma_octet_text(ip@[1] as nat);
    lemma_octet_text(ip@[2] as nat);
    lemma_octet_text(ip@[3] as nat);
}

/// Dotted decimal notation tells addresses apart.
proof fn lemma_dotted_injective(ip: [u8; 4], a: nat, b: nat, c: nat, d: nat)
    requires
        a <= 255 && b <= 255 && c <= 255 && d <= 255,
        dotted_text(ip) == dotted(a, b, c, d),
    ensures
        ip@[0] == a && ip@[1] == b && ip@[2] == c && ip@[3] == d,
{
    let parts = split_on(dotted_text(ip), '.');
    lemma_dotted_parts(ip@[0] as nat, ip@[1] as nat, ip@[2] as nat, ip@[3] as nat);
    lemma_dotted_parts(a, b, c, d);
    assert(parts[0] == decimal_text(a) && parts[1] == decimal_text(b));
    assert(parts[2] == decimal_text(c) && parts[3] == decimal_text(d));
    lemma_decimal_digits(ip@[0] as nat);
    lemma_decimal_digits(ip@[1] as nat);
    lemma_decimal_digits(ip@[2] as nat);
    lemma_decimal_digits(ip@[3] as nat);
    lemma_decimal_digits(a);
    lemma_decimal_digits(b);
    lemma_decimal_digits(c);
    lemma_decimal_digits(d);
}

/// A number of up to three digits, digit by digit.
proof fn lemma_small_decimal(n: nat)
    requires
        n < 1000,
    ensures
        n < 10 ==> decimal_text(n) == seq![digit_char(n)],
        n >= 100 ==> decimal_text(n) == seq![
            digit_char(n / 100),
            digit_char(n / 10 % 10),
            digit_char(n % 10),
        ],
{
    if n >= 100 {
        assert(n / 10 / 10 == n / 100);
        assert(decimal_text(n / 100) == seq![digit_char(n / 100)]);
        assert(decimal_text(n / 10) == decimal_text(n / 100).push(digit_char(n / 10 % 10)));
        assert(decimal_text(n) =~= seq![
            digit_char(n / 100),
            digit_char(n / 10 % 10),
            digit_char(n % 10),
        ]);
    }
}

/// The addresses among the names on the lists.
proof fn lemma_listed_texts()
    ensures
        "127.0.0.1"@ == dotted(127, 0, 0, 1),
        "0.0.0.0"@ == dotted(0, 0, 0, 0),
        "169.254.169.254"@ == dotted(169, 254, 169, 254),
        "100.100.100.200"@ == dotted(100, 100, 100, 200),
        "192.0.0.192"@ == dotted(192, 0, 0, 192),
{
    lemma_small_decimal(0);
    lemma_small_decimal(1);
    lemma_small_decimal(100);
    lemma_small_decimal(127);
    lemma_small_decimal(169);
    lemma_small_decimal(192);
    lemma_small_decimal(200);
    lemma_small_decimal(254);
    reveal_strlit("127.0.0.1");
    reveal_strlit("0.0.0.0");
    reveal_strlit("169.254.169.254");
    reveal_strlit("100.100.100.200");
    reveal_strlit("192.0.0.192");
    assert("127.0.0.1"@ =~= dotted(127, 0, 0, 1));
    assert("0.0.0.0"@ =~= dotted(0, 0, 0, 0));
    assert("169.254.169.254"@ =~= dotted(169, 254, 169, 254));
    assert("100.100.100.200"@ =~= dotted(100, 100, 100, 200));
    assert("192.0.0.192"@ =~= dotted(192, 0, 0, 192));
}

/// No address begins or ends like one of the other names on the lists.
proof fn lemma_no_listed_name(s: Seq<char>)
    requires
        s.len() > 0,
        crate::text::is_digit(s[0]),
        crate::text::is_digit(s.last()),
    ensures
        s != "localhost"@ && s != "::1"@ && s != "::"@ && !".localhost"@.is_suffix_of(s),
        s != "metadata.google.internal"@ && s != "metadata"@ && s != "metadata.azure.com"@,
        !".internal"@.is_suffix_of(s),
        !"metadata."@.is_prefix_of(s),
{
    reveal_strlit("localhost");
    reveal_strlit("::1");
    reveal_strlit("::");
    reveal_strlit(".localhost");
    reveal_strlit("metadata.google.internal");
    reveal_strlit("metadata");
    reveal_strlit("metadata.azure.com");
    reveal_strlit(".internal");
    reveal_strlit("metadata.");
    assert("localhost"@[0] == 'l' && "::1"@[0] == ':' && "::"@[0] == ':');
    assert("metadata.google.internal"@[0] == 'm' && "metadata"@[0] == 'm');
    assert("metadata.azure.com"@[0] == 'm' && "metadata."@[0] == 'm');
    assert(".localhost"@[9] == 't' && ".internal"@[8] == 'l');
    if ".localhost"@.is_suffix_of(s) {
        assert(s.subrange(s.len() - 10, s.len() as int)[9] == s.last());
    }
    if ".internal"@.is_suffix_of(s) {
        assert(s.subrange(s.len() - 9, s.len() as int)[8] == s.last());
    }
    if "metadata."@.is_prefix_of(s) {
        assert(s.subrange(0, 9)[0] == s[0]);
    }
}

/// An address whose dotted notation is on one of the lists of names is private or that of a
/// metadata service.
pub proof fn law_listed_addresses(ip: [u8; 4])
    requires
        cloud_metadata_domain(dotted_text(ip)) || localhost_domain(dotted_text(ip)),
    ensures
        private_ipv4(ip) || metadata_ipv4(ip),
{
    let s = dotted_text(ip);
    let (first, last) = (decimal_text(ip@[0] as nat), decimal_text(ip@[3] as nat));
    lemma_decimal_digits(ip@[0] as nat);
    lemma_decimal_digits(ip@[3] as nat);
    assert(s[0] == first[0]);
    assert(s.last() == last[last.len() - 1]);
    lemma_no_listed_name(s);
    lemma_listed_texts();
    if s == "127.0.0.1"@ {
        lemma_dotted_injective(ip, 127, 0, 0, 1);
    } else if s == "0.0.0.0"@ {
        lemma_dotted_injective(ip, 0, 0, 0, 0);
    } else if s == "169.254.169.254"@ {
        lemma_dotted_injective(ip, 169, 254, 169, 254);
    } else if s == "100.100.100.200"@ {
        lemma_dotted_injective(ip, 100, 100, 100, 200);
        assert(ip@ =~= seq![100u8, 100, 100, 200]);
    } else {
        lemma_dotted_injective(ip, 192, 0, 0, 192);
        assert(ip@ =~= seq![192u8, 0, 0, 192]);
    }
}

/// An IPv4 address as one number of thirty-two bits.
pub open spec fn ipv4_value(ip: [u8; 4]) -> int {
    ip@[0] * 0x100_0000 + ip@[1] * 0x1_0000 + ip@[2] * 0x100 + ip@[3]
}

/// The number is one of the `size` from the address `a.b.0.0` on.
pub open spec fn in_block(value: int, a: int, b: int, size: int) -> bool {
    let base = a * 0x100_0000 + b * 0x1_0000;
    base <= value < base + size
}

/// The IPv4 addresses that are off limits are those of eight blocks of consecutive addresses, and
/// every other address is public: 127.0.0.0/8, 10.0.0.0/8, 172.16.0.0/12, 192.168.0.0/16,
/// 169.254.0.0/16, 224.0.0.0/4, 240.0.0.0/4 and the address 0.0.0.0 alone.
pub proof fn law_private_ipv4(ip: [u8; 4])
    ensures
        ({
            let v = ipv4_value(ip);
            private_ipv4(ip) <==> {
                ||| in_block(v, 127, 0, 0x100_0000)
                ||| in_block(v, 10, 0, 0x100_0000)
                ||| in_block(v, 172, 16, 0x10_0000)
                ||| in_block(v, 192, 168, 0x1_0000)
                ||| in_block(v, 169, 254, 0x1_0000)
                ||| in_block(v, 224, 0, 0x1000_0000)
                ||| in_block(v, 240, 0, 0x1000_0000)
                ||| v == 0
            }
        }),
        ip@[0] == 172 ==> (private_ipv4(ip) <==> 16 <= ip@[1] <= 31),
        private_address(IpAddress::V4(ip)) == private_ipv4(ip),
{
}

/// An IPv6 address as one number of a hundred and twenty-eight bits, from its upper and its lower
/// four segments.
pub open spec fn ipv6_value(ip: [u16; 8]) -> int {
    ipv6_half(ip, 0) * 0x1_0000_0000_0000_0000int + ipv6_half(ip, 4)
}

/// Four segments as one number.
pub open spec fn ipv6_half(ip: [u16; 8], from: int) -> int {
    ip@[from] * 0x1_0000_0000_0000 + ip@[from + 1] * 0x1_0000_0000 + ip@[from + 2] * 0x1_0000
        + ip@[from + 3]
}

/// The IPv6 addresses that are off limits are the first two, `::` and `::1`, and those of three
/// blocks of consecutive addresses, fc00::/7, fe80::/10 and ff00::/8; every other is public.
pub proof fn law_private_ipv6(ip: [u16; 8])
    ensures
        ({
            let (v, high) = (ipv6_value(ip), ipv6_half(ip, 0));
            private_ipv6(ip) <==> {
                ||| 0 <= v <= 1
                ||| 0xfc00_0000_0000_0000 <= high < 0xfe00_0000_0000_0000
                ||| 0xfe80_0000_0000_0000 <= high < 0xfec0_0000_0000_0000
                ||| 0xff00_0000_0000_0000 <= high
            }
        }),
        private_address(IpAddress::V6(ip)) == private_ipv6(ip),
{
    if ipv6_value(ip) <= 1 {
        assert(ipv6_half(ip, 0) == 0 && ipv6_half(ip, 4) <= 1);
        assert forall|i: int| 0 <= i < 7 implies #[trigger] ip@[i] == 0 by {}
    }
    if (forall|i: int| 0 <= i < 7 ==> #[trigger] ip@[i] == 0) {
        assert(ip@[0] == 0 && ip@[1] == 0 && ip@[2] == 0 && ip@[3] == 0);
        assert(ip@[4] == 0 && ip@[5] == 0 && ip@[6] == 0);
    }
}

/// The metadata services have one address each of AWS, Alibaba Cloud and Oracle Cloud, and no
/// other address is refused for being one.
pub proof fn law_metadata_ipv4(ip: [u8; 4])
    ensures
        metadata_ipv4(ip) <==> ipv4_value(ip) == 0xa9fe_a9fe || ipv4_value(ip) == 0x6464_64c8
            || ipv4_value(ip) == 0xc000_00c0,
{
    assert(ipv4_value(ip) == 0xa9fe_a9fe ==> ip@ =~= seq![169u8, 254, 169, 254]);
    assert(ipv4_value(ip) == 0x6464_64c8 ==> ip@ =~= seq![100u8, 100, 100, 200]);
    assert(ipv4_value(ip) == 0xc000_00c0 ==> ip@ =~= seq![192u8, 0, 0, 192]);
}

/// Digits without a zero in front are the decimal notation of their value.
proof fn lemma_canonical_digits(s: Seq<char>)
    requires
        s.len() > 0,
        all_digits(s),
        s.len() > 1 ==> s[0] != '0',
    ensures
        decimal_text(digits_value(s)) == s,
        s[0] != '0' ==> digits_value(s) > 0,
    decreases s.len(),
{
    let before = s.drop_last();
    let d = crate::text::digit_value(s.last());
    assert(crate::text::is_digit(s[s.len() - 1]));
    assert(digit_char(d) == s.last());
    if s.len() == 1 {
        assert(before =~= Seq::empty());
        assert(digits_value(before) == 0);
        assert(digits_value(s) == d);
        assert(decimal_text(digits_value(s)) =~= s);
    } else {
        assert forall|i: int| 0 <= i < before.len() implies crate::text::is_digit(
            #[trigger] before[i],
        ) by {
            assert(before[i] == s[i]);
        }
        lemma_canonical_digits(before);
        let n = digits_value(s);
        assert(n / 10 == digits_value(before) && n % 10 == d);
        assert(decimal_text(n) =~= s);
    }
}

/// A text is taken for an IPv4 address if and only if it is four numbers up to 255 in decimal
/// notation with dots between them.
pub proof fn law_ipv4_text(s: Seq<char>)
    ensures
        ipv4_text(s) <==> exists|a: nat, b: nat, c: nat, d: nat|
            {
                &&& a <= 255 && b <= 255 && c <= 255 && d <= 255
                &&& s == #[trigger] dotted(a, b, c, d)
            },
{
    let parts = split_on(s, '.');
    if ipv4_text(s) {
        let (a, b, c, d) = (
            digits_value(parts[0]),
            digits_value(parts[1]),
            digits_value(parts[2]),
            digits_value(parts[3]),
        );
        assert(octet_text(parts[0]) && octet_text(parts[1]) && octet_text(parts[2]) && octet_text(
            parts[3],
        ));
        lemma_canonical_digits(parts[0]);
        lemma_canonical_digits(parts[1]);
        lemma_canonical_digits(parts[2]);
        lemma_canonical_digits(parts[3]);
        crate::text::law_split(s, '.');
        reveal_with_fuel(crate::text::joined, 4);
        assert(s =~= dotted(a, b, c, d));
    }
    if exists|a: nat, b: nat, c: nat, d: nat|
        {
            &&& a <= 255 && b <= 255 && c <= 255 && d <= 255
            &&& s == #[trigger] dotted(a, b, c, d)
        } {
        let (a, b, c, d) = choose|a: nat, b: nat, c: nat, d: nat|
            {
                &&& a <= 255 && b <= 255 && c <= 255 && d <= 255
                &&& s == #[trigger] dotted(a, b, c, d)
            };
        lemma_dotted_parts(a, b, c, d);
        lemma_octet_text(a);
        lemma_octet_text(b);
        lemma_octet_text(c);
        lemma_octet_text(d);
    }
}

/// Dotted decimal notation has the four octets of an address as its pieces, each in decimal
/// notation, in order.
pub proof fn law_dotted_pieces(ip: [u8; 4])
    ensures
        split_on(dotted_text(ip), '.').len() == 4,
        forall|i: int|
            0 <= i < 4 ==> #[trigger] split_on(dotted_text(ip), '.')[i] == decimal_text(
                ip@[i] as nat,
            ),
{
    lemma_dotted_parts(ip@[0] as nat, ip@[1] as nat, ip@[2] as nat, ip@[3] as nat);
}

/// A text ends with a dot and a label if and only if that is the last of its several labels.
proof fn lemma_last_label(s: Seq<char>, label: Seq<char>)
    requires
        !label.contains('.'),
    ensures
        (seq!['.'] + label).is_suffix_of(s) <==> split_on(s, '.').len() > 1 && split_on(
            s,
            '.',
        ).last() == label,
{
    let tail = seq!['.'] + label;
    let labels = split_on(s, '.');
    crate::text::law_split(s, '.');
    if tail.is_suffix_of(s) {
        let a = s.take(s.len() - tail.len());
        let end = s.subrange(s.len() - tail.len(), s.len() as int);
        assert(end == tail);
        assert(s =~= a + end);
        assert(a + tail =~= a.push('.') + label);
        crate::text::law_split(a, '.');
        lemma_split_last(a, '.', label);
    }
    if labels.len() > 1 && labels.last() == label {
        let a = crate::text::joined(labels.drop_last(), '.');
        assert(s == a.push('.') + label);
        assert(s.subrange(s.len() - tail.len(), s.len() as int) =~= tail);
    }
}

/// A text begins with a label and a dot if and only if that is the first of its several labels.
proof fn lemma_first_label(s: Seq<char>, label: Seq<char>)
    requires
        !label.contains('.'),
    ensures
        label.push('.').is_prefix_of(s) <==> split_on(s, '.').len() > 1 && split_on(s, '.')[0]
            == label,
        s == label <==> split_on(s, '.').len() == 1 && split_on(s, '.')[0] == label,
    decreases s.len(),
{
    let labels = split_on(s, '.');
    let head = label.push('.');
    crate::text::law_split(s, '.');
    if s == label {
        lemma_split_none(label, '.');
    }
    if labels.len() == 1 && labels[0] == label {
        assert(s == label);
    }
    if s.len() > 0 {
        let before = s.drop_last();
        let earlier = split_on(before, '.');
        lemma_first_label(before, label);
        crate::text::law_split(before, '.');
        if head.is_prefix_of(before) {
            assert(s.subrange(0, head.len() as int) =~= before.subrange(0, head.len() as int));
        }
        if head.is_prefix_of(s) && !head.is_prefix_of(before) {
            if s.len() > head.len() {
                assert(s.subrange(0, head.len() as int) =~= before.subrange(0, head.len() as int));
            }
            assert(s =~= head);
            assert(before =~= label);
        }
        if labels.len() > 1 && labels[0] == label && !(earlier.len() > 1) {
            assert(s.last() == '.');
            assert(before == label);
            assert(s =~= head);
            assert(s.subrange(0, head.len() as int) =~= head);
        }
    } else {
        assert(labels =~= seq![Seq::<char>::empty()]);
    }
}

/// The names that are off limits, by their labels. A name is this machine's if its last label is
/// `localhost`, a metadata service's if its first label is `metadata` or the last of several is
/// `internal`; besides these there are only the addresses that are listed as texts. Every other
/// name is public.
pub proof fn law_internal_labels(name: Seq<char>)
    ensures
        ({
            let labels = split_on(name, '.');
            &&& localhost_domain(name) <==> {
                ||| labels.last() == "localhost"@
                ||| name == "127.0.0.1"@ || name == "0.0.0.0"@ || name == "::1"@ || name == "::"@
            }
            &&& cloud_metadata_domain(name) <==> {
                ||| labels[0] == "metadata"@
                ||| labels.len() > 1 && labels.last() == "internal"@
                ||| name == "169.254.169.254"@ || name == "100.100.100.200"@ || name
                    == "192.0.0.192"@
            }
        }),
{
    let labels = split_on(name, '.');
    reveal_strlit("localhost");
    reveal_strlit(".localhost");
    reveal_strlit("metadata");
    reveal_strlit("metadata.");
    reveal_strlit("internal");
    reveal_strlit(".internal");
    assert(".localhost"@ =~= seq!['.'] + "localhost"@);
    assert(".internal"@ =~= seq!['.'] + "internal"@);
    assert("metadata."@ =~= "metadata"@.push('.'));
    assert(!"localhost"@.contains('.') && !"internal"@.contains('.') && !"metadata"@.contains(
        '.',
    ));
    crate::text::law_split(name, '.');
    lemma_last_label(name, "localhost"@);
    lemma_last_label(name, "internal"@);
    lemma_first_label(name, "localhost"@);
    lemma_first_label(name, "metadata"@);
    reveal_strlit("metadata.google.internal");
    reveal_strlit("metadata.azure.com");
    if name == "metadata.google.internal"@ {
        assert(name.subrange(0, 9) =~= "metadata."@);
    }
    if name == "metadata.azure.com"@ {
        assert(name.subrange(0, 9) =~= "metadata."@);
    }
}

} // verus!
