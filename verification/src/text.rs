//! The text forms of addresses: dotted decimal for IPv4, and for IPv6 the
//! canonical form with lower-case hexadecimal groups in which the leftmost
//! longest run of two or more zero groups is written `::`.

use crate::addr::{IpAddress, Ipv4Address, Ipv6Address};
use vstd::prelude::*;

verus! {

/// `String::push` appends one character to the string and changes nothing
/// else of it.
pub assume_specification[ String::push ](s: &mut String, c: char)
    ensures
        final(s)@ == old(s)@.push(c),
;

/// The character that stands for a digit below sixteen: `0` to `9`, then
/// `a` to `f`.
pub open spec fn digit_char(d: int) -> char {
    if d < 10 {
        (48 + d) as char
    } else {
        (87 + d) as char
    }
}

/// The decimal digits of `n`, without leading zeros.
pub open spec fn decimal(n: nat) -> Seq<char>
    decreases n,
{
    if n < 10 {
        seq![digit_char(n as int)]
    } else {
        decimal(n / 10).push(digit_char((n % 10) as int))
    }
}

/// The lower-case hexadecimal digits of `n`, without leading zeros.
pub open spec fn hex(n: nat) -> Seq<char>
    decreases n,
{
    if n < 16 {
        seq![digit_char(n as int)]
    } else {
        hex(n / 16).push(digit_char((n % 16) as int))
    }
}

/// The four octets in decimal, separated by dots.
pub open spec fn v4_text(a: Ipv4Address) -> Seq<char> {
    decimal(a.spec_octet(0) as nat) + seq!['.'] + decimal(a.spec_octet(1) as nat) + seq!['.']
        + decimal(a.spec_octet(2) as nat) + seq!['.'] + decimal(a.spec_octet(3) as nat)
}

/// The groups in hexadecimal, separated by colons; nothing for no group.
pub open spec fn hex_groups(groups: Seq<u16>) -> Seq<char>
    decreases groups.len(),
{
    if groups.len() == 0 {
        Seq::empty()
    } else if groups.len() == 1 {
        hex(groups[0] as nat)
    } else {
        hex_groups(groups.drop_last()) + seq![':'] + hex(groups.last() as nat)
    }
}

/// The `len` groups from position `start` on exist and are all zero.
pub open spec fn is_zero_run(groups: Seq<u16>, start: int, len: int) -> bool {
    &&& 0 <= start
    &&& 0 < len
    &&& start + len <= groups.len()
    &&& forall|i: int| start <= i < start + len ==> groups[i] == 0
}

/// The run at `start` of length `len` is the leftmost among the longest runs
/// of zero groups.
pub open spec fn is_longest_zero_run(groups: Seq<u16>, start: int, len: int) -> bool {
    &&& is_zero_run(groups, start, len)
    &&& forall|s: int, l: int| #[trigger]
        is_zero_run(groups, s, l) ==> l < len || (l == len && start <= s)
}

/// The run that the text form leaves out: the leftmost longest run of zero
/// groups, if it holds two groups or more.
pub open spec fn compressed_run(groups: Seq<u16>) -> Option<(int, int)> {
    if exists|s: int, l: int| l >= 2 && is_longest_zero_run(groups, s, l) {
        Some(choose|s: int, l: int| l >= 2 && is_longest_zero_run(groups, s, l))
    } else {
        None
    }
}

/// The canonical text of an IPv6 address. An IPv4-mapped address is written
/// `::ffff:` and the IPv4 address in dotted decimal.
pub open spec fn v6_text(a: Ipv6Address) -> Seq<char> {
    if a.spec_is_ipv4_mapped() {
        seq![':', ':', 'f', 'f', 'f', 'f', ':'] + v4_text(a.spec_embedded_v4())
    } else {
        match compressed_run(a.spec_segments()) {
            Some((start, len)) => hex_groups(a.spec_segments().subrange(0, start)) + seq![':', ':']
                + hex_groups(a.spec_segments().subrange(start + len, 8)),
            None => hex_groups(a.spec_segments()),
        }
    }
}

/// The text of an address of either family.
pub open spec fn ip_text(ip: IpAddress) -> Seq<char> {
    match ip {
        IpAddress::V4(a) => v4_text(a),
        IpAddress::V6(a) => v6_text(a),
    }
}

/// An address, a slash and the prefix length in decimal.
pub open spec fn cidr_text(ip: IpAddress, prefix_len: u8) -> Seq<char> {
    ip_text(ip) + seq!['/'] + decimal(prefix_len as nat)
}

fn digit(d: u8) -> (c: char)
    requires
        d < 16,
    ensures
        c == digit_char(d as int),
{
    if d < 10 {
        (48u8 + d) as char
    } else {
        (87u8 + d) as char
    }
}

/// Appends the decimal digits of `n`.
pub fn push_decimal(out: &mut String, n: u8)
    ensures
        final(out)@ == old(out)@ + decimal(n as nat),
{
    reveal_with_fuel(decimal, 3);
    if n >= 100 {
        out.push(digit(n / 100));
    }
    if n >= 10 {
        out.push(digit((n / 10) % 10));
    }
    out.push(digit(n % 10));
    assert(out@ =~= old(out)@ + decimal(n as nat));
}

/// Appends the hexadecimal digits of `n`.
pub fn push_hex(out: &mut String, n: u16)
    ensures
        final(out)@ == old(out)@ + hex(n as nat),
{
    reveal_with_fuel(hex, 4);
    if n >= 0x1000 {
        out.push(digit((n / 0x1000) as u8));
    }
    if n >= 0x100 {
        out.push(digit(((n / 0x100) % 16) as u8));
    }
    if n >= 0x10 {
        out.push(digit(((n / 0x10) % 16) as u8));
    }
    out.push(digit((n % 16) as u8));
    assert(out@ =~= old(out)@ + hex(n as nat));
}

/// Appends the dotted-decimal text of an IPv4 address.
pub fn push_v4_text(out: &mut String, a: &Ipv4Address)
    ensures
        final(out)@ == old(out)@ + v4_text(*a),
{
    push_decimal(out, a.octet(0));
    out.push('.');
    push_decimal(out, a.octet(1));
    out.push('.');
    push_decimal(out, a.octet(2));
    out.push('.');
    push_decimal(out, a.octet(3));
    assert(out@ =~= old(out)@ + v4_text(*a));
}

/// A number below 256 has at most three decimal digits, and a number below
/// 65536 at most four hexadecimal digits.
pub proof fn lemma_digits_length(n: nat)
    ensures
        1 <= decimal(n).len(),
        1 <= hex(n).len(),
        n < 256 ==> decimal(n).len() <= 3,
        n < 65536 ==> hex(n).len() <= 4,
{
    reveal_with_fuel(decimal, 4);
    reveal_with_fuel(hex, 5);
    if n >= 10 {
        assert(decimal(n).len() == decimal(n / 10).len() + 1);
    }
    if n >= 16 {
        assert(hex(n).len() == hex(n / 16).len() + 1);
    }
}

/// Groups in hexadecimal with their colons take at most five characters a
/// group, less one.
pub proof fn lemma_hex_groups_length(groups: Seq<u16>)
    ensures
        hex_groups(groups).len() <= 5 * groups.len(),
        groups.len() >= 1 ==> hex_groups(groups).len() <= 5 * groups.len() - 1,
    decreases groups.len(),
{
    if groups.len() == 1 {
        lemma_digits_length(groups[0] as nat);
    } else if groups.len() > 1 {
        lemma_hex_groups_length(groups.drop_last());
        lemma_digits_length(groups.last() as nat);
    }
}

/// The text of an IPv4 address has at most 15 characters, that of an IPv6
/// address at most 39.
pub proof fn lemma_ip_text_length(ip: IpAddress)
    ensures
        ip_text(ip).len() <= 39,
        ip is V4 ==> ip_text(ip).len() <= 15,
{
    match ip {
        IpAddress::V4(a) => {
            lemma_v4_text_length(a);
        },
        IpAddress::V6(a) => {
            if a.spec_is_ipv4_mapped() {
                lemma_v4_text_length(a.spec_embedded_v4());
            } else {
                let groups = a.spec_segments();
                match compressed_run(groups) {
                    Some((start, len)) => {
                        assert(is_zero_run(groups, start, len));
                        lemma_hex_groups_length(groups.subrange(0, start));
                        lemma_hex_groups_length(groups.subrange(start + len, 8));
                    },
                    None => {
                        lemma_hex_groups_length(groups);
                    },
                }
            }
        },
    }
}

/// The text of an IPv4 address has at most 15 characters.
pub proof fn lemma_v4_text_length(a: Ipv4Address)
    ensures
        v4_text(a).len() <= 15,
{
    lemma_digits_length(a.spec_octet(0) as nat);
    lemma_digits_length(a.spec_octet(1) as nat);
    lemma_digits_length(a.spec_octet(2) as nat);
    lemma_digits_length(a.spec_octet(3) as nat);
}

/// Two runs that are both the leftmost longest run are one run.
pub proof fn lemma_longest_zero_run_unique(groups: Seq<u16>, s1: int, l1: int, s2: int, l2: int)
    requires
        is_longest_zero_run(groups, s1, l1),
        is_longest_zero_run(groups, s2, l2),
    ensures
        s1 == s2,
        l1 == l2,
{
    assert(is_zero_run(groups, s1, l1));
    assert(is_zero_run(groups, s2, l2));
}

/// Finds the leftmost longest run of zero groups, as its start and its
/// length. The length is zero where no group is zero.
pub fn longest_zero_run(groups: &[u16; 8]) -> (run: (usize, usize))
    ensures
        run.1 == 0 ==> forall|i: int| 0 <= i < 8 ==> groups@[i] != 0,
        run.1 > 0 ==> is_longest_zero_run(groups@, run.0 as int, run.1 as int),
        compressed_run(groups@) == if run.1 >= 2 {
            Some((run.0 as int, run.1 as int))
        } else {
            None
        },
{
    let mut best_start: usize = 0;
    let mut best_len: usize = 0;
    let mut cur_start: usize = 0;
    let mut cur_len: usize = 0;
    let mut i: usize = 0;
    while i < 8
        invariant
            i <= 8,
            cur_len <= i,
            cur_len <= best_len,
            cur_len > 0 ==> cur_start + cur_len == i,
            forall|j: int| i - cur_len <= j < i ==> groups@[j] == 0,
            cur_len < i ==> groups@[i - cur_len - 1] != 0,
            best_len == 0 ==> forall|j: int| 0 <= j < i ==> groups@[j] != 0,
            best_len > 0 ==> is_zero_run(groups@, best_start as int, best_len as int),
            best_len > 0 ==> best_start + best_len <= i,
            best_len > 0 ==> forall|s: int, l: int| #[trigger]
                is_zero_run(groups@, s, l) && s + l <= i ==> l < best_len || (l == best_len
                    && best_start <= s),
        decreases 8 - i,
    {
        if groups[i] == 0 {
            if cur_len == 0 {
                cur_start = i;
            }
            cur_len += 1;
            if cur_len > best_len {
                assert forall|s: int, l: int| #[trigger]
                    is_zero_run(groups@, s, l) && s + l <= i + 1 implies l < cur_len || (l
                    == cur_len && cur_start <= s) by {
                    if s + l <= i {
                        if best_len == 0 {
                            assert(groups@[s] == 0);
                        }
                    } else {
                        if s < i + 1 - cur_len {
                            assert(groups@[i + 1 - cur_len - 1] == 0);
                        }
                    }
                }
                best_start = cur_start;
                best_len = cur_len;
            } else {
                assert forall|s: int, l: int| #[trigger]
                    is_zero_run(groups@, s, l) && s + l <= i + 1 implies l < best_len || (l
                    == best_len && best_start <= s) by {
                    if s + l > i {
                        if s < i + 1 - cur_len {
                            assert(groups@[i + 1 - cur_len - 1] == 0);
                        }
                    }
                }
            }
        } else {
            cur_start = 0;
            cur_len = 0;
            assert forall|s: int, l: int| #[trigger]
                is_zero_run(groups@, s, l) && s + l <= i + 1 implies s + l <= i by {
                if s + l == i + 1 {
                    assert(groups@[i as int] == 0);
                }
            }
        }
        i += 1;
    }
    proof {
        let g = groups@;
        if best_len >= 2 {
            assert(is_longest_zero_run(g, best_start as int, best_len as int));
            let (s, l) = choose|s: int, l: int| l >= 2 && is_longest_zero_run(g, s, l);
            lemma_longest_zero_run_unique(g, s, l, best_start as int, best_len as int);
        } else {
            if exists|s: int, l: int| l >= 2 && is_longest_zero_run(g, s, l) {
                let (s, l) = choose|s: int, l: int| l >= 2 && is_longest_zero_run(g, s, l);
                assert(is_zero_run(g, s, l));
                if best_len == 0 {
                    assert(g[s] == 0);
                }
            }
        }
    }
    (best_start, best_len)
}

/// Appends the groups at the positions from `from` up to `to`, in
/// hexadecimal and separated by colons.
pub fn push_hex_groups(out: &mut String, groups: &[u16; 8], from: usize, to: usize)
    requires
        from <= to <= 8,
    ensures
        final(out)@ == old(out)@ + hex_groups(groups@.subrange(from as int, to as int)),
{
    let mut i: usize = from;
    assert(groups@.subrange(from as int, from as int) =~= Seq::<u16>::empty());
    assert(out@ =~= old(out)@ + hex_groups(groups@.subrange(from as int, i as int)));
    while i < to
        invariant
            from <= i <= to <= 8,
            out@ == old(out)@ + hex_groups(groups@.subrange(from as int, i as int)),
        decreases to - i,
    {
        if i > from {
            out.push(':');
        }
        push_hex(out, groups[i]);
        proof {
            let before = groups@.subrange(from as int, i as int);
            let after = groups@.subrange(from as int, i + 1);
            assert(after.drop_last() =~= before);
            assert(after.last() == groups@[i as int]);
            assert(out@ =~= old(out)@ + hex_groups(after));
        }
        i += 1;
    }
}

/// Appends the canonical text of an IPv6 address.
pub fn push_v6_text(out: &mut String, a: &Ipv6Address)
    ensures
        final(out)@ == old(out)@ + v6_text(*a),
{
    if a.is_ipv4_mapped() {
        out.push(':');
        out.push(':');
        out.push('f');
        out.push('f');
        out.push('f');
        out.push('f');
        out.push(':');
        push_v4_text(out, &a.embedded_v4());
        assert(out@ =~= old(out)@ + v6_text(*a));
    } else {
        let groups = a.segments();
        let run = longest_zero_run(&groups);
        if run.1 >= 2 {
            push_hex_groups(out, &groups, 0, run.0);
            out.push(':');
            out.push(':');
            push_hex_groups(out, &groups, run.0 + run.1, 8);
            assert(out@ =~= old(out)@ + v6_text(*a));
        } else {
            push_hex_groups(out, &groups, 0, 8);
            assert(groups@.subrange(0, 8) =~= groups@);
        }
    }
}

/// Appends the text of an address of either family.
pub fn push_ip_text(out: &mut String, ip: &IpAddress)
    ensures
        final(out)@ == old(out)@ + ip_text(*ip),
{
    match ip {
        IpAddress::V4(a) => push_v4_text(out, a),
        IpAddress::V6(a) => push_v6_text(out, a),
    }
}

/// Appends an address, a slash and the prefix length.
pub fn push_cidr_text(out: &mut String, ip: &IpAddress, prefix_len: u8)
    ensures
        final(out)@ == old(out)@ + cidr_text(*ip, prefix_len),
{
    push_ip_text(out, ip);
    out.push('/');
    push_decimal(out, prefix_len);
    assert(out@ =~= old(out)@ + cidr_text(*ip, prefix_len));
}

impl Ipv4Address {
    /// The address in dotted decimal.
    pub fn to_text(&self) -> (text: String)
        ensures
            text@ == v4_text(*self),
    {
        let mut out = String::new();
        push_v4_text(&mut out, self);
        assert(out@ =~= v4_text(*self));
        out
    }
}

impl Ipv6Address {
    /// The address in its canonical text form.
    pub fn to_text(&self) -> (text: String)
        ensures
            text@ == v6_text(*self),
    {
        let mut out = String::new();
        push_v6_text(&mut out, self);
        assert(out@ =~= v6_text(*self));
        out
    }
}

impl IpAddress {
    /// The address in the text form of its family.
    pub fn to_text(&self) -> (text: String)
        ensures
            text@ == ip_text(*self),
    {
        let mut out = String::new();
        push_ip_text(&mut out, self);
        assert(out@ =~= ip_text(*self));
        out
    }
}

} // verus!
